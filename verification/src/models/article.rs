//! Articles as stored and as shown to a viewer.

use vstd::prelude::*;
use crate::models::user::{Profile, ProfileModel};
use crate::text::clone_texts;
use crate::time::{iso8601_millis, iso8601_shape, Timestamp};

verus! {

/// An article as stored.
pub struct Article {
    pub id: i32,
    pub slug: String,
    pub title: String,
    pub description: String,
    pub body: String,
    /// Identifier of the author.
    pub author: i32,
    pub tag_list: Vec<String>,
    pub created_at: Timestamp,
    pub updated_at: Timestamp,
    pub favorites_count: i32,
}

/// Mathematical value of an [`Article`].
pub ghost struct ArticleModel {
    pub id: i32,
    pub slug: Seq<char>,
    pub title: Seq<char>,
    pub description: Seq<char>,
    pub body: Seq<char>,
    pub author: i32,
    pub tag_list: Seq<Seq<char>>,
    pub created_at: int,
    pub updated_at: int,
    pub favorites_count: int,
}

impl View for Article {
    type V = ArticleModel;

    open spec fn view(&self) -> ArticleModel {
        ArticleModel {
            id: self.id,
            slug: self.slug@,
            title: self.title@,
            description: self.description@,
            body: self.body@,
            author: self.author,
            tag_list: self.tag_list.deep_view(),
            created_at: self.created_at@,
            updated_at: self.updated_at@,
            favorites_count: self.favorites_count as int,
        }
    }
}

impl Clone for Article {
    fn clone(&self) -> (r: Self)
        ensures
            r@ == self@,
    {
        Article {
            id: self.id,
            slug: self.slug.clone(),
            title: self.title.clone(),
            description: self.description.clone(),
            body: self.body.clone(),
            author: self.author,
            tag_list: clone_texts(&self.tag_list),
            created_at: self.created_at,
            updated_at: self.updated_at,
            favorites_count: self.favorites_count,
        }
    }
}

/// An article as shown to a viewer: the author as a profile, the instants as text, and
/// whether the viewer has favorited it.
pub struct ArticleJson {
    pub id: i32,
    pub slug: String,
    pub title: String,
    pub description: String,
    pub body: String,
    pub author: Profile,
    pub tag_list: Vec<String>,
    pub created_at: String,
    pub updated_at: String,
    pub favorites_count: i32,
    pub favorited: bool,
}

/// Mathematical value of an [`ArticleJson`].
pub ghost struct ArticleJsonModel {
    pub id: i32,
    pub slug: Seq<char>,
    pub title: Seq<char>,
    pub description: Seq<char>,
    pub body: Seq<char>,
    pub author: ProfileModel,
    pub tag_list: Seq<Seq<char>>,
    pub created_at: Seq<char>,
    pub updated_at: Seq<char>,
    pub favorites_count: int,
    pub favorited: bool,
}

impl View for ArticleJson {
    type V = ArticleJsonModel;

    open spec fn view(&self) -> ArticleJsonModel {
        ArticleJsonModel {
            id: self.id,
            slug: self.slug@,
            title: self.title@,
            description: self.description@,
            body: self.body@,
            author: self.author@,
            tag_list: self.tag_list.deep_view(),
            created_at: self.created_at@,
            updated_at: self.updated_at@,
            favorites_count: self.favorites_count as int,
            favorited: self.favorited,
        }
    }
}

/// The article `article` as shown with the author's profile `author`.
pub open spec fn attach_article(
    article: ArticleModel,
    author: ProfileModel,
    favorited: bool,
) -> ArticleJsonModel {
    ArticleJsonModel {
        id: article.id,
        slug: article.slug,
        title: article.title,
        description: article.description,
        body: article.body,
        author,
        tag_list: article.tag_list,
        created_at: iso8601_millis(article.created_at),
        updated_at: iso8601_millis(article.updated_at),
        favorites_count: article.favorites_count,
        favorited,
    }
}

impl Article {
    /// Joins the article with its author's profile and the viewer's favorite flag.
    pub fn attach(self, author: Profile, favorited: bool) -> (r: ArticleJson)
        ensures
            r@ == attach_article(self@, author@, favorited),
            iso8601_shape(r@.created_at),
            iso8601_shape(r@.updated_at),
    {
        let created_at = self.created_at.format();
        let updated_at = self.updated_at.format();
        ArticleJson {
            id: self.id,
            slug: self.slug,
            title: self.title,
            description: self.description,
            body: self.body,
            author,
            tag_list: self.tag_list,
            created_at,
            updated_at,
            favorites_count: self.favorites_count,
            favorited,
        }
    }
}

} // verus!
