//! Comments as stored and as shown to a viewer.

use vstd::prelude::*;
use crate::models::user::{Profile, ProfileModel};
use crate::time::{iso8601_millis, iso8601_shape, Timestamp};

verus! {

/// A comment as stored.
pub struct Comment {
    pub id: i32,
    pub body: String,
    /// Identifier of the article commented on.
    pub article: i32,
    /// Identifier of the author.
    pub author: i32,
    pub created_at: Timestamp,
    pub updated_at: Timestamp,
}

/// Mathematical value of a [`Comment`].
pub ghost struct CommentModel {
    pub id: i32,
    pub body: Seq<char>,
    pub article: i32,
    pub author: i32,
    pub created_at: int,
    pub updated_at: int,
}

impl View for Comment {
    type V = CommentModel;

    open spec fn view(&self) -> CommentModel {
        CommentModel {
            id: self.id,
            body: self.body@,
            article: self.article,
            author: self.author,
            created_at: self.created_at@,
            updated_at: self.updated_at@,
        }
    }
}

impl Clone for Comment {
    fn clone(&self) -> (r: Self)
        ensures
            r@ == self@,
    {
        Comment {
            id: self.id,
            body: self.body.clone(),
            article: self.article,
            author: self.author,
            created_at: self.created_at,
            updated_at: self.updated_at,
        }
    }
}

/// A comment as shown to a viewer.
pub struct CommentJson {
    pub id: i32,
    pub body: String,
    pub author: Profile,
    pub created_at: String,
    pub updated_at: String,
}

/// Mathematical value of a [`CommentJson`].
pub ghost struct CommentJsonModel {
    pub id: i32,
    pub body: Seq<char>,
    pub author: ProfileModel,
    pub created_at: Seq<char>,
    pub updated_at: Seq<char>,
}

impl View for CommentJson {
    type V = CommentJsonModel;

    open spec fn view(&self) -> CommentJsonModel {
        CommentJsonModel {
            id: self.id,
            body: self.body@,
            author: self.author@,
            created_at: self.created_at@,
            updated_at: self.updated_at@,
        }
    }
}

/// The comment `comment` as shown with the author's profile `author`.
pub open spec fn attach_comment(comment: CommentModel, author: ProfileModel) -> CommentJsonModel {
    CommentJsonModel {
        id: comment.id,
        body: comment.body,
        author,
        created_at: iso8601_millis(comment.created_at),
        updated_at: iso8601_millis(comment.updated_at),
    }
}

impl Comment {
    /// Joins the comment with its author's profile.
    pub fn attach(self, author: Profile) -> (r: CommentJson)
        ensures
            r@ == attach_comment(self@, author@),
            iso8601_shape(r@.created_at),
            iso8601_shape(r@.updated_at),
    {
        let created_at = self.created_at.format();
        let updated_at = self.updated_at.format();
        CommentJson { id: self.id, body: self.body, author, created_at, updated_at }
    }
}

} // verus!
