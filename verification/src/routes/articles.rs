//! Articles, the feed, favorites and comments.

use vstd::prelude::*;
use crate::auth::Auth;
use crate::db::articles::{
    after_delete, after_favorite, after_save, after_unfavorite, article_json, can_favorite,
    can_save, created, derived_update, enrich, feed_of, is_slug_for, limit_of, matching,
    new_article_of, offset_of, slug_of, updated_article, url_safe, ArticleCreationError,
    FeedArticles, FindArticles, FindModel, UpdateArticleData, UpdateArticleModel,
};
use crate::db::comments::{comments_on, new_comment_model, show_comment, with_comment};
use crate::db::pagination::page;
use crate::db::{views, Conn};
use crate::errors::{
    blank_if_missing, check_min_length, collect_codes, lemma_codes_empty, no_codes, one_code,
    outcome_of, too_short, Errors, Failure, FieldCodes, FieldErrorCode, FieldName,
    FieldValidator, Validate,
};
use crate::models::article::ArticleJson;
use crate::models::comment::{attach_comment, CommentJson};
use crate::models::user::profile_of;
use crate::routes::{viewer_id, viewer_of};
use crate::time::Timestamp;

verus! {

/// The body of a request to create an article.
pub struct NewArticle {
    pub article: NewArticleData,
}

/// The fields of a new article.
pub struct NewArticleData {
    pub title: Option<String>,
    pub description: Option<String>,
    pub body: Option<String>,
    pub tag_list: Vec<String>,
}

impl Validate for NewArticleData {
    /// A title, a description and a body that are given hold a character each.
    open spec fn violations(&self) -> Seq<(Seq<char>, Seq<char>)> {
        too_short("title"@, self.title.deep_view(), 1) + too_short(
            "description"@,
            self.description.deep_view(),
            1,
        ) + too_short("body"@, self.body.deep_view(), 1)
    }

    fn validate(&self) -> (r: Result<(), Errors>) {
        let mut found: Vec<(FieldName, FieldErrorCode)> = Vec::new();
        assert(crate::errors::pairs_view(found@) =~= Seq::<(Seq<char>, Seq<char>)>::empty());
        check_min_length(&mut found, "title", &self.title, 1);
        check_min_length(&mut found, "description", &self.description, 1);
        check_min_length(&mut found, "body", &self.body, 1);
        assert(crate::errors::pairs_view(found@) =~= self.violations());
        outcome_of(found)
    }
}

/// The failures of a request to create an article: what the rules find, and each missing
/// field as blank.
pub open spec fn new_article_codes(d: NewArticleData) -> FieldCodes {
    blank_if_missing(
        blank_if_missing(
            blank_if_missing(collect_codes(d.violations()), "title"@, d.title),
            "description"@,
            d.description,
        ),
        "body"@,
        d.body,
    )
}

/// Creates an article in the name of the session.
///
/// A request that breaks a rule changes nothing and is answered with the failures by
/// field; so is a title that leaves nothing to make a slug of. A session of an unknown
/// user is unauthorized. Whatever else keeps the store from taking the article, a slug
/// that is taken among it, is a storage failure.
pub fn post_articles(conn: &mut Conn, auth: &Auth, new_article: NewArticle) -> (r: Result<
    ArticleJson,
    Failure,
>)
    requires
        old(conn).wf(),
    ensures
        final(conn).wf(),
        r is Err ==> final(conn)@ == old(conn)@,
        !(new_article_codes(new_article.article) =~= no_codes()) ==> (r matches Err(
            Failure::ValidationFailed(e),
        ) && e.wf() && e@ == new_article_codes(new_article.article)),
        new_article_codes(new_article.article) =~= no_codes() ==> {
            let title = new_article.article.title->0@;
            &&& slug_of(title).len() == 0 ==> (r matches Err(Failure::ValidationFailed(e))
                && e.wf() && e@ == one_code("title"@, "can't be blank"@))
            &&& slug_of(title).len() > 0 && !old(conn)@.has_user(auth.id) ==> (r matches Err(
                Failure::Unauthorized,
            ))
            &&& slug_of(title).len() > 0 && old(conn)@.has_user(auth.id) ==> (r is Ok || (
            r matches Err(Failure::StorageFailure)))
            &&& r matches Ok(json) ==> {
                &&& slug_of(title).is_prefix_of(json@.slug)
                &&& is_slug_for(json@.slug, title, old(conn)@.random_suffix)
                &&& url_safe(json@.slug)
                &&& exists|now: int|
                    #![trigger Timestamp::valid_millis(now)]
                    Timestamp::valid_millis(now) && created(
                        old(conn)@,
                        final(conn)@,
                        json@,
                        new_article_of(
                            title,
                            new_article.article.description->0@,
                            new_article.article.body->0@,
                            json@.slug,
                            auth.id,
                            new_article.article.tag_list.deep_view(),
                        ),
                        now,
                    )
            }
        },
{
    let data = new_article.article;
    let ghost d = data;
    let mut extractor = FieldValidator::validate(&data);
    let title = extractor.extract("title", data.title);
    let description = extractor.extract("description", data.description);
    let body = extractor.extract("body", data.body);
    match extractor.check() {
        Err(e) => {
            return Err(Failure::ValidationFailed(e));
        },
        Ok(()) => {},
    }
    proof {
        lemma_codes_empty(new_article_codes(d), "body"@, d.body);
        lemma_codes_empty(
            blank_if_missing(
                blank_if_missing(collect_codes(d.violations()), "title"@, d.title),
                "description"@,
                d.description,
            ),
            "description"@,
            d.description,
        );
        lemma_codes_empty(
            blank_if_missing(collect_codes(d.violations()), "title"@, d.title),
            "title"@,
            d.title,
        );
    }
    match crate::db::articles::create(
        conn,
        auth.id,
        title.as_str(),
        description.as_str(),
        body.as_str(),
        &data.tag_list,
    ) {
        Ok(json) => Ok(json),
        Err(ArticleCreationError::BlankSlug) => Err(
            Failure::ValidationFailed(Errors::single("title", "can't be blank")),
        ),
        Err(ArticleCreationError::UnknownAuthor) => Err(Failure::Unauthorized),
        Err(_) => Err(Failure::StorageFailure),
    }
}

/// The search that a request's parameters ask for.
pub open spec fn search_of(
    tag: Option<String>,
    author: Option<String>,
    favorited: Option<String>,
    limit: Option<i64>,
    offset: Option<i64>,
) -> FindModel {
    FindModel {
        tag: tag.deep_view(),
        author: author.deep_view(),
        favorited: favorited.deep_view(),
        limit,
        offset,
    }
}

/// The articles that pass the filters given, most recent first, one page of them, and
/// the number of all that pass.
pub fn get_articles(
    conn: &Conn,
    tag: Option<String>,
    author: Option<String>,
    favorited: Option<String>,
    limit: Option<i64>,
    offset: Option<i64>,
    auth: Option<&Auth>,
) -> (r: (Vec<ArticleJson>, i64))
    requires
        conn.wf(),
    ensures
        views(r.0@) == page(
            matching(conn@, search_of(tag, author, favorited, limit, offset)),
            offset_of(offset),
            limit_of(limit),
        ).map_values(enrich(conn@, viewer_of(auth))),
        r.1 == matching(conn@, search_of(tag, author, favorited, limit, offset)).len(),
{
    let params = FindArticles { tag, author, favorited, limit, offset };
    crate::db::articles::find(conn, &params, viewer_id(auth))
}

/// The article with the slug `slug`, as the session sees it.
pub fn get_article(conn: &Conn, slug: &str, auth: Option<&Auth>) -> (r: Option<ArticleJson>)
    requires
        conn.wf(),
    ensures
        r is Some <==> conn@.has_slug(slug@),
        r matches Some(json) ==> json@ == article_json(
            conn@,
            conn@.article_with_slug(slug@),
            viewer_of(auth),
        ),
{
    crate::db::articles::find_one(conn, slug, viewer_id(auth))
}

/// Deletes the article with the slug `slug` if the session is its author's.
pub fn delete_article(conn: &mut Conn, slug: &str, auth: &Auth)
    requires
        old(conn).wf(),
    ensures
        final(conn).wf(),
        final(conn)@ == after_delete(old(conn)@, slug@, auth.id),
{
    crate::db::articles::delete(conn, slug, auth.id)
}

/// Puts the article with the slug `slug` among the favorites of the session's user.
pub fn favorite_article(conn: &mut Conn, slug: &str, auth: &Auth) -> (r: Option<ArticleJson>)
    requires
        old(conn).wf(),
    ensures
        final(conn).wf(),
        r is Some <==> can_favorite(old(conn)@, slug@, auth.id),
        r is None ==> final(conn)@ == old(conn)@,
        r matches Some(json) ==> {
            &&& final(conn)@ == after_favorite(old(conn)@, slug@, auth.id)
            &&& json@ == article_json(
                final(conn)@,
                final(conn)@.article_with_slug(slug@),
                Some(auth.id),
            )
        },
{
    crate::db::articles::favorite(conn, slug, auth.id)
}

/// Takes the article with the slug `slug` out of the favorites of the session's user.
pub fn unfavorite_article(conn: &mut Conn, slug: &str, auth: &Auth) -> (r: Option<ArticleJson>)
    requires
        old(conn).wf(),
    ensures
        final(conn).wf(),
        r is Some <==> old(conn)@.has_slug(slug@),
        r is None ==> final(conn)@ == old(conn)@,
        r matches Some(json) ==> {
            &&& final(conn)@ == after_unfavorite(old(conn)@, slug@, auth.id)
            &&& json@ == article_json(
                final(conn)@,
                final(conn)@.article_with_slug(slug@),
                Some(auth.id),
            )
        },
{
    crate::db::articles::unfavorite(conn, slug, auth.id)
}

/// The body of a request to update an article.
pub struct UpdateArticle {
    pub article: UpdateArticleData,
}

/// Updates the article with the slug `slug` if the session is its author's.
pub fn put_articles(conn: &mut Conn, slug: &str, article: UpdateArticle, auth: &Auth) -> (r: Option<
    ArticleJson,
>)
    requires
        old(conn).wf(),
    ensures
        final(conn).wf(),
        r is None ==> final(conn)@ == old(conn)@,
        !old(conn)@.has_slug(slug@) ==> r is None,
        old(conn)@.has_slug(slug@) && old(conn)@.article_with_slug(slug@).author != auth.id
            ==> r is None,
        article.article@.title is Some && slug_of(article.article@.title->0).len() == 0 ==> r
            is None,
        r matches Some(json) ==> exists|d: UpdateArticleModel, now: int|
            #![trigger after_save(old(conn)@, slug@, d, now)]
            {
                &&& d == derived_update(article.article@, d.slug)
                &&& article.article@.title is Some ==> d.slug is Some && is_slug_for(
                    d.slug->0,
                    article.article@.title->0,
                    old(conn)@.random_suffix,
                )
                &&& Timestamp::valid_millis(now)
                &&& can_save(old(conn)@, slug@, auth.id, d)
                &&& final(conn)@ == after_save(old(conn)@, slug@, d, now)
                &&& json@ == article_json(
                    final(conn)@,
                    updated_article(old(conn)@.article_with_slug(slug@), d, now),
                    Some(auth.id),
                )
            },
{
    crate::db::articles::update(conn, slug, auth.id, article.article)
}

/// The body of a request to comment.
pub struct NewComment {
    pub comment: NewCommentData,
}

/// The fields of a new comment.
pub struct NewCommentData {
    pub body: Option<String>,
}

impl Validate for NewCommentData {
    /// A body that is given holds a character.
    open spec fn violations(&self) -> Seq<(Seq<char>, Seq<char>)> {
        too_short("body"@, self.body.deep_view(), 1)
    }

    fn validate(&self) -> (r: Result<(), Errors>) {
        let mut found: Vec<(FieldName, FieldErrorCode)> = Vec::new();
        assert(crate::errors::pairs_view(found@) =~= Seq::<(Seq<char>, Seq<char>)>::empty());
        check_min_length(&mut found, "body", &self.body, 1);
        assert(crate::errors::pairs_view(found@) =~= self.violations());
        outcome_of(found)
    }
}

/// The failures of a request to comment.
pub open spec fn new_comment_codes(d: NewCommentData) -> FieldCodes {
    blank_if_missing(collect_codes(d.violations()), "body"@, d.body)
}

/// Comments on the article with the slug `slug` in the name of the session.
///
/// A request that breaks a rule is answered with the failures by field. An unknown
/// article is not found, a session of an unknown user is unauthorized, and whatever else
/// keeps the store from taking the comment is a storage failure.
pub fn post_comment(conn: &mut Conn, slug: &str, new_comment: NewComment, auth: &Auth) -> (r:
    Result<CommentJson, Failure>)
    requires
        old(conn).wf(),
    ensures
        final(conn).wf(),
        r is Err ==> final(conn)@ == old(conn)@,
        !(new_comment_codes(new_comment.comment) =~= no_codes()) ==> (r matches Err(
            Failure::ValidationFailed(e),
        ) && e.wf() && e@ == new_comment_codes(new_comment.comment)),
        new_comment_codes(new_comment.comment) =~= no_codes() ==> {
            &&& !old(conn)@.has_slug(slug@) ==> (r matches Err(Failure::NotFound))
            &&& old(conn)@.has_slug(slug@) && !old(conn)@.has_user(auth.id) ==> (r matches Err(
                Failure::Unauthorized,
            ))
            &&& old(conn)@.has_slug(slug@) && old(conn)@.has_user(auth.id) ==> (r is Ok || (
            r matches Err(Failure::StorageFailure)))
            &&& r matches Ok(json) ==> exists|now: int|
                #![trigger Timestamp::valid_millis(now)]
                {
                    let c = new_comment_model(
                        old(conn)@,
                        auth.id,
                        slug@,
                        new_comment.comment.body->0@,
                        now,
                    );
                    &&& Timestamp::valid_millis(now)
                    &&& final(conn)@ == with_comment(old(conn)@, c)
                    &&& json@ == attach_comment(c, profile_of(old(conn)@.user(auth.id), false))
                }
        },
{
    let data = new_comment.comment;
    let ghost d = data;
    let mut extractor = FieldValidator::validate(&data);
    let body = extractor.extract("body", data.body);
    match extractor.check() {
        Err(e) => {
            return Err(Failure::ValidationFailed(e));
        },
        Ok(()) => {},
    }
    proof {
        lemma_codes_empty(new_comment_codes(d), "body"@, d.body);
    }
    let slug_text = slug.to_owned();
    if conn.slug_index(&slug_text).is_none() {
        return Err(Failure::NotFound);
    }
    if conn.user_index(auth.id).is_none() {
        return Err(Failure::Unauthorized);
    }
    match crate::db::comments::create(conn, auth.id, slug, body.as_str()) {
        Some(json) => Ok(json),
        None => Err(Failure::StorageFailure),
    }
}

/// Deletes the comment `id` under the slug `slug` if the session is that of the
/// article's author.
pub fn delete_comment(conn: &mut Conn, slug: &str, id: i32, auth: &Auth)
    requires
        old(conn).wf(),
    ensures
        final(conn).wf(),
        final(conn)@ == crate::db::comments::after_delete(old(conn)@, auth.id, slug@, id),
{
    crate::db::comments::delete(conn, auth.id, slug, id)
}

/// The comments on the article with the slug `slug`, as the session sees them.
pub fn get_comments(conn: &Conn, slug: &str, auth: Option<&Auth>) -> (r: Vec<CommentJson>)
    requires
        conn.wf(),
    ensures
        views(r@) == comments_on(conn@, slug@).map_values(show_comment(conn@, viewer_of(auth))),
{
    crate::db::comments::find_by_slug(conn, slug, viewer_id(auth))
}

/// One page of the feed of the session's user, and the number of articles on the page.
pub fn get_articles_feed(conn: &Conn, limit: Option<i64>, offset: Option<i64>, auth: &Auth) -> (r: (
    Vec<ArticleJson>,
    usize,
))
    requires
        conn.wf(),
    ensures
        views(r.0@) == page(
            feed_of(conn@, auth.id),
            offset_of(offset),
            limit_of(limit),
        ).map_values(enrich(conn@, Some(auth.id))),
        r.1 == r.0.len(),
{
    let params = FeedArticles { limit, offset };
    let articles = crate::db::articles::feed(conn, &params, auth.id);
    let articles_count = articles.len();
    (articles, articles_count)
}

} // verus!
