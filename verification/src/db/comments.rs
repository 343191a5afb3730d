//! Comments on articles: creation, listing and deletion.

use vstd::prelude::*;
use crate::db::users::{profile_for, to_profile_for};
use crate::db::{views, Conn, ConnModel};
use crate::models::comment::{attach_comment, Comment, CommentJson, CommentJsonModel, CommentModel};
use crate::models::user::profile_of;
use crate::time::Timestamp;

verus! {

/// A comment about to be stored.
pub struct NewComment<'a> {
    pub body: &'a str,
    pub author: i32,
    pub article: i32,
}

/// Whether the user `author` can comment on the article with the slug `slug`: both exist
/// and an identifier is left.
pub open spec fn can_comment(m: ConnModel, author: i32, slug: Seq<char>) -> bool {
    &&& m.has_slug(slug)
    &&& m.has_user(author)
    &&& m.next_comment_id < i32::MAX
}

/// The comment that a store in state `m` makes of `body` at the instant `now`.
pub open spec fn new_comment_model(
    m: ConnModel,
    author: i32,
    slug: Seq<char>,
    body: Seq<char>,
    now: int,
) -> CommentModel {
    CommentModel {
        id: m.next_comment_id,
        body,
        article: m.article_with_slug(slug).id,
        author,
        created_at: now,
        updated_at: now,
    }
}

/// The store `m` after `comment` was added under the next identifier.
pub open spec fn with_comment(m: ConnModel, comment: CommentModel) -> ConnModel {
    ConnModel {
        comments: m.comments.push(comment),
        next_comment_id: (m.next_comment_id + 1) as i32,
        ..m
    }
}

/// Stores a comment of `author` on the article with the slug `slug`, made at the instant
/// `now`. Nothing changes, and `None` is returned, where the article or the author is
/// unknown or no identifier is left.
pub fn insert(conn: &mut Conn, author: i32, slug: &str, body: &str, now: Timestamp) -> (r: Option<
    CommentJson,
>)
    requires
        old(conn).wf(),
    ensures
        final(conn).wf(),
        r is Some <==> can_comment(old(conn)@, author, slug@),
        r is None ==> final(conn)@ == old(conn)@,
        r matches Some(json) ==> {
            let c = new_comment_model(old(conn)@, author, slug@, body@, now@);
            &&& final(conn)@ == with_comment(old(conn)@, c)
            &&& json@ == attach_comment(c, profile_of(old(conn)@.user(author), false))
        },
{
    let ghost before = conn@;
    let slug = slug.to_owned();
    let i = match conn.slug_index(&slug) {
        Some(i) => i,
        None => {
            return None;
        },
    };
    let u = match conn.user_index(author) {
        Some(u) => u,
        None => {
            return None;
        },
    };
    if conn.next_comment_id == i32::MAX {
        return None;
    }
    proof {
        before.lemma_article_at(i as int);
        before.lemma_user_at(u as int);
    }
    let new_comment = NewComment { body, author, article: conn.articles[i].id };
    let comment = Comment {
        id: conn.next_comment_id,
        body: new_comment.body.to_owned(),
        article: new_comment.article,
        author: new_comment.author,
        created_at: now,
        updated_at: now,
    };
    let stored = comment.clone();
    conn.comments.push(stored);
    conn.next_comment_id = conn.next_comment_id + 1;
    proof {
        let after = conn@;
        assert(after.comments =~= before.comments.push(comment@));
        assert(after == with_comment(before, comment@));
        before.lemma_same_users(after);
        before.lemma_same_articles(after);
        assert(after.comments_wf());
    }
    Some(comment.attach(conn.users[u].clone().to_profile(false)))
}

/// Comments on the article with the slug `slug` in the name of `author`, at the instant
/// that the clock reads.
pub fn create(conn: &mut Conn, author: i32, slug: &str, body: &str) -> (r: Option<CommentJson>)
    requires
        old(conn).wf(),
    ensures
        final(conn).wf(),
        r is None ==> final(conn)@ == old(conn)@,
        !can_comment(old(conn)@, author, slug@) ==> r is None,
        r matches Some(json) ==> exists|now: int|
            #![trigger Timestamp::valid_millis(now)]
            {
                let c = new_comment_model(old(conn)@, author, slug@, body@, now);
                &&& Timestamp::valid_millis(now)
                &&& final(conn)@ == with_comment(old(conn)@, c)
                &&& json@ == attach_comment(c, profile_of(old(conn)@.user(author), false))
            },
{
    let now = match Timestamp::now() {
        Some(now) => now,
        None => {
            return None;
        },
    };
    let r = insert(conn, author, slug, body, now);
    proof {
        if r is Some {
            assert(Timestamp::valid_millis(now@));
        }
    }
    r
}

/// The test whether a comment belongs to `article`.
pub open spec fn on_article(article: i32) -> spec_fn(CommentModel) -> bool {
    |c: CommentModel| c.article == article
}

/// The comments on the article with the slug `slug`, oldest first; none where no article
/// has the slug.
pub open spec fn comments_on(m: ConnModel, slug: Seq<char>) -> Seq<CommentModel> {
    if m.has_slug(slug) {
        m.comments.filter(on_article(m.article_with_slug(slug).id))
    } else {
        Seq::empty()
    }
}

/// The way from a stored comment to what `viewer` sees of it.
pub open spec fn show_comment(m: ConnModel, viewer: Option<i32>) -> spec_fn(CommentModel) -> CommentJsonModel {
    |c: CommentModel| attach_comment(c, profile_for(m, m.user(c.author), viewer))
}

/// The comments on the article with the slug `slug`, oldest first, each with its
/// author's profile as `current_user_id` sees it.
pub fn find_by_slug(conn: &Conn, slug: &str, current_user_id: Option<i32>) -> (r: Vec<CommentJson>)
    requires
        conn.wf(),
    ensures
        views(r@) == comments_on(conn@, slug@).map_values(show_comment(conn@, current_user_id)),
{
    let ghost m = conn@;
    let slug = slug.to_owned();
    let mut out: Vec<CommentJson> = Vec::new();
    let i = match conn.slug_index(&slug) {
        Some(i) => i,
        None => {
            assert(views(out@) =~= comments_on(m, slug@).map_values(
                show_comment(m, current_user_id),
            ));
            return out;
        },
    };
    proof {
        m.lemma_article_at(i as int);
    }
    let article = conn.articles[i].id;
    let ghost pred = on_article(article);
    let ghost show = show_comment(m, current_user_id);
    let mut k: usize = 0;
    assert(m.comments.take(0) =~= Seq::<CommentModel>::empty());
    assert(views(out@) =~= m.comments.take(0).filter(pred).map_values(show));
    while k < conn.comments.len()
        invariant
            k <= conn.comments.len(),
            conn.wf(),
            m == conn@,
            pred == on_article(article),
            show == show_comment(m, current_user_id),
            views(out@) == m.comments.take(k as int).filter(pred).map_values(show),
        decreases conn.comments.len() - k,
    {
        let ghost shown = views(out@);
        proof {
            let next = m.comments.take(k + 1);
            assert(next.drop_last() =~= m.comments.take(k as int));
            assert(next.last() == m.comments[k as int]);
            reveal(Seq::filter);
        }
        if conn.comments[k].article == article {
            let comment = conn.comments[k].clone();
            assert(m.has_user(m.comments[k as int].author));
            let u = conn.user_index(comment.author).unwrap();
            proof {
                m.lemma_user_at(u as int);
            }
            let author = to_profile_for(conn, &conn.users[u], current_user_id);
            let json = comment.attach(author);
            out.push(json);
            proof {
                let kept = m.comments.take(k as int).filter(pred);
                assert(views(out@) =~= shown.push(json@));
                assert(kept.push(m.comments[k as int]).map_values(show) =~= kept.map_values(
                    show,
                ).push(show(m.comments[k as int])));
            }
        }
        k += 1;
    }
    assert(m.comments.take(k as int) =~= m.comments);
    out
}

/// Whether `requester` may delete the comment `comment_id` under the slug `slug`: the
/// slug names an article that `requester` wrote, and the comment belongs to it. Who wrote
/// the comment plays no part.
pub open spec fn can_delete(m: ConnModel, requester: i32, slug: Seq<char>, comment_id: i32) -> bool {
    &&& m.has_slug(slug)
    &&& m.article_with_slug(slug).author == requester
    &&& m.has_comment(comment_id)
    &&& m.comment(comment_id).article == m.article_with_slug(slug).id
}

/// The store `m` after `requester` asked to delete the comment `comment_id` under the
/// slug `slug`.
pub open spec fn after_delete(m: ConnModel, requester: i32, slug: Seq<char>, comment_id: i32) -> ConnModel {
    if can_delete(m, requester, slug, comment_id) {
        ConnModel { comments: m.comments.remove(m.comment_position(comment_id)), ..m }
    } else {
        m
    }
}

/// Deletes the comment `comment_id` on the article with the slug `slug`, if `author` is
/// the author of that article. Otherwise nothing changes.
pub fn delete(conn: &mut Conn, author: i32, slug: &str, comment_id: i32)
    requires
        old(conn).wf(),
    ensures
        final(conn).wf(),
        final(conn)@ == after_delete(old(conn)@, author, slug@, comment_id),
{
    let ghost before = conn@;
    let slug = slug.to_owned();
    let i = match conn.slug_index(&slug) {
        Some(i) => i,
        None => {
            return ;
        },
    };
    proof {
        before.lemma_article_at(i as int);
    }
    if conn.articles[i].author != author {
        return ;
    }
    let k = match conn.comment_index(comment_id) {
        Some(k) => k,
        None => {
            return ;
        },
    };
    proof {
        before.lemma_comment_at(k as int);
    }
    if conn.comments[k].article != conn.articles[i].id {
        return ;
    }
    conn.comments.remove(k);
    proof {
        let after = conn@;
        assert(after.comments =~= before.comments.remove(k as int));
        before.lemma_same_users(after);
        before.lemma_same_articles(after);
        assert forall|j: int| 0 <= j < after.comments.len() implies #[trigger] after.comments[j]
            == before.comments[if j < k {
            j
        } else {
            j + 1
        }] by {}
        assert(after.comments_wf());
    }
}

/// A request to delete a comment changes the store only where the requester wrote the
/// article that the slug names, whoever wrote the comment; and where the requester did and
/// the comment belongs to that article, the comment is gone afterwards.
pub proof fn deletion_needs_article_author(m: ConnModel, requester: i32, slug: Seq<char>, comment_id: i32)
    requires
        m.wf(),
    ensures
        after_delete(m, requester, slug, comment_id) != m ==> m.has_slug(slug)
            && m.article_with_slug(slug).author == requester,
        m.has_comment(comment_id) && !after_delete(m, requester, slug, comment_id).has_comment(
            comment_id,
        ) ==> can_delete(m, requester, slug, comment_id),
        can_delete(m, requester, slug, comment_id) ==> !after_delete(
            m,
            requester,
            slug,
            comment_id,
        ).has_comment(comment_id),
{
    if can_delete(m, requester, slug, comment_id) {
        let k = m.comment_position(comment_id);
        let after = after_delete(m, requester, slug, comment_id);
        if after.has_comment(comment_id) {
            let j = choose|j: int|
                0 <= j < after.comments.len() && (#[trigger] after.comments[j]).id == comment_id;
            let o = if j < k { j } else { j + 1 };
            assert(after.comments[j] == m.comments[o]);
            if o < k {
                assert(m.comments[o].id != m.comments[k].id);
            } else {
                assert(m.comments[k].id != m.comments[o].id);
            }
        }
    }
}

} // verus!
