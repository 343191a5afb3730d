//! Why the operations on articles keep the store well-formed.

use vstd::prelude::*;
use crate::db::articles::{
    after_favorite, after_unfavorite, not_on, replaced, slot_for, tag_among, tag_in, with_article,
    with_count, without_article,
};
use crate::db::seqs::{
    count_for, lemma_count_after_drop, lemma_count_push, lemma_count_remove, lemma_filter_kept,
    lemma_filter_none, lemma_without_pair, names_article, not_for, without_pair,
};
use crate::db::ConnModel;
use crate::models::article::ArticleModel;

verus! {

/// The slot lies within the list, with the articles at least as recent before it and the
/// next article, if any, older.
pub proof fn lemma_slot_for(articles: Seq<ArticleModel>, now: int)
    ensures
        0 <= slot_for(articles, now) <= articles.len(),
        forall|k: int|
            0 <= k < slot_for(articles, now) ==> (#[trigger] articles[k]).created_at >= now,
        slot_for(articles, now) < articles.len() ==> articles[slot_for(
            articles,
            now,
        )].created_at < now,
    decreases articles.len(),
{
    if articles.len() == 0 || articles[0].created_at < now {
    } else {
        let rest = articles.drop_first();
        lemma_slot_for(rest, now);
        assert forall|k: int| 0 <= k < slot_for(articles, now) implies (
        #[trigger] articles[k]).created_at >= now by {
            if k > 0 {
                assert(articles[k] == rest[k - 1]);
            }
        }
        if slot_for(articles, now) < articles.len() {
            assert(articles[slot_for(articles, now)] == rest[slot_for(rest, now)]);
        }
    }
}

/// Adding a fresh article to a well-formed store leaves it well-formed.
pub proof fn lemma_insert_keeps_wf(m: ConnModel, a: ArticleModel)
    requires
        m.wf(),
        m.next_article_id < i32::MAX,
        a.id == m.next_article_id,
        a.favorites_count == 0,
        m.has_user(a.author),
        !m.has_slug(a.slug),
    ensures
        with_article(m, a).wf(),
        with_article(m, a).has_user(a.author),
        forall|id: i32| m.has_article(id) ==> with_article(m, a).has_article(id),
        with_article(m, a).has_article(a.id),
        with_article(m, a).has_slug(a.slug),
{
    let after = with_article(m, a);
    let p = slot_for(m.articles, a.created_at);
    lemma_slot_for(m.articles, a.created_at);
    m.lemma_same_users(after);
    assert forall|k: int| 0 <= k < after.articles.len() implies #[trigger] after.articles[k] == (
    if k < p {
        m.articles[k]
    } else if k == p {
        a
    } else {
        m.articles[k - 1]
    }) by {}
    assert(after.articles[p] == a);
    assert forall|id: i32| m.has_article(id) implies after.has_article(id) by {
        let k = choose|k: int| 0 <= k < m.articles.len() && (#[trigger] m.articles[k]).id == id;
        let j = if k < p { k } else { k + 1 };
        assert(after.articles[j].id == id);
    }
    assert(count_for(m.favorites, a.id) == 0) by {
        assert forall|i: int| 0 <= i < m.favorites.len() implies !names_article(a.id)(
            #[trigger] m.favorites[i],
        ) by {
            let f = m.favorites[i];
            assert(m.has_article(f.1));
            let k = choose|k: int|
                0 <= k < m.articles.len() && (#[trigger] m.articles[k]).id == f.1;
            assert(m.articles[k].id < m.next_article_id);
        }
        lemma_filter_none(m.favorites, names_article(a.id));
    }
    assert(after.articles_wf()) by {
        assert forall|i: int, j: int| 0 <= i < j < after.articles.len() implies {
            let x = #[trigger] after.articles[i];
            let y = #[trigger] after.articles[j];
            &&& x.id != y.id
            &&& x.slug != y.slug
            &&& x.created_at >= y.created_at
        } by {
            let oi = if i < p { i } else { i - 1 };
            let oj = if j < p { j } else { j - 1 };
            if i == p {
                assert(m.articles[oj].id < m.next_article_id);
                assert(m.articles[oj].slug != a.slug);
                assert(m.articles[p].created_at < a.created_at);
                if p < oj {
                    assert(m.articles[p].created_at >= m.articles[oj].created_at);
                }
            } else if j == p {
                assert(m.articles[oi].id < m.next_article_id);
                assert(m.articles[oi].slug != a.slug);
            } else {
                assert(m.articles[oi].id != m.articles[oj].id);
            }
        }
    }
    assert(after.comments_wf());
    assert(after.links_wf());
}

/// Replacing an article by one of the same identifier, author and instant of creation, with
/// a slug that no other article has and a counter that matches the new favorite table,
/// leaves a well-formed store well-formed.
pub proof fn lemma_replace_keeps_wf(m: ConnModel, i: int, a: ArticleModel, favorites: Seq<(i32, i32)>)
    requires
        m.wf(),
        0 <= i < m.articles.len(),
        a.id == m.articles[i].id,
        a.author == m.articles[i].author,
        a.created_at == m.articles[i].created_at,
        a.slug == m.articles[i].slug || !m.has_slug(a.slug),
        favorites.no_duplicates(),
        forall|k: int|
            0 <= k < favorites.len() ==> m.has_user((#[trigger] favorites[k]).0) && m.has_article(
                favorites[k].1,
            ),
        a.favorites_count == count_for(favorites, a.id),
        forall|id: i32| id != a.id ==> #[trigger] count_for(favorites, id) == count_for(m.favorites, id),
    ensures
        replaced(m, i, a, favorites).wf(),
        replaced(m, i, a, favorites).has_slug(a.slug),
        replaced(m, i, a, favorites).slug_position(a.slug) == i,
        replaced(m, i, a, favorites).has_user(a.author),
{
    let after = replaced(m, i, a, favorites);
    m.lemma_same_users(after);
    assert(after.articles[i] == a);
    assert forall|k: int| 0 <= k < m.articles.len() implies after.has_article(
        (#[trigger] m.articles[k]).id,
    ) by {
        assert(after.articles[k].id == m.articles[k].id);
    }
    m.lemma_articles_kept(after);
    assert(after.articles_wf()) by {
        assert forall|k: int| 0 <= k < after.articles.len() implies {
            let x = #[trigger] after.articles[k];
            &&& 1 <= x.id < after.next_article_id
            &&& after.has_user(x.author)
            &&& x.favorites_count == after.favorites_of(x.id)
        } by {
            if k != i {
                assert(after.articles[k] == m.articles[k]);
                if k < i {
                    assert(m.articles[k].id != m.articles[i].id);
                } else {
                    assert(m.articles[i].id != m.articles[k].id);
                }
            } else {
                assert(m.has_user(m.articles[i].author));
            }
        }
        assert forall|x: int, y: int| 0 <= x < y < after.articles.len() implies {
            let p = #[trigger] after.articles[x];
            let q = #[trigger] after.articles[y];
            &&& p.id != q.id
            &&& p.slug != q.slug
            &&& p.created_at >= q.created_at
        } by {
            assert(m.articles[x].id != m.articles[y].id);
            assert(m.articles[x].slug != m.articles[y].slug);
            assert(m.articles[x].created_at >= m.articles[y].created_at);
        }
    }
    assert(after.comments_wf());
    assert(after.links_wf());
    after.lemma_article_at(i);
}

/// Favoriting keeps the store well-formed and the article in its place.
pub proof fn lemma_favorite_keeps_wf(m: ConnModel, slug: Seq<char>, user: i32)
    requires
        m.wf(),
        m.has_slug(slug),
        m.has_user(user),
    ensures
        after_favorite(m, slug, user).wf(),
        after_favorite(m, slug, user).has_slug(slug),
        after_favorite(m, slug, user).slug_position(slug) == m.slug_position(slug),
        after_favorite(m, slug, user).favorited(user, m.article_with_slug(slug).id),
{
    let i = m.slug_position(slug);
    let a = m.articles[i];
    m.lemma_article_at(i);
    if !m.favorited(user, a.id) {
        let pair = (user, a.id);
        let favorites = m.favorites.push(pair);
        assert(favorites[favorites.len() - 1] == pair);
        assert forall|id: i32| true implies #[trigger] count_for(favorites, id) == count_for(
            m.favorites,
            id,
        ) + (if id == a.id {
            1nat
        } else {
            0nat
        }) by {
            lemma_count_push(m.favorites, pair, id);
        }
        lemma_replace_keeps_wf(m, i, with_count(a, a.favorites_count + 1), favorites);
    }
}

/// Unfavoriting keeps the store well-formed and the article in its place, and the counter
/// does not drop below zero.
pub proof fn lemma_unfavorite_keeps_wf(m: ConnModel, slug: Seq<char>, user: i32)
    requires
        m.wf(),
        m.has_slug(slug),
    ensures
        after_unfavorite(m, slug, user).wf(),
        after_unfavorite(m, slug, user).has_slug(slug),
        after_unfavorite(m, slug, user).slug_position(slug) == m.slug_position(slug),
        !after_unfavorite(m, slug, user).favorited(user, m.article_with_slug(slug).id),
        m.favorited(user, m.article_with_slug(slug).id) ==> m.article_with_slug(
            slug,
        ).favorites_count >= 1,
{
    let i = m.slug_position(slug);
    let a = m.articles[i];
    m.lemma_article_at(i);
    if m.favorited(user, a.id) {
        let pair = (user, a.id);
        let at = m.favorites.index_of(pair);
        let favorites = without_pair(m.favorites, pair);
        lemma_without_pair(m.favorites, pair);
        assert forall|id: i32| true implies #[trigger] count_for(favorites, id) == count_for(
            m.favorites,
            id,
        ) - (if id == a.id {
            1nat
        } else {
            0nat
        }) by {
            lemma_count_remove(m.favorites, at, id);
        }
        assert(count_for(favorites, a.id) >= 0);
        assert forall|k: int| 0 <= k < favorites.len() implies m.has_user(
            (#[trigger] favorites[k]).0,
        ) && m.has_article(favorites[k].1) by {
            let f = favorites[k];
            assert(m.favorites.contains(f));
            let j = m.favorites.index_of(f);
            assert(m.favorites[j] == f);
        }
        lemma_replace_keeps_wf(m, i, with_count(a, a.favorites_count - 1), favorites);
    }
}

/// Taking an article away with its comments and favorites leaves a well-formed store
/// well-formed.
pub proof fn lemma_delete_keeps_wf(m: ConnModel, i: int)
    requires
        m.wf(),
        0 <= i < m.articles.len(),
    ensures
        without_article(m, i).wf(),
        !without_article(m, i).has_article(m.articles[i].id),
        !without_article(m, i).has_slug(m.articles[i].slug),
{
    let after = without_article(m, i);
    let gone = m.articles[i].id;
    m.lemma_same_users(after);
    assert forall|k: int| 0 <= k < after.articles.len() implies #[trigger] after.articles[k]
        == m.articles[if k < i {
        k
    } else {
        k + 1
    }] by {}
    assert forall|id: i32| id != gone && m.has_article(id) implies after.has_article(id) by {
        let k = choose|k: int| 0 <= k < m.articles.len() && (#[trigger] m.articles[k]).id == id;
        let j = if k < i { k } else { k - 1 };
        assert(after.articles[j].id == id);
    }
    assert(!after.has_article(gone)) by {
        if after.has_article(gone) {
            let k = choose|k: int|
                0 <= k < after.articles.len() && (#[trigger] after.articles[k]).id == gone;
            let j = if k < i { k } else { k + 1 };
            assert(m.articles[j].id == gone);
            if j < i {
                assert(m.articles[j].id != m.articles[i].id);
            } else {
                assert(m.articles[i].id != m.articles[j].id);
            }
        }
    }
    assert(!after.has_slug(m.articles[i].slug)) by {
        if after.has_slug(m.articles[i].slug) {
            let k = choose|k: int|
                0 <= k < after.articles.len() && (#[trigger] after.articles[k]).slug
                    == m.articles[i].slug;
            let j = if k < i { k } else { k + 1 };
            assert(m.articles[j].slug == m.articles[i].slug);
            if j < i {
                assert(m.articles[j].slug != m.articles[i].slug);
            } else {
                assert(m.articles[i].slug != m.articles[j].slug);
            }
        }
    }
    let fav_from = lemma_filter_kept(m.favorites, not_for(gone));
    let com_from = lemma_filter_kept(m.comments, not_on(gone));
    assert(after.articles_wf()) by {
        assert forall|k: int| 0 <= k < after.articles.len() implies {
            let x = #[trigger] after.articles[k];
            &&& 1 <= x.id < after.next_article_id
            &&& after.has_user(x.author)
            &&& x.favorites_count == after.favorites_of(x.id)
        } by {
            let j = if k < i { k } else { k + 1 };
            assert(after.articles[k] == m.articles[j]);
            assert(m.has_user(m.articles[j].author));
            if j < i {
                assert(m.articles[j].id != m.articles[i].id);
            } else {
                assert(m.articles[i].id != m.articles[j].id);
            }
            lemma_count_after_drop(m.favorites, gone, m.articles[j].id);
        }
        assert forall|x: int, y: int| 0 <= x < y < after.articles.len() implies {
            let p = #[trigger] after.articles[x];
            let q = #[trigger] after.articles[y];
            &&& p.id != q.id
            &&& p.slug != q.slug
            &&& p.created_at >= q.created_at
        } by {
            let ox = if x < i { x } else { x + 1 };
            let oy = if y < i { y } else { y + 1 };
            assert(m.articles[ox].id != m.articles[oy].id);
        }
    }
    assert(after.comments_wf()) by {
        assert forall|k: int| 0 <= k < after.comments.len() implies {
            let c = #[trigger] after.comments[k];
            &&& 1 <= c.id < after.next_comment_id
            &&& after.has_article(c.article)
            &&& after.has_user(c.author)
        } by {
            let c = m.comments[com_from[k]];
            assert(after.comments[k] == c);
            assert(m.has_article(c.article));
        }
        assert forall|x: int, y: int| 0 <= x < y < after.comments.len() implies (
        #[trigger] after.comments[x]).id != (#[trigger] after.comments[y]).id by {
            assert(com_from[x] < com_from[y]);
            assert(m.comments[com_from[x]].id != m.comments[com_from[y]].id);
        }
    }
    assert(after.links_wf()) by {
        assert forall|x: int, y: int|
            0 <= x < after.favorites.len() && 0 <= y < after.favorites.len() && x
                != y implies after.favorites[x] != after.favorites[y] by {
            if x < y {
                assert(fav_from[x] < fav_from[y]);
            } else {
                assert(fav_from[y] < fav_from[x]);
            }
            assert(m.favorites[fav_from[x]] != m.favorites[fav_from[y]]);
        }
        assert forall|k: int| 0 <= k < after.favorites.len() implies {
            let f = #[trigger] after.favorites[k];
            after.has_user(f.0) && after.has_article(f.1)
        } by {
            let f = m.favorites[fav_from[k]];
            assert(after.favorites[k] == f);
            assert(m.has_user(f.0) && m.has_article(f.1));
        }
    }
}

/// One more text of the list adds itself to the tags found.
pub proof fn lemma_tag_among_next(list: Seq<Seq<char>>, upto: int, tag: Seq<char>)
    requires
        0 <= upto < list.len(),
    ensures
        tag_among(list, upto + 1, tag) <==> tag_among(list, upto, tag) || tag == list[upto],
{
    if tag == list[upto] {
        assert(list[upto] == tag);
    }
}

/// One more article adds its tags to the tags found.
pub proof fn lemma_tag_in_next(articles: Seq<ArticleModel>, upto: int, tag: Seq<char>)
    requires
        0 <= upto < articles.len(),
    ensures
        tag_in(articles, upto + 1, tag) <==> tag_in(articles, upto, tag) || tag_among(
            articles[upto].tag_list,
            articles[upto].tag_list.len() as int,
            tag,
        ),
{
    let here = tag_among(articles[upto].tag_list, articles[upto].tag_list.len() as int, tag);
    if here {
        assert(tag_among(
            (#[trigger] articles[upto]).tag_list,
            articles[upto].tag_list.len() as int,
            tag,
        ));
    }
}

} // verus!
