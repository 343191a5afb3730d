//! Testing at run time whether a store obeys its rules, for callers that the verifier
//! does not see.

use vstd::prelude::*;
use crate::db::seqs::{count_for, names_article, pair_index};
use crate::db::Conn;

verus! {

/// How many of the pairs in `pairs` name `article`.
pub fn count_pairs(pairs: &Vec<(i32, i32)>, article: i32) -> (n: usize)
    ensures
        n == count_for(pairs@, article),
{
    let mut n: usize = 0;
    let mut k: usize = 0;
    assert(pairs@.take(0) =~= Seq::<(i32, i32)>::empty());
    while k < pairs.len()
        invariant
            k <= pairs.len(),
            n <= k,
            n == count_for(pairs@.take(k as int), article),
        decreases pairs.len() - k,
    {
        proof {
            let next = pairs@.take(k + 1);
            assert(next.drop_last() =~= pairs@.take(k as int));
            assert(next.last() == pairs@[k as int]);
            reveal(Seq::filter);
        }
        if pairs[k].1 == article {
            n += 1;
        }
        k += 1;
    }
    assert(pairs@.take(k as int) =~= pairs@);
    n
}

/// Whether no pair stands twice in `pairs`.
pub fn pairs_distinct(pairs: &Vec<(i32, i32)>) -> (b: bool)
    ensures
        b == pairs@.no_duplicates(),
{
    let mut i: usize = 0;
    while i < pairs.len()
        invariant
            i <= pairs.len(),
            forall|a: int, b: int| 0 <= a < i && 0 <= b < i && a != b ==> pairs@[a] != pairs@[b],
        decreases pairs.len() - i,
    {
        let mut j: usize = 0;
        while j < i
            invariant
                j <= i < pairs.len(),
                forall|a: int| 0 <= a < j ==> pairs@[a] != pairs@[i as int],
            decreases i - j,
        {
            if pairs[j].0 == pairs[i].0 && pairs[j].1 == pairs[i].1 {
                assert(pairs@[j as int] == pairs@[i as int]);
                return false;
            }
            j += 1;
        }
        i += 1;
    }
    true
}

impl Conn {
    /// Position of the article with the identifier `id`.
    pub fn article_index(&self, id: i32) -> (r: Option<usize>)
        ensures
            r is Some <==> self@.has_article(id),
            r matches Some(i) ==> i < self.articles.len() && self@.articles[i as int].id == id,
    {
        let mut i: usize = 0;
        while i < self.articles.len()
            invariant
                i <= self.articles.len(),
                forall|k: int| 0 <= k < i ==> (#[trigger] self@.articles[k]).id != id,
            decreases self.articles.len() - i,
        {
            if self.articles[i].id == id {
                assert(self@.articles[i as int].id == id);
                return Some(i);
            }
            i += 1;
        }
        None
    }

    /// Whether the user table obeys its rules.
    pub fn users_ok(&self) -> (b: bool)
        ensures
            b == self@.users_wf(),
    {
        let ghost m = self@;
        if self.next_user_id < 1 || self.users.len() >= self.next_user_id as usize {
            return false;
        }
        let mut i: usize = 0;
        while i < self.users.len()
            invariant
                i <= self.users.len(),
                m == self@,
                1 <= m.next_user_id,
                m.users.len() < m.next_user_id,
                forall|a: int| 0 <= a < i ==> 1 <= (#[trigger] m.users[a]).id < m.next_user_id,
                forall|a: int, b: int|
                    0 <= a < b < i ==> (#[trigger] m.users[a]).id != (#[trigger] m.users[b]).id,
                forall|a: int, b: int|
                    0 <= a < b < i ==> (#[trigger] m.users[a]).username != (
                    #[trigger] m.users[b]).username,
                forall|a: int, b: int|
                    0 <= a < b < i ==> (#[trigger] m.users[a]).email != (
                    #[trigger] m.users[b]).email,
            decreases self.users.len() - i,
        {
            let u = &self.users[i];
            assert(u@ == m.users[i as int]);
            if u.id < 1 || u.id >= self.next_user_id {
                return false;
            }
            let mut j: usize = 0;
            while j < i
                invariant
                    j <= i < self.users.len(),
                    m == self@,
                    u@ == m.users[i as int],
                    forall|a: int| 0 <= a < j ==> (#[trigger] m.users[a]).id != u@.id,
                    forall|a: int| 0 <= a < j ==> (#[trigger] m.users[a]).username != u@.username,
                    forall|a: int| 0 <= a < j ==> (#[trigger] m.users[a]).email != u@.email,
                decreases i - j,
            {
                let v = &self.users[j];
                assert(v@ == m.users[j as int]);
                if v.id == u.id || v.username == u.username || v.email == u.email {
                    return false;
                }
                j += 1;
            }
            i += 1;
        }
        true
    }

    /// Whether the article table obeys its rules.
    pub fn articles_ok(&self) -> (b: bool)
        ensures
            b == self@.articles_wf(),
    {
        let ghost m = self@;
        if self.next_article_id < 1 || self.articles.len() >= self.next_article_id as usize {
            return false;
        }
        let mut i: usize = 0;
        while i < self.articles.len()
            invariant
                i <= self.articles.len(),
                m == self@,
                1 <= m.next_article_id,
                m.articles.len() < m.next_article_id,
                forall|k: int|
                    0 <= k < i ==> {
                        let a = #[trigger] m.articles[k];
                        &&& 1 <= a.id < m.next_article_id
                        &&& m.has_user(a.author)
                        &&& a.favorites_count == m.favorites_of(a.id)
                    },
                forall|x: int, y: int|
                    0 <= x < y < i ==> {
                        let a = #[trigger] m.articles[x];
                        let b = #[trigger] m.articles[y];
                        &&& a.id != b.id
                        &&& a.slug != b.slug
                        &&& a.created_at >= b.created_at
                    },
            decreases self.articles.len() - i,
        {
            let a = &self.articles[i];
            assert(a@ == m.articles[i as int]);
            if a.id < 1 || a.id >= self.next_article_id {
                return false;
            }
            if self.user_index(a.author).is_none() {
                return false;
            }
            let count = count_pairs(&self.favorites, a.id);
            if a.favorites_count < 0 || a.favorites_count as usize != count {
                return false;
            }
            let mut j: usize = 0;
            while j < i
                invariant
                    j <= i < self.articles.len(),
                    m == self@,
                    a@ == m.articles[i as int],
                    forall|x: int|
                        0 <= x < j ==> {
                            let b = #[trigger] m.articles[x];
                            &&& b.id != a@.id
                            &&& b.slug != a@.slug
                            &&& b.created_at >= a@.created_at
                        },
                decreases i - j,
            {
                let b = &self.articles[j];
                assert(b@ == m.articles[j as int]);
                if b.id == a.id || b.slug == a.slug || b.created_at.is_before(&a.created_at) {
                    return false;
                }
                j += 1;
            }
            i += 1;
        }
        true
    }

    /// Whether the comment table obeys its rules.
    pub fn comments_ok(&self) -> (b: bool)
        ensures
            b == self@.comments_wf(),
    {
        let ghost m = self@;
        if self.next_comment_id < 1 || self.comments.len() >= self.next_comment_id as usize {
            return false;
        }
        let mut i: usize = 0;
        while i < self.comments.len()
            invariant
                i <= self.comments.len(),
                m == self@,
                1 <= m.next_comment_id,
                m.comments.len() < m.next_comment_id,
                forall|k: int|
                    0 <= k < i ==> {
                        let c = #[trigger] m.comments[k];
                        &&& 1 <= c.id < m.next_comment_id
                        &&& m.has_article(c.article)
                        &&& m.has_user(c.author)
                    },
                forall|x: int, y: int|
                    0 <= x < y < i ==> (#[trigger] m.comments[x]).id != (
                    #[trigger] m.comments[y]).id,
            decreases self.comments.len() - i,
        {
            let c = &self.comments[i];
            assert(c@ == m.comments[i as int]);
            if c.id < 1 || c.id >= self.next_comment_id {
                return false;
            }
            if self.article_index(c.article).is_none() || self.user_index(c.author).is_none() {
                return false;
            }
            let mut j: usize = 0;
            while j < i
                invariant
                    j <= i < self.comments.len(),
                    m == self@,
                    c@ == m.comments[i as int],
                    forall|x: int| 0 <= x < j ==> (#[trigger] m.comments[x]).id != c@.id,
                decreases i - j,
            {
                if self.comments[j].id == c.id {
                    assert(m.comments[j as int].id == m.comments[i as int].id);
                    return false;
                }
                j += 1;
            }
            i += 1;
        }
        true
    }

    /// Whether the favorite and follow tables obey their rules.
    pub fn links_ok(&self) -> (b: bool)
        ensures
            b == self@.links_wf(),
    {
        let ghost m = self@;
        if !pairs_distinct(&self.favorites) || !pairs_distinct(&self.follows) {
            return false;
        }
        let mut i: usize = 0;
        while i < self.favorites.len()
            invariant
                i <= self.favorites.len(),
                m == self@,
                forall|k: int|
                    0 <= k < i ==> {
                        let f = #[trigger] m.favorites[k];
                        m.has_user(f.0) && m.has_article(f.1)
                    },
            decreases self.favorites.len() - i,
        {
            let f = self.favorites[i];
            assert(f == m.favorites[i as int]);
            if self.user_index(f.0).is_none() || self.article_index(f.1).is_none() {
                return false;
            }
            i += 1;
        }
        let mut i: usize = 0;
        while i < self.follows.len()
            invariant
                i <= self.follows.len(),
                m == self@,
                m.favorites.no_duplicates(),
                m.follows.no_duplicates(),
                forall|k: int|
                    0 <= k < m.favorites.len() ==> {
                        let f = #[trigger] m.favorites[k];
                        m.has_user(f.0) && m.has_article(f.1)
                    },
                forall|k: int|
                    0 <= k < i ==> {
                        let f = #[trigger] m.follows[k];
                        m.has_user(f.0) && m.has_user(f.1)
                    },
            decreases self.follows.len() - i,
        {
            let f = self.follows[i];
            assert(f == m.follows[i as int]);
            if self.user_index(f.0).is_none() || self.user_index(f.1).is_none() {
                return false;
            }
            i += 1;
        }
        true
    }

    /// Whether the store obeys all its rules: what every operation asks of the store it is
    /// handed, and leaves behind.
    pub fn is_well_formed(&self) -> (b: bool)
        ensures
            b == self.wf(),
    {
        self.users_ok() && self.articles_ok() && self.comments_ok() && self.links_ok()
    }
}

} // verus!
