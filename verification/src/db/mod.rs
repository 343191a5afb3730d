//! The store of record and what every query relies on: the tables, the rules that hold
//! between them, and lookups by key.

pub mod article_proofs;
pub mod articles;
pub mod check;
pub mod comments;
pub mod pagination;
pub mod profiles;
pub mod seqs;
pub mod users;

use vstd::prelude::*;
use crate::db::seqs::{count_for, lemma_filter_kept, names_article};
use crate::models::article::{Article, ArticleModel};
use crate::models::comment::{Comment, CommentModel};
use crate::models::user::{User, UserModel};

verus! {

/// The views of a sequence of values.
pub open spec fn views<T: View>(items: Seq<T>) -> Seq<T::V> {
    items.map_values(|item: T| item@)
}

/// A session on the store. It holds the five tables; every operation of the query layer
/// takes it explicitly.
pub struct Conn {
    pub users: Vec<User>,
    /// Most recent first; among articles of one instant, the one created first comes first.
    pub articles: Vec<Article>,
    pub comments: Vec<Comment>,
    /// Pairs of a user and an article that the user has favorited.
    pub favorites: Vec<(i32, i32)>,
    /// Pairs of a follower and the user followed.
    pub follows: Vec<(i32, i32)>,
    pub next_user_id: i32,
    pub next_article_id: i32,
    pub next_comment_id: i32,
    /// Whether new slugs get a random suffix.
    pub random_suffix: bool,
}

/// Mathematical value of a [`Conn`].
pub ghost struct ConnModel {
    pub users: Seq<UserModel>,
    pub articles: Seq<ArticleModel>,
    pub comments: Seq<CommentModel>,
    pub favorites: Seq<(i32, i32)>,
    pub follows: Seq<(i32, i32)>,
    pub next_user_id: i32,
    pub next_article_id: i32,
    pub next_comment_id: i32,
    pub random_suffix: bool,
}

impl View for Conn {
    type V = ConnModel;

    open spec fn view(&self) -> ConnModel {
        ConnModel {
            users: views(self.users@),
            articles: views(self.articles@),
            comments: views(self.comments@),
            favorites: self.favorites@,
            follows: self.follows@,
            next_user_id: self.next_user_id,
            next_article_id: self.next_article_id,
            next_comment_id: self.next_comment_id,
            random_suffix: self.random_suffix,
        }
    }
}

impl ConnModel {
    /// Whether a user has the identifier `id`.
    pub open spec fn has_user(self, id: i32) -> bool {
        exists|i: int| 0 <= i < self.users.len() && (#[trigger] self.users[i]).id == id
    }

    /// Where the user with the identifier `id` stands.
    pub open spec fn user_position(self, id: i32) -> int {
        choose|i: int| 0 <= i < self.users.len() && (#[trigger] self.users[i]).id == id
    }

    /// The user with the identifier `id`.
    pub open spec fn user(self, id: i32) -> UserModel {
        self.users[self.user_position(id)]
    }

    /// Whether a user is called `name`.
    pub open spec fn has_username(self, name: Seq<char>) -> bool {
        exists|i: int| 0 <= i < self.users.len() && (#[trigger] self.users[i]).username == name
    }

    /// Where the user called `name` stands.
    pub open spec fn username_position(self, name: Seq<char>) -> int {
        choose|i: int| 0 <= i < self.users.len() && (#[trigger] self.users[i]).username == name
    }

    /// The user called `name`.
    pub open spec fn user_named(self, name: Seq<char>) -> UserModel {
        self.users[self.username_position(name)]
    }

    /// Whether a user has the address `email`.
    pub open spec fn has_email(self, email: Seq<char>) -> bool {
        exists|i: int| 0 <= i < self.users.len() && (#[trigger] self.users[i]).email == email
    }

    /// Where the user with the address `email` stands.
    pub open spec fn email_position(self, email: Seq<char>) -> int {
        choose|i: int| 0 <= i < self.users.len() && (#[trigger] self.users[i]).email == email
    }

    /// The user with the address `email`.
    pub open spec fn user_with_email(self, email: Seq<char>) -> UserModel {
        self.users[self.email_position(email)]
    }

    /// Whether an article has the identifier `id`.
    pub open spec fn has_article(self, id: i32) -> bool {
        exists|i: int| 0 <= i < self.articles.len() && (#[trigger] self.articles[i]).id == id
    }

    /// Whether an article has the slug `slug`.
    pub open spec fn has_slug(self, slug: Seq<char>) -> bool {
        exists|i: int| 0 <= i < self.articles.len() && (#[trigger] self.articles[i]).slug == slug
    }

    /// Where the article with the slug `slug` stands.
    pub open spec fn slug_position(self, slug: Seq<char>) -> int {
        choose|i: int| 0 <= i < self.articles.len() && (#[trigger] self.articles[i]).slug == slug
    }

    /// The article with the slug `slug`.
    pub open spec fn article_with_slug(self, slug: Seq<char>) -> ArticleModel {
        self.articles[self.slug_position(slug)]
    }

    /// Whether a comment has the identifier `id`.
    pub open spec fn has_comment(self, id: i32) -> bool {
        exists|i: int| 0 <= i < self.comments.len() && (#[trigger] self.comments[i]).id == id
    }

    /// Where the comment with the identifier `id` stands.
    pub open spec fn comment_position(self, id: i32) -> int {
        choose|i: int| 0 <= i < self.comments.len() && (#[trigger] self.comments[i]).id == id
    }

    /// The comment with the identifier `id`.
    pub open spec fn comment(self, id: i32) -> CommentModel {
        self.comments[self.comment_position(id)]
    }

    /// Whether `user` has favorited `article`.
    pub open spec fn favorited(self, user: i32, article: i32) -> bool {
        self.favorites.contains((user, article))
    }

    /// Whether `follower` follows `followed`.
    pub open spec fn following(self, follower: i32, followed: i32) -> bool {
        self.follows.contains((follower, followed))
    }

    /// How many users have favorited `article`.
    pub open spec fn favorites_of(self, article: i32) -> nat {
        count_for(self.favorites, article)
    }

    /// The rules on the user table: identifiers, names and addresses each name one user.
    pub open spec fn users_wf(self) -> bool {
        &&& 1 <= self.next_user_id
        &&& self.users.len() < self.next_user_id
        &&& forall|i: int|
            0 <= i < self.users.len() ==> 1 <= (#[trigger] self.users[i]).id < self.next_user_id
        &&& forall|i: int, j: int|
            0 <= i < j < self.users.len() ==> (#[trigger] self.users[i]).id != (
            #[trigger] self.users[j]).id
        &&& forall|i: int, j: int|
            0 <= i < j < self.users.len() ==> (#[trigger] self.users[i]).username != (
            #[trigger] self.users[j]).username
        &&& forall|i: int, j: int|
            0 <= i < j < self.users.len() ==> (#[trigger] self.users[i]).email != (
            #[trigger] self.users[j]).email
    }

    /// The rules on the article table: identifiers and slugs each name one article, every
    /// author is a user, the favorite counter matches the favorite table, and the
    /// articles stand most recent first.
    pub open spec fn articles_wf(self) -> bool {
        &&& 1 <= self.next_article_id
        &&& self.articles.len() < self.next_article_id
        &&& forall|i: int|
            0 <= i < self.articles.len() ==> {
                let a = #[trigger] self.articles[i];
                &&& 1 <= a.id < self.next_article_id
                &&& self.has_user(a.author)
                &&& a.favorites_count == self.favorites_of(a.id)
            }
        &&& forall|i: int, j: int|
            0 <= i < j < self.articles.len() ==> {
                let a = #[trigger] self.articles[i];
                let b = #[trigger] self.articles[j];
                &&& a.id != b.id
                &&& a.slug != b.slug
                &&& a.created_at >= b.created_at
            }
    }

    /// The rules on the comment table: identifiers each name one comment, and every
    /// comment belongs to an article and to a user.
    pub open spec fn comments_wf(self) -> bool {
        &&& 1 <= self.next_comment_id
        &&& self.comments.len() < self.next_comment_id
        &&& forall|i: int|
            0 <= i < self.comments.len() ==> {
                let c = #[trigger] self.comments[i];
                &&& 1 <= c.id < self.next_comment_id
                &&& self.has_article(c.article)
                &&& self.has_user(c.author)
            }
        &&& forall|i: int, j: int|
            0 <= i < j < self.comments.len() ==> (#[trigger] self.comments[i]).id != (
            #[trigger] self.comments[j]).id
    }

    /// The rules on the favorite and follow tables: no pair stands twice, and every pair
    /// names rows that exist.
    pub open spec fn links_wf(self) -> bool {
        &&& self.favorites.no_duplicates()
        &&& forall|i: int|
            0 <= i < self.favorites.len() ==> {
                let f = #[trigger] self.favorites[i];
                self.has_user(f.0) && self.has_article(f.1)
            }
        &&& self.follows.no_duplicates()
        &&& forall|i: int|
            0 <= i < self.follows.len() ==> {
                let f = #[trigger] self.follows[i];
                self.has_user(f.0) && self.has_user(f.1)
            }
    }

    /// Everything that holds of a store between two operations.
    pub open spec fn wf(self) -> bool {
        &&& self.users_wf()
        &&& self.articles_wf()
        &&& self.comments_wf()
        &&& self.links_wf()
    }

    /// In a well-formed store the user at `i` is the one its identifier, name and address
    /// name.
    pub proof fn lemma_user_at(self, i: int)
        requires
            self.users_wf(),
            0 <= i < self.users.len(),
        ensures
            self.has_user(self.users[i].id),
            self.user_position(self.users[i].id) == i,
            self.has_username(self.users[i].username),
            self.username_position(self.users[i].username) == i,
            self.has_email(self.users[i].email),
            self.email_position(self.users[i].email) == i,
    {
        let u = self.users[i];
        let a = self.user_position(u.id);
        assert(a == i) by {
            if a < i {
                assert(self.users[a].id != self.users[i].id);
            } else if i < a {
                assert(self.users[i].id != self.users[a].id);
            }
        }
        let b = self.username_position(u.username);
        assert(b == i) by {
            if b < i {
                assert(self.users[b].username != self.users[i].username);
            } else if i < b {
                assert(self.users[i].username != self.users[b].username);
            }
        }
        let c = self.email_position(u.email);
        assert(c == i) by {
            if c < i {
                assert(self.users[c].email != self.users[i].email);
            } else if i < c {
                assert(self.users[i].email != self.users[c].email);
            }
        }
    }

    /// Users that keep their place and identifier from `self` to `later` stay known.
    pub proof fn lemma_users_kept(self, later: ConnModel)
        requires
            self.users.len() <= later.users.len(),
            forall|i: int|
                0 <= i < self.users.len() ==> (#[trigger] later.users[i]).id == self.users[i].id,
        ensures
            forall|id: i32| self.has_user(id) ==> later.has_user(id),
    {
        assert forall|id: i32| self.has_user(id) implies later.has_user(id) by {
            let k = choose|k: int| 0 <= k < self.users.len() && (#[trigger] self.users[k]).id == id;
            assert(later.users[k].id == id);
        }
    }

    /// Articles whose identifiers all stand in `later` stay known there.
    pub proof fn lemma_articles_kept(self, later: ConnModel)
        requires
            forall|i: int|
                0 <= i < self.articles.len() ==> later.has_article(
                    (#[trigger] self.articles[i]).id,
                ),
        ensures
            forall|id: i32| self.has_article(id) ==> later.has_article(id),
    {
        assert forall|id: i32| self.has_article(id) implies later.has_article(id) by {
            let k = choose|k: int|
                0 <= k < self.articles.len() && (#[trigger] self.articles[k]).id == id;
            assert(later.has_article(self.articles[k].id));
        }
    }

    /// No article is favorited by more users than there are: the counter of a
    /// well-formed store stays below the largest number it can hold.
    pub proof fn lemma_count_bounded(self, article: i32)
        requires
            self.users_wf(),
            self.links_wf(),
        ensures
            self.favorites_of(article) <= self.users.len(),
            self.favorites_of(article) < i32::MAX,
    {
        let kept = self.favorites.filter(names_article(article));
        let from = lemma_filter_kept(self.favorites, names_article(article));
        let fans = kept.map_values(|f: (i32, i32)| f.0);
        let ids = self.users.map_values(|u: UserModel| u.id);
        assert forall|i: int, j: int| 0 <= i < fans.len() && 0 <= j < fans.len() && i
            != j implies fans[i] != fans[j] by {
            if i < j {
                assert(from[i] < from[j]);
            } else {
                assert(from[j] < from[i]);
            }
            assert(self.favorites[from[i]] != self.favorites[from[j]]);
            assert(kept[i].1 == article && kept[j].1 == article);
        }
        fans.unique_seq_to_set();
        ids.lemma_cardinality_of_set();
        vstd::seq_lib::seq_to_set_is_finite(ids);
        assert(fans.to_set().subset_of(ids.to_set())) by {
            assert forall|id: i32| fans.to_set().contains(id) implies ids.to_set().contains(id) by {
                let i = choose|i: int| 0 <= i < fans.len() && fans[i] == id;
                assert(self.favorites[from[i]] == kept[i]);
                assert(self.has_user(self.favorites[from[i]].0));
                let k = choose|k: int|
                    0 <= k < self.users.len() && (#[trigger] self.users[k]).id == id;
                assert(ids[k] == id);
            }
        }
        vstd::set_lib::lemma_len_subset(fans.to_set(), ids.to_set());
    }

    /// Two stores with the same users know the same identifiers of users.
    pub proof fn lemma_same_users(self, later: ConnModel)
        requires
            later.users == self.users,
        ensures
            forall|id: i32| self.has_user(id) == later.has_user(id),
    {
    }

    /// Two stores with the same articles know the same identifiers of articles.
    pub proof fn lemma_same_articles(self, later: ConnModel)
        requires
            later.articles == self.articles,
        ensures
            forall|id: i32| self.has_article(id) == later.has_article(id),
    {
    }

    /// In a well-formed store the article at `i` is the one its slug names.
    pub proof fn lemma_article_at(self, i: int)
        requires
            self.articles_wf(),
            0 <= i < self.articles.len(),
        ensures
            self.has_article(self.articles[i].id),
            self.has_slug(self.articles[i].slug),
            self.slug_position(self.articles[i].slug) == i,
    {
        let s = self.articles[i].slug;
        let a = self.slug_position(s);
        assert(a == i) by {
            if a < i {
                assert(self.articles[a].slug != self.articles[i].slug);
            } else if i < a {
                assert(self.articles[i].slug != self.articles[a].slug);
            }
        }
    }

    /// In a well-formed store the comment at `i` is the one its identifier names.
    pub proof fn lemma_comment_at(self, i: int)
        requires
            self.comments_wf(),
            0 <= i < self.comments.len(),
        ensures
            self.has_comment(self.comments[i].id),
            self.comment_position(self.comments[i].id) == i,
    {
        let id = self.comments[i].id;
        let a = self.comment_position(id);
        assert(a == i) by {
            if a < i {
                assert(self.comments[a].id != self.comments[i].id);
            } else if i < a {
                assert(self.comments[i].id != self.comments[a].id);
            }
        }
    }
}

impl Conn {
    /// Whether the tables obey the rules of the store.
    pub open spec fn wf(&self) -> bool {
        self@.wf()
    }

    /// An empty store.
    pub fn new(random_suffix: bool) -> (conn: Conn)
        ensures
            conn.wf(),
            conn@.users.len() == 0,
            conn@.articles.len() == 0,
            conn@.comments.len() == 0,
            conn@.favorites.len() == 0,
            conn@.follows.len() == 0,
            conn@.random_suffix == random_suffix,
    {
        let conn = Conn {
            users: Vec::new(),
            articles: Vec::new(),
            comments: Vec::new(),
            favorites: Vec::new(),
            follows: Vec::new(),
            next_user_id: 1,
            next_article_id: 1,
            next_comment_id: 1,
            random_suffix,
        };
        conn
    }

    /// Position of the user with the identifier `id`.
    pub fn user_index(&self, id: i32) -> (r: Option<usize>)
        ensures
            r is Some <==> self@.has_user(id),
            r matches Some(i) ==> i < self.users.len() && self@.users[i as int].id == id,
    {
        let mut i: usize = 0;
        while i < self.users.len()
            invariant
                i <= self.users.len(),
                forall|k: int| 0 <= k < i ==> (#[trigger] self@.users[k]).id != id,
            decreases self.users.len() - i,
        {
            if self.users[i].id == id {
                assert(self@.users[i as int].id == id);
                return Some(i);
            }
            i += 1;
        }
        None
    }

    /// Position of the user called `name`.
    pub fn username_index(&self, name: &String) -> (r: Option<usize>)
        ensures
            r is Some <==> self@.has_username(name@),
            r matches Some(i) ==> i < self.users.len() && self@.users[i as int].username == name@,
    {
        let mut i: usize = 0;
        while i < self.users.len()
            invariant
                i <= self.users.len(),
                forall|k: int| 0 <= k < i ==> (#[trigger] self@.users[k]).username != name@,
            decreases self.users.len() - i,
        {
            if self.users[i].username == *name {
                assert(self@.users[i as int].username == name@);
                return Some(i);
            }
            i += 1;
        }
        None
    }

    /// Position of the user with the address `email`.
    pub fn email_index(&self, email: &String) -> (r: Option<usize>)
        ensures
            r is Some <==> self@.has_email(email@),
            r matches Some(i) ==> i < self.users.len() && self@.users[i as int].email == email@,
    {
        let mut i: usize = 0;
        while i < self.users.len()
            invariant
                i <= self.users.len(),
                forall|k: int| 0 <= k < i ==> (#[trigger] self@.users[k]).email != email@,
            decreases self.users.len() - i,
        {
            if self.users[i].email == *email {
                assert(self@.users[i as int].email == email@);
                return Some(i);
            }
            i += 1;
        }
        None
    }

    /// Position of the article with the slug `slug`.
    pub fn slug_index(&self, slug: &String) -> (r: Option<usize>)
        ensures
            r is Some <==> self@.has_slug(slug@),
            r matches Some(i) ==> i < self.articles.len() && self@.articles[i as int].slug == slug@,
    {
        let mut i: usize = 0;
        while i < self.articles.len()
            invariant
                i <= self.articles.len(),
                forall|k: int| 0 <= k < i ==> (#[trigger] self@.articles[k]).slug != slug@,
            decreases self.articles.len() - i,
        {
            if self.articles[i].slug == *slug {
                assert(self@.articles[i as int].slug == slug@);
                return Some(i);
            }
            i += 1;
        }
        None
    }

    /// Position of the comment with the identifier `id`.
    pub fn comment_index(&self, id: i32) -> (r: Option<usize>)
        ensures
            r is Some <==> self@.has_comment(id),
            r matches Some(i) ==> i < self.comments.len() && self@.comments[i as int].id == id,
    {
        let mut i: usize = 0;
        while i < self.comments.len()
            invariant
                i <= self.comments.len(),
                forall|k: int| 0 <= k < i ==> (#[trigger] self@.comments[k]).id != id,
            decreases self.comments.len() - i,
        {
            if self.comments[i].id == id {
                assert(self@.comments[i as int].id == id);
                return Some(i);
            }
            i += 1;
        }
        None
    }
}

} // verus!
