//! Profiles and the follow graph.

use vstd::prelude::*;
use crate::db::articles::feed_filter;
use crate::db::users::{profile_for, to_profile_for};
use crate::db::seqs::{lemma_without_pair, pair_index, without_pair};
use crate::db::{Conn, ConnModel};
use crate::models::user::{profile_of, Profile, User};

verus! {

/// The profile of the user called `name`, as the viewer `user_id` sees it.
pub fn find(conn: &Conn, name: &str, user_id: Option<i32>) -> (r: Option<Profile>)
    requires
        conn.wf(),
    ensures
        r is Some <==> conn@.has_username(name@),
        r matches Some(p) ==> p@ == profile_for(conn@, conn@.user_named(name@), user_id),
{
    let name = name.to_owned();
    match conn.username_index(&name) {
        Some(i) => {
            proof {
                conn@.lemma_user_at(i as int);
            }
            Some(to_profile_for(conn, &conn.users[i], user_id))
        },
        None => None,
    }
}

/// Whether the user `user_id` follows `user`.
pub fn is_following(conn: &Conn, user: &User, user_id: i32) -> (b: bool)
    ensures
        b == conn@.following(user_id, user@.id),
{
    pair_index(&conn.follows, (user_id, user.id)).is_some()
}

/// Whether `follower_id` can start to follow the user called `name`: both are users, and
/// the one does not follow the other yet.
pub open spec fn can_follow(m: ConnModel, name: Seq<char>, follower_id: i32) -> bool {
    &&& m.has_username(name)
    &&& m.has_user(follower_id)
    &&& !m.following(follower_id, m.user_named(name).id)
}

/// The store `m` after `follower` began to follow `followed`.
pub open spec fn with_follow(m: ConnModel, follower: i32, followed: i32) -> ConnModel {
    ConnModel { follows: m.follows.push((follower, followed)), ..m }
}

/// The store `m` after `follower` ceased to follow `followed`.
pub open spec fn without_follow(m: ConnModel, follower: i32, followed: i32) -> ConnModel {
    ConnModel { follows: without_pair(m.follows, (follower, followed)), ..m }
}

/// Makes `follower_id` follow the user called `followed_name`. Nothing changes, and `None`
/// is returned, where either is unknown or the one follows the other already.
pub fn follow(conn: &mut Conn, followed_name: &str, follower_id: i32) -> (r: Option<Profile>)
    requires
        old(conn).wf(),
    ensures
        final(conn).wf(),
        r is Some <==> can_follow(old(conn)@, followed_name@, follower_id),
        r is None ==> final(conn)@ == old(conn)@,
        r matches Some(p) ==> {
            let followed = old(conn)@.user_named(followed_name@);
            &&& p@ == profile_of(followed, true)
            &&& final(conn)@ == with_follow(old(conn)@, follower_id, followed.id)
        },
{
    let name = followed_name.to_owned();
    let i = match conn.username_index(&name) {
        Some(i) => i,
        None => {
            return None;
        },
    };
    proof {
        conn@.lemma_user_at(i as int);
    }
    if conn.user_index(follower_id).is_none() {
        return None;
    }
    let followed_id = conn.users[i].id;
    if pair_index(&conn.follows, (follower_id, followed_id)).is_some() {
        return None;
    }
    conn.follows.push((follower_id, followed_id));
    proof {
        let before = old(conn)@;
        let after = conn@;
        assert(after.follows =~= before.follows.push((follower_id, followed_id)));
        before.lemma_same_users(after);
        before.lemma_same_articles(after);
        assert(after.links_wf());
    }
    Some(conn.users[i].clone().to_profile(true))
}

/// Makes `follower_id` stop following the user called `followed_name`. Where the one did
/// not follow the other, nothing changes. `None` is returned where no user has the name.
pub fn unfollow(conn: &mut Conn, followed_name: &str, follower_id: i32) -> (r: Option<Profile>)
    requires
        old(conn).wf(),
    ensures
        final(conn).wf(),
        r is Some <==> old(conn)@.has_username(followed_name@),
        r is None ==> final(conn)@ == old(conn)@,
        r matches Some(p) ==> {
            let followed = old(conn)@.user_named(followed_name@);
            &&& p@ == profile_of(followed, false)
            &&& final(conn)@ == without_follow(old(conn)@, follower_id, followed.id)
        },
{
    let name = followed_name.to_owned();
    let i = match conn.username_index(&name) {
        Some(i) => i,
        None => {
            return None;
        },
    };
    proof {
        conn@.lemma_user_at(i as int);
    }
    let followed_id = conn.users[i].id;
    let pair = (follower_id, followed_id);
    proof {
        lemma_without_pair(conn@.follows, pair);
    }
    match pair_index(&conn.follows, pair) {
        Some(k) => {
            assert(conn@.follows.index_of(pair) == k as int);
            conn.follows.remove(k);
        },
        None => {},
    }
    proof {
        let before = old(conn)@;
        let after = conn@;
        assert(after.follows =~= without_pair(before.follows, pair));
        before.lemma_same_users(after);
        before.lemma_same_articles(after);
        assert forall|k: int| 0 <= k < after.follows.len() implies {
            let f = #[trigger] after.follows[k];
            after.has_user(f.0) && after.has_user(f.1)
        } by {
            let f = after.follows[k];
            assert(before.follows.contains(f));
            let j = before.follows.index_of(f);
            assert(before.follows[j] == f);
        }
        assert(after.links_wf());
    }
    Some(conn.users[i].clone().to_profile(false))
}

/// Following an author brings the author's articles into the follower's feed, and
/// unfollowing takes them out again.
pub proof fn feed_follows_the_follow_graph(m: ConnModel, follower: i32, followed: i32)
    requires
        m.wf(),
    ensures
        forall|i: int|
            0 <= i < m.articles.len() && (#[trigger] m.articles[i]).author == followed
                ==> feed_filter(with_follow(m, follower, followed), follower)(m.articles[i]),
        forall|i: int|
            0 <= i < m.articles.len() && (#[trigger] m.articles[i]).author == followed
                ==> !feed_filter(without_follow(m, follower, followed), follower)(m.articles[i]),
{
    let pair = (follower, followed);
    let more = m.follows.push(pair);
    assert(more[m.follows.len() as int] == pair);
    lemma_without_pair(m.follows, pair);
}

} // verus!
