//! Profiles, and following and unfollowing.

use vstd::prelude::*;
use crate::auth::Auth;
use crate::db::profiles::{can_follow, with_follow, without_follow};
use crate::db::users::profile_for;
use crate::db::Conn;
use crate::models::user::{profile_of, Profile};
use crate::routes::{viewer_id, viewer_of};

verus! {

/// The profile of the user called `username`, as the session sees it.
pub fn get_profile(conn: &Conn, username: &str, auth: Option<&Auth>) -> (r: Option<Profile>)
    requires
        conn.wf(),
    ensures
        r is Some <==> conn@.has_username(username@),
        r matches Some(p) ==> p@ == profile_for(
            conn@,
            conn@.user_named(username@),
            viewer_of(auth),
        ),
{
    crate::db::profiles::find(conn, username, viewer_id(auth))
}

/// Makes the user of the session follow the user called `username`.
pub fn follow(conn: &mut Conn, username: &str, auth: &Auth) -> (r: Option<Profile>)
    requires
        old(conn).wf(),
    ensures
        final(conn).wf(),
        r is Some <==> can_follow(old(conn)@, username@, auth.id),
        r is None ==> final(conn)@ == old(conn)@,
        r matches Some(p) ==> {
            let followed = old(conn)@.user_named(username@);
            &&& p@ == profile_of(followed, true)
            &&& final(conn)@ == with_follow(old(conn)@, auth.id, followed.id)
        },
{
    crate::db::profiles::follow(conn, username, auth.id)
}

/// Makes the user of the session stop following the user called `username`.
pub fn unfollow(conn: &mut Conn, username: &str, auth: &Auth) -> (r: Option<Profile>)
    requires
        old(conn).wf(),
    ensures
        final(conn).wf(),
        r is Some <==> old(conn)@.has_username(username@),
        r is None ==> final(conn)@ == old(conn)@,
        r matches Some(p) ==> {
            let followed = old(conn)@.user_named(username@);
            &&& p@ == profile_of(followed, false)
            &&& final(conn)@ == without_follow(old(conn)@, auth.id, followed.id)
        },
{
    crate::db::profiles::unfollow(conn, username, auth.id)
}

} // verus!
