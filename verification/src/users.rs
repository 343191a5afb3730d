//! The credential store under the names by which callers outside the query layer know it.

use vstd::prelude::*;
use crate::db::users::{insert_obstacle, new_user_model, with_user, UserCreationError};
use crate::db::Conn;
use crate::models::user::User;
use crate::password::scrypt_accepts;

verus! {

/// Registers a user: hashes the password and stores the user under the next identifier.
pub fn create_user(conn: &mut Conn, username: &str, email: &str, password: &str) -> (r: Result<
    User,
    UserCreationError,
>)
    requires
        old(conn).wf(),
    ensures
        final(conn).wf(),
        match insert_obstacle(old(conn)@, username@, email@) {
            Some(e) => r == Err::<User, UserCreationError>(e),
            None => r is Ok || r == Err::<User, UserCreationError>(UserCreationError::HashFailed),
        },
        r is Err ==> final(conn)@ == old(conn)@,
        r matches Ok(u) ==> {
            &&& u@ == new_user_model(old(conn)@, username@, email@, u@.hash)
            &&& scrypt_accepts(password@, u@.hash)
            &&& final(conn)@ == with_user(old(conn)@, u@)
        },
{
    crate::db::users::create(conn, username, email, password)
}

/// The user with the address `email`, if `password` is theirs.
pub fn login_user(conn: &Conn, email: &str, password: &str) -> (r: Option<User>)
    requires
        conn.wf(),
    ensures
        r is Some <==> conn@.has_email(email@) && scrypt_accepts(
            password@,
            conn@.user_with_email(email@).hash,
        ),
        r matches Some(u) ==> u@ == conn@.user_with_email(email@),
{
    crate::db::users::login(conn, email, password)
}

/// The user with the identifier `id`.
pub fn find_user(conn: &Conn, id: i32) -> (r: Option<User>)
    requires
        conn.wf(),
    ensures
        r is Some <==> conn@.has_user(id),
        r matches Some(u) ==> u@ == conn@.user(id),
{
    crate::db::users::find(conn, id)
}

} // verus!
