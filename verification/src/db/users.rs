//! The credential store: registration, login and updates of users.

use vstd::prelude::*;
use crate::db::seqs::pair_index;
use crate::db::{Conn, ConnModel};
use crate::models::user::{profile_of, Profile, ProfileModel, User, UserModel};
use crate::password::{scrypt_accepts, PasswordHash};
use crate::text::clone_opt_text;

verus! {

/// A user about to be stored.
pub struct NewUser<'a> {
    pub username: &'a str,
    pub email: &'a str,
    pub hash: PasswordHash,
}

/// Why a user could not be stored.
#[derive(Debug, PartialEq, Eq, Structural, Clone, Copy)]
pub enum UserCreationError {
    /// Another user has the address.
    DuplicatedEmail,
    /// Another user has the name.
    DuplicatedUsername,
    /// The password could not be hashed.
    HashFailed,
    /// No identifier is left.
    IdsExhausted,
}

/// What stands in the way of storing a user called `username` with the address `email`, if
/// anything does.
pub open spec fn insert_obstacle(m: ConnModel, username: Seq<char>, email: Seq<char>) -> Option<
    UserCreationError,
> {
    if m.has_username(username) {
        Some(UserCreationError::DuplicatedUsername)
    } else if m.has_email(email) {
        Some(UserCreationError::DuplicatedEmail)
    } else if m.next_user_id == i32::MAX {
        Some(UserCreationError::IdsExhausted)
    } else {
        None
    }
}

/// The user that a store in state `m` makes of a name, an address and a hash.
pub open spec fn new_user_model(
    m: ConnModel,
    username: Seq<char>,
    email: Seq<char>,
    hash: Seq<char>,
) -> UserModel {
    UserModel { id: m.next_user_id, username, email, bio: None, image: None, hash }
}

/// The store `m` after `user` was added under the next identifier.
pub open spec fn with_user(m: ConnModel, user: UserModel) -> ConnModel {
    ConnModel { users: m.users.push(user), next_user_id: (m.next_user_id + 1) as i32, ..m }
}

/// Stores a user whose password is already hashed.
pub fn insert(conn: &mut Conn, new_user: NewUser) -> (r: Result<User, UserCreationError>)
    requires
        old(conn).wf(),
    ensures
        final(conn).wf(),
        match insert_obstacle(old(conn)@, new_user.username@, new_user.email@) {
            Some(e) => r == Err::<User, UserCreationError>(e) && final(conn)@ == old(conn)@,
            None => r matches Ok(u) && u@ == new_user_model(
                old(conn)@,
                new_user.username@,
                new_user.email@,
                new_user.hash@,
            ) && final(conn)@ == with_user(old(conn)@, u@),
        },
{
    let username = new_user.username.to_owned();
    let email = new_user.email.to_owned();
    if conn.username_index(&username).is_some() {
        return Err(UserCreationError::DuplicatedUsername);
    }
    if conn.email_index(&email).is_some() {
        return Err(UserCreationError::DuplicatedEmail);
    }
    if conn.next_user_id == i32::MAX {
        return Err(UserCreationError::IdsExhausted);
    }
    let user = User {
        id: conn.next_user_id,
        username,
        email,
        bio: None,
        image: None,
        hash: new_user.hash,
    };
    let stored = user.clone();
    conn.users.push(stored);
    conn.next_user_id = conn.next_user_id + 1;
    proof {
        let before = old(conn)@;
        let after = conn@;
        assert(after.users =~= before.users.push(user@));
        assert(after == with_user(before, user@));
        before.lemma_users_kept(after);
        assert(after.users_wf());
        assert(after.articles_wf());
        assert(after.comments_wf());
        assert(after.links_wf());
    }
    Ok(user)
}

/// Registers a user: hashes the password and stores the user under the next identifier.
///
/// A name that is taken is reported before an address that is taken. The hash depends on
/// a random salt; whatever it is, it accepts `password`.
pub fn create(conn: &mut Conn, username: &str, email: &str, password: &str) -> (r: Result<
    User,
    UserCreationError,
>)
    requires
        old(conn).wf(),
    ensures
        final(conn).wf(),
        match insert_obstacle(old(conn)@, username@, email@) {
            Some(e) => r == Err::<User, UserCreationError>(e),
            None => r is Ok || r == Err::<User, UserCreationError>(UserCreationError::HashFailed),
        },
        r is Err ==> final(conn)@ == old(conn)@,
        r matches Ok(u) ==> {
            &&& u@ == new_user_model(old(conn)@, username@, email@, u@.hash)
            &&& scrypt_accepts(password@, u@.hash)
            &&& final(conn)@ == with_user(old(conn)@, u@)
        },
{
    let name = username.to_owned();
    let address = email.to_owned();
    if conn.username_index(&name).is_some() {
        return Err(UserCreationError::DuplicatedUsername);
    }
    if conn.email_index(&address).is_some() {
        return Err(UserCreationError::DuplicatedEmail);
    }
    if conn.next_user_id == i32::MAX {
        return Err(UserCreationError::IdsExhausted);
    }
    match PasswordHash::create(password) {
        Some(hash) => insert(conn, NewUser { username, email, hash }),
        None => Err(UserCreationError::HashFailed),
    }
}

/// The user with the address `email`, if `password` is theirs. An unknown address and a
/// wrong password give the same answer.
pub fn login(conn: &Conn, email: &str, password: &str) -> (r: Option<User>)
    requires
        conn.wf(),
    ensures
        r is Some <==> conn@.has_email(email@) && scrypt_accepts(
            password@,
            conn@.user_with_email(email@).hash,
        ),
        r matches Some(u) ==> u@ == conn@.user_with_email(email@),
{
    let address = email.to_owned();
    match conn.email_index(&address) {
        Some(i) => {
            proof {
                conn@.lemma_user_at(i as int);
            }
            if conn.users[i].hash.verify(password) {
                Some(conn.users[i].clone())
            } else {
                None
            }
        },
        None => None,
    }
}

/// The user with the identifier `id`.
pub fn find(conn: &Conn, id: i32) -> (r: Option<User>)
    requires
        conn.wf(),
    ensures
        r is Some <==> conn@.has_user(id),
        r matches Some(u) ==> u@ == conn@.user(id),
{
    match conn.user_index(id) {
        Some(i) => {
            proof {
                conn@.lemma_user_at(i as int);
            }
            Some(conn.users[i].clone())
        },
        None => None,
    }
}

/// The fields of a user that an update may change. A field left out keeps its value; the
/// password is never changed on this path.
pub struct UpdateUserData {
    pub username: Option<String>,
    pub email: Option<String>,
    pub bio: Option<String>,
    pub image: Option<String>,
    pub password: Option<String>,
}

/// Mathematical value of an [`UpdateUserData`], without the password.
pub ghost struct UpdateUserModel {
    pub username: Option<Seq<char>>,
    pub email: Option<Seq<char>>,
    pub bio: Option<Seq<char>>,
    pub image: Option<Seq<char>>,
}

impl View for UpdateUserData {
    type V = UpdateUserModel;

    open spec fn view(&self) -> UpdateUserModel {
        UpdateUserModel {
            username: self.username.deep_view(),
            email: self.email.deep_view(),
            bio: self.bio.deep_view(),
            image: self.image.deep_view(),
        }
    }
}

/// The user `u` with the fields that `d` names replaced.
pub open spec fn updated_user(u: UserModel, d: UpdateUserModel) -> UserModel {
    UserModel {
        id: u.id,
        username: if d.username is Some { d.username->0 } else { u.username },
        email: if d.email is Some { d.email->0 } else { u.email },
        bio: if d.bio is Some { d.bio } else { u.bio },
        image: if d.image is Some { d.image } else { u.image },
        hash: u.hash,
    }
}

/// Whether `name` is the name of a user other than `id`.
pub open spec fn name_taken_by_other(m: ConnModel, id: i32, name: Seq<char>) -> bool {
    m.has_username(name) && m.user_named(name).id != id
}

/// Whether `email` is the address of a user other than `id`.
pub open spec fn email_taken_by_other(m: ConnModel, id: i32, email: Seq<char>) -> bool {
    m.has_email(email) && m.user_with_email(email).id != id
}

/// Whether the store accepts the update `d` of the user `id`.
pub open spec fn update_allowed(m: ConnModel, id: i32, d: UpdateUserModel) -> bool {
    &&& m.has_user(id)
    &&& d.username matches Some(name) ==> !name_taken_by_other(m, id, name)
    &&& d.email matches Some(email) ==> !email_taken_by_other(m, id, email)
}

/// The store `m` with `user` in the place of the user `id`.
pub open spec fn with_user_replaced(m: ConnModel, id: i32, user: UserModel) -> ConnModel {
    ConnModel { users: m.users.update(m.user_position(id), user), ..m }
}

/// Changes the named fields of the user `id`. Nothing changes, and `None` is returned,
/// where the user is unknown or another user has the new name or address.
pub fn update(conn: &mut Conn, id: i32, data: &UpdateUserData) -> (r: Option<User>)
    requires
        old(conn).wf(),
    ensures
        final(conn).wf(),
        r is Some <==> update_allowed(old(conn)@, id, data@),
        r is None ==> final(conn)@ == old(conn)@,
        r matches Some(u) ==> {
            &&& u@ == updated_user(old(conn)@.user(id), data@)
            &&& final(conn)@ == with_user_replaced(old(conn)@, id, u@)
        },
{
    let i = match conn.user_index(id) {
        Some(i) => i,
        None => {
            return None;
        },
    };
    proof {
        conn@.lemma_user_at(i as int);
    }
    match &data.username {
        Some(name) => {
            match conn.username_index(name) {
                Some(k) => {
                    proof {
                        conn@.lemma_user_at(k as int);
                    }
                    if k != i {
                        return None;
                    }
                },
                None => {},
            }
        },
        None => {},
    }
    match &data.email {
        Some(email) => {
            match conn.email_index(email) {
                Some(k) => {
                    proof {
                        conn@.lemma_user_at(k as int);
                    }
                    if k != i {
                        return None;
                    }
                },
                None => {},
            }
        },
        None => {},
    }
    let current = conn.users[i].clone();
    let user = User {
        id: current.id,
        username: match &data.username {
            Some(name) => name.clone(),
            None => current.username,
        },
        email: match &data.email {
            Some(email) => email.clone(),
            None => current.email,
        },
        bio: match &data.bio {
            Some(_) => clone_opt_text(&data.bio),
            None => current.bio,
        },
        image: match &data.image {
            Some(_) => clone_opt_text(&data.image),
            None => current.image,
        },
        hash: current.hash,
    };
    let stored = user.clone();
    conn.users.set(i, stored);
    proof {
        let before = old(conn)@;
        let after = conn@;
        assert(after.users =~= before.users.update(i as int, user@));
        before.lemma_users_kept(after);
        assert(after.users_wf()) by {
            assert forall|a: int, b: int| 0 <= a < b < after.users.len() implies (
            #[trigger] after.users[a]).username != (#[trigger] after.users[b]).username by {
                if a == i as int || b == i as int {
                    let other = if a == i as int { b } else { a };
                    if data@.username is Some {
                        if before.users[other].username == data@.username->0 {
                            before.lemma_user_at(other);
                        }
                    }
                }
            }
            assert forall|a: int, b: int| 0 <= a < b < after.users.len() implies (
            #[trigger] after.users[a]).email != (#[trigger] after.users[b]).email by {
                if a == i as int || b == i as int {
                    let other = if a == i as int { b } else { a };
                    if data@.email is Some {
                        if before.users[other].email == data@.email->0 {
                            before.lemma_user_at(other);
                        }
                    }
                }
            }
        }
        assert(after.articles_wf());
        assert(after.comments_wf());
        assert(after.links_wf());
    }
    Some(user)
}

/// The profile of `user` as `viewer` sees it: an anonymous viewer follows nobody.
pub open spec fn profile_for(m: ConnModel, user: UserModel, viewer: Option<i32>) -> ProfileModel {
    profile_of(user, viewer is Some && m.following(viewer->0, user.id))
}

/// The profile of `user` as `viewer` sees it.
pub fn to_profile_for(conn: &Conn, user: &User, viewer: Option<i32>) -> (p: Profile)
    ensures
        p@ == profile_for(conn@, user@, viewer),
{
    let following = match viewer {
        Some(v) => pair_index(&conn.follows, (v, user.id)).is_some(),
        None => false,
    };
    user.clone().to_profile(following)
}

/// Whether a user is called `username`.
pub fn username_exists(conn: &Conn, username: &str) -> (b: bool)
    ensures
        b == conn@.has_username(username@),
{
    let name = username.to_owned();
    conn.username_index(&name).is_some()
}

/// Whether a user has the address `email`.
pub fn email_exists(conn: &Conn, email: &str) -> (b: bool)
    ensures
        b == conn@.has_email(email@),
{
    let address = email.to_owned();
    conn.email_index(&address).is_some()
}

/// Whoever registered can log in: once a user is stored with a hash that accepts a
/// password, the address and that password lead to the user.
pub proof fn registered_user_can_log_in(m: ConnModel, u: UserModel, password: Seq<char>)
    requires
        m.wf(),
        insert_obstacle(m, u.username, u.email) is None,
        u == new_user_model(m, u.username, u.email, u.hash),
        scrypt_accepts(password, u.hash),
    ensures
        with_user(m, u).has_email(u.email),
        with_user(m, u).user_with_email(u.email) == u,
        scrypt_accepts(password, with_user(m, u).user_with_email(u.email).hash),
{
    let after = with_user(m, u);
    let at = m.users.len() as int;
    assert(after.users[at] == u);
    let k = after.email_position(u.email);
    assert(k == at) by {
        if k < at {
            assert(m.users[k].email == u.email);
        }
    }
}

} // verus!
