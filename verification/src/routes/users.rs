//! Registration, login and the current user.

use vstd::prelude::*;
use crate::auth::Auth;
use crate::db::users::{insert_obstacle, new_user_model, with_user, UpdateUserData, UserCreationError};
use crate::db::users::{update_allowed, updated_user, with_user_replaced};
use crate::db::Conn;
use crate::errors::{
    blank_if_missing, check_email, check_min_length, collect_codes, lemma_codes_empty, no_codes,
    not_an_email, one_code, outcome_of, too_short, Errors, Failure, FieldCodes, FieldErrorCode,
    FieldName, FieldValidator, Validate,
};
use crate::models::user::User;
use crate::password::scrypt_accepts;

verus! {

/// The body of a registration request.
pub struct NewUser {
    pub user: NewUserData,
}

/// The fields of a registration.
pub struct NewUserData {
    pub username: Option<String>,
    pub email: Option<String>,
    pub password: Option<String>,
}

impl Validate for NewUserData {
    /// A name that is given holds a character, an address that is given is one, and a
    /// password that is given holds eight characters.
    open spec fn violations(&self) -> Seq<(Seq<char>, Seq<char>)> {
        too_short("username"@, self.username.deep_view(), 1) + not_an_email(
            "email"@,
            self.email.deep_view(),
        ) + too_short("password"@, self.password.deep_view(), 8)
    }

    fn validate(&self) -> (r: Result<(), Errors>) {
        let mut found: Vec<(FieldName, FieldErrorCode)> = Vec::new();
        assert(crate::errors::pairs_view(found@) =~= Seq::<(Seq<char>, Seq<char>)>::empty());
        check_min_length(&mut found, "username", &self.username, 1);
        check_email(&mut found, "email", &self.email);
        check_min_length(&mut found, "password", &self.password, 8);
        assert(crate::errors::pairs_view(found@) =~= self.violations());
        outcome_of(found)
    }
}

/// The failures of a registration: what the rules find, and each missing field as blank.
pub open spec fn registration_codes(d: NewUserData) -> FieldCodes {
    blank_if_missing(
        blank_if_missing(
            blank_if_missing(collect_codes(d.violations()), "username"@, d.username),
            "email"@,
            d.email,
        ),
        "password"@,
        d.password,
    )
}

/// What is reported where a name or an address is taken.
pub open spec fn taken(e: UserCreationError) -> FieldCodes {
    match e {
        UserCreationError::DuplicatedEmail => one_code("email"@, "has already been taken"@),
        _ => one_code("username"@, "has already been taken"@),
    }
}

/// Registers a user. A request that breaks a rule, or names a user or an address that
/// exists, is answered with the failures by field and changes nothing.
pub fn post_users(conn: &mut Conn, new_user: NewUser) -> (r: Result<User, Failure>)
    requires
        old(conn).wf(),
    ensures
        final(conn).wf(),
        r is Err ==> final(conn)@ == old(conn)@,
        !(registration_codes(new_user.user) =~= no_codes()) ==> (r matches Err(
            Failure::ValidationFailed(e),
        ) && e.wf() && e@ == registration_codes(new_user.user)),
        registration_codes(new_user.user) =~= no_codes() ==> {
            let username = new_user.user.username->0@;
            let email = new_user.user.email->0@;
            match insert_obstacle(old(conn)@, username, email) {
                Some(UserCreationError::DuplicatedUsername) => r matches Err(
                    Failure::ValidationFailed(e),
                ) && e.wf() && e@ == taken(UserCreationError::DuplicatedUsername),
                Some(UserCreationError::DuplicatedEmail) => r matches Err(
                    Failure::ValidationFailed(e),
                ) && e.wf() && e@ == taken(UserCreationError::DuplicatedEmail),
                Some(_) => r matches Err(Failure::StorageFailure),
                None => r matches Err(Failure::StorageFailure) || (r matches Ok(u) && {
                    &&& u@ == new_user_model(old(conn)@, username, email, u@.hash)
                    &&& scrypt_accepts(new_user.user.password->0@, u@.hash)
                    &&& final(conn)@ == with_user(old(conn)@, u@)
                }),
            }
        },
{
    let data = new_user.user;
    let mut extractor = FieldValidator::validate(&data);
    let ghost d = data;
    let username = extractor.extract("username", data.username);
    let email = extractor.extract("email", data.email);
    let password = extractor.extract("password", data.password);
    match extractor.check() {
        Err(e) => {
            return Err(Failure::ValidationFailed(e));
        },
        Ok(()) => {},
    }
    proof {
        lemma_codes_empty(registration_codes(d), "password"@, d.password);
        lemma_codes_empty(
            blank_if_missing(
                blank_if_missing(collect_codes(d.violations()), "username"@, d.username),
                "email"@,
                d.email,
            ),
            "email"@,
            d.email,
        );
        lemma_codes_empty(
            blank_if_missing(collect_codes(d.violations()), "username"@, d.username),
            "username"@,
            d.username,
        );
    }
    match crate::db::users::create(conn, username.as_str(), email.as_str(), password.as_str()) {
        Ok(user) => Ok(user),
        Err(UserCreationError::DuplicatedEmail) => Err(
            Failure::ValidationFailed(Errors::single("email", "has already been taken")),
        ),
        Err(UserCreationError::DuplicatedUsername) => Err(
            Failure::ValidationFailed(Errors::single("username", "has already been taken")),
        ),
        Err(_) => Err(Failure::StorageFailure),
    }
}

/// The body of a login request.
pub struct LoginUser {
    pub user: LoginUserData,
}

/// The fields of a login.
pub struct LoginUserData {
    pub email: Option<String>,
    pub password: Option<String>,
}

/// The failures of a login request: each missing field as blank.
pub open spec fn login_codes(d: LoginUserData) -> FieldCodes {
    blank_if_missing(blank_if_missing(no_codes(), "email"@, d.email), "password"@, d.password)
}

/// Logs a user in. An unknown address and a wrong password are answered alike, so that
/// the answer does not tell which of the two was wrong.
pub fn post_users_login(conn: &Conn, user: LoginUser) -> (r: Result<User, Errors>)
    requires
        conn.wf(),
    ensures
        r matches Err(e) ==> e.wf(),
        !(login_codes(user.user) =~= no_codes()) ==> (r matches Err(e) && e@ == login_codes(
            user.user,
        )),
        login_codes(user.user) =~= no_codes() ==> {
            let email = user.user.email->0@;
            let password = user.user.password->0@;
            if conn@.has_email(email) && scrypt_accepts(
                password,
                conn@.user_with_email(email).hash,
            ) {
                r matches Ok(u) && u@ == conn@.user_with_email(email)
            } else {
                r matches Err(e) && e@ == one_code("email or password"@, "is invalid"@)
            }
        },
{
    let data = user.user;
    let ghost d = data;
    let mut extractor = FieldValidator::default();
    let email = extractor.extract("email", data.email);
    let password = extractor.extract("password", data.password);
    match extractor.check() {
        Err(e) => {
            return Err(e);
        },
        Ok(()) => {},
    }
    proof {
        lemma_codes_empty(login_codes(d), "password"@, d.password);
        lemma_codes_empty(blank_if_missing(no_codes(), "email"@, d.email), "email"@, d.email);
    }
    match crate::db::users::login(conn, email.as_str(), password.as_str()) {
        Some(u) => Ok(u),
        None => Err(Errors::single("email or password", "is invalid")),
    }
}

/// The user that a session belongs to.
pub fn get_user(conn: &Conn, auth: &Auth) -> (r: Option<User>)
    requires
        conn.wf(),
    ensures
        r is Some <==> conn@.has_user(auth.id),
        r matches Some(u) ==> u@ == conn@.user(auth.id),
{
    crate::db::users::find(conn, auth.id)
}

/// The body of a request to update the current user.
pub struct UpdateUser {
    pub user: UpdateUserData,
}

/// Updates the user that a session belongs to.
pub fn put_user(conn: &mut Conn, user: &UpdateUser, auth: &Auth) -> (r: Option<User>)
    requires
        old(conn).wf(),
    ensures
        final(conn).wf(),
        r is Some <==> update_allowed(old(conn)@, auth.id, user.user@),
        r is None ==> final(conn)@ == old(conn)@,
        r matches Some(u) ==> {
            &&& u@ == updated_user(old(conn)@.user(auth.id), user.user@)
            &&& final(conn)@ == with_user_replaced(old(conn)@, auth.id, u@)
        },
{
    crate::db::users::update(conn, auth.id, &user.user)
}

} // verus!
