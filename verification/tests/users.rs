//! Registration, login and updates of users.

use realworld::auth::Auth;
use realworld::db::users::UpdateUserData;
use realworld::db::Conn;
use realworld::errors::{Errors, Failure};
use realworld::models::user::User;
use realworld::routes::users::{
    get_user, post_users, post_users_login, put_user, LoginUser, LoginUserData, NewUser,
    NewUserData, UpdateUser,
};

const USERNAME: &str = "smoketest";
const EMAIL: &str = "smoketest@realworld.io";
const PASSWORD: &str = "qweasdzxc";
const SECRET: &[u8] = b"c2VjcmV0MTIz";

fn registration(username: &str, email: &str) -> NewUser {
    NewUser {
        user: NewUserData {
            username: Some(username.to_string()),
            email: Some(email.to_string()),
            password: Some(PASSWORD.to_string()),
        },
    }
}

fn register(conn: &mut Conn, username: &str, email: &str) -> User {
    match post_users(conn, registration(username, email)) {
        Ok(user) => user,
        Err(_) => panic!("cannot register"),
    }
}

fn session(user: &User) -> Auth {
    Auth { exp: 4_102_444_800, id: user.id, username: user.username.clone() }
}

fn first_code(errors: Errors, field: &str) -> Option<String> {
    errors
        .into_fields()
        .into_iter()
        .find(|(name, _)| name == field)
        .and_then(|(_, codes)| codes.into_iter().next())
}

fn check_user_response(user: &User) {
    let shown = user.to_user_auth(SECRET).expect("token");
    assert_eq!(shown.email, EMAIL);
    assert_eq!(shown.username, USERNAME);
    assert!(!shown.token.is_empty());
}

#[test]
fn users_test_register() {
    let mut conn = Conn::new(true);
    let user = register(&mut conn, USERNAME, EMAIL);
    check_user_response(&user);
    match post_users(&mut conn, registration(USERNAME, EMAIL)) {
        Err(Failure::ValidationFailed(errors)) => {
            assert_eq!(first_code(errors, "username"), Some("has already been taken".to_string()))
        }
        _ => panic!("second registration must fail on the name"),
    }
}

#[test]
fn test_register_with_duplicated_email() {
    let mut conn = Conn::new(true);
    register(&mut conn, "clone", "clone@realworld.io");

    match post_users(&mut conn, registration("clone_1", "clone@realworld.io")) {
        Err(Failure::ValidationFailed(errors)) => {
            let fields = errors.into_fields();
            assert_eq!(fields.len(), 1);
            assert_eq!(fields[0].0, "email");
            assert_eq!(fields[0].1, vec!["has already been taken".to_string()]);
        }
        _ => panic!("registration with a taken address must fail"),
    }
    assert_eq!(conn.users.len(), 1);
    assert_eq!(conn.users[0].username, "clone");
    assert_eq!(conn.users[0].email, "clone@realworld.io");
}

#[test]
fn users_test_incorrect_login() {
    let mut conn = Conn::new(true);
    register(&mut conn, USERNAME, EMAIL);
    let request = LoginUser {
        user: LoginUserData { email: Some(EMAIL.to_string()), password: Some("foo".to_string()) },
    };
    match post_users_login(&conn, request) {
        Err(errors) => {
            assert_eq!(first_code(errors, "email or password"), Some("is invalid".to_string()))
        }
        Ok(_) => panic!("login with a wrong password must fail"),
    }
}

#[test]
fn users_test_login() {
    let mut conn = Conn::new(true);
    register(&mut conn, USERNAME, EMAIL);
    let request = LoginUser {
        user: LoginUserData {
            email: Some(EMAIL.to_string()),
            password: Some(PASSWORD.to_string()),
        },
    };
    let user = match post_users_login(&conn, request) {
        Ok(user) => user,
        Err(_) => panic!("login must pass"),
    };
    let shown = user.to_user_auth(SECRET).expect("user has token");
    assert!(!shown.token.is_empty());
}

#[test]
fn test_get_user() {
    let mut conn = Conn::new(true);
    let user = register(&mut conn, USERNAME, EMAIL);
    let current = get_user(&conn, &session(&user)).expect("user");
    check_user_response(&current);
}

#[test]
fn test_put_user() {
    let mut conn = Conn::new(true);
    let user = register(&mut conn, USERNAME, EMAIL);
    let request = UpdateUser {
        user: UpdateUserData {
            username: None,
            email: None,
            bio: Some("I'm doing Rust!".to_string()),
            image: None,
            password: None,
        },
    };
    let updated = put_user(&mut conn, &request, &session(&user)).expect("user");
    check_user_response(&updated);
    assert_eq!(updated.bio, Some("I'm doing Rust!".to_string()));
    assert_eq!(conn.users[0].bio, Some("I'm doing Rust!".to_string()));
}
