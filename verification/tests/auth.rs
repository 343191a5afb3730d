//! Registration, login and the current user, with the session token.

use realworld::auth::{decode_token, extract_auth_from_request, Auth};
use realworld::db::Conn;
use realworld::errors::{Errors, Failure};
use realworld::models::user::User;
use realworld::time::{Timestamp, MAX_MILLIS};
use realworld::routes::users::{
    get_user, post_users, post_users_login, LoginUser, LoginUserData, NewUser, NewUserData,
};

const USERNAME: &str = "smoketest";
const EMAIL: &str = "smoketest@realworld.io";
const PASSWORD: &str = "qweasdzxc";
const SECRET: &[u8] = b"c2VjcmV0MTIz";

fn registration() -> NewUser {
    NewUser {
        user: NewUserData {
            username: Some(USERNAME.to_string()),
            email: Some(EMAIL.to_string()),
            password: Some(PASSWORD.to_string()),
        },
    }
}

fn first_code(errors: Errors, field: &str) -> Option<String> {
    errors
        .into_fields()
        .into_iter()
        .find(|(name, _)| name == field)
        .and_then(|(_, codes)| codes.into_iter().next())
}

fn check_user_response(user: &User) {
    let shown = user.to_user_auth(SECRET).expect("token");
    assert_eq!(shown.email, EMAIL);
    assert_eq!(shown.username, USERNAME);
    assert_eq!(shown.bio, None);
    assert_eq!(shown.image, None);
    let claims = decode_token(&shown.token, SECRET).expect("claims");
    assert_eq!(claims.id, user.id);
    assert_eq!(claims.username, USERNAME);
}

fn check_user_validation_errors(errors: Errors) {
    assert_eq!(first_code(errors, "username"), Some("has already been taken".to_string()));
}

#[test]
fn auth_test_register() {
    let mut conn = Conn::new(true);
    match post_users(&mut conn, registration()) {
        Ok(user) => check_user_response(&user),
        Err(_) => panic!("first registration must pass"),
    }
    match post_users(&mut conn, registration()) {
        Err(Failure::ValidationFailed(errors)) => check_user_validation_errors(errors),
        _ => panic!("second registration must fail on the name"),
    }
}

#[test]
fn auth_test_incorrect_login() {
    let mut conn = Conn::new(true);
    assert!(post_users(&mut conn, registration()).is_ok());
    let request = LoginUser {
        user: LoginUserData { email: Some(EMAIL.to_string()), password: Some("foo".to_string()) },
    };
    match post_users_login(&conn, request) {
        Err(errors) => {
            assert_eq!(first_code(errors, "email or password"), Some("is invalid".to_string()))
        }
        Ok(_) => panic!("login with a wrong password must fail"),
    }
}

#[test]
fn auth_test_login() {
    let mut conn = Conn::new(true);
    assert!(post_users(&mut conn, registration()).is_ok());
    let request = LoginUser {
        user: LoginUserData {
            email: Some(EMAIL.to_string()),
            password: Some(PASSWORD.to_string()),
        },
    };
    let user = match post_users_login(&conn, request) {
        Ok(user) => user,
        Err(_) => panic!("login must pass"),
    };
    let shown = user.to_user_auth(SECRET).expect("user has token");
    assert!(!shown.token.is_empty());
}

#[test]
fn test_get_current_user() {
    let mut conn = Conn::new(true);
    let user = match post_users(&mut conn, registration()) {
        Ok(user) => user,
        Err(_) => panic!("registration must pass"),
    };
    let token = user.to_user_auth(SECRET).expect("token").token;
    let header = format!("Token {}", token);
    let auth: Auth = extract_auth_from_request(Some(&header), SECRET).expect("session");
    let current = get_user(&conn, &auth).expect("user");
    check_user_response(&current);
}

#[test]
fn token_expires_sixty_days_after_it_is_issued() {
    let mut conn = Conn::new(true);
    let user = match post_users(&mut conn, registration()) {
        Ok(user) => user,
        Err(_) => panic!("registration must pass"),
    };
    let now = Timestamp::new(4_000_000_000_999).expect("in range");
    let shown = user.to_user_auth_at(SECRET, now).expect("token");
    assert_eq!(shown.username, USERNAME);
    assert_eq!(shown.email, EMAIL);
    let claims = decode_token(&shown.token, SECRET).expect("claims");
    assert_eq!(claims.exp, 4_005_184_000);
    assert_eq!(claims.id, 1);
    assert_eq!(claims.username, USERNAME);

    let expected = Auth { exp: 4_005_184_000, id: 1, username: USERNAME.to_string() };
    assert_eq!(Some(shown.token), expected.token(SECRET));

    assert!(user.to_user_auth_at(b"secret123", now).is_none());
    let late = Timestamp::new(MAX_MILLIS).expect("in range");
    assert!(user.to_user_auth_at(SECRET, late).is_none());
}
