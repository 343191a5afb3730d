//! Session tokens.

use realworld::auth::{
    auth_from_claims, decode_token, extract_auth_from_request, extract_token_from_header, Auth,
};

const SECRET: &[u8] = b"c2VjcmV0MTIz";
const OTHER_SECRET: &[u8] = b"b3RoZXJzZWNyZXQ=";
const FAR_FUTURE: i64 = 4_102_444_800;

fn claims() -> Auth {
    Auth { exp: FAR_FUTURE, id: 7, username: "smoketest".to_string() }
}

#[test]
fn token_has_three_parts_and_the_default_header() {
    let token = claims().token(SECRET).expect("token");
    let parts: Vec<&str> = token.split('.').collect();
    assert_eq!(parts.len(), 3);
    assert_eq!(parts[0], "eyJ0eXAiOiJKV1QiLCJhbGciOiJIUzI1NiJ9");
    assert_eq!(
        parts[1],
        "eyJleHAiOjQxMDI0NDQ4MDAsImlkIjo3LCJ1c2VybmFtZSI6InNtb2tldGVzdCJ9"
    );    assert_eq!(parts[2], "eK7lSTSOahAtVr-2cSMhxSmBUzS0Lx5kHEM_ytzvg_w");
}

#[test]
fn token_is_the_same_for_the_same_claims_and_secret() {
    assert_eq!(claims().token(SECRET), claims().token(SECRET));
    assert_ne!(claims().token(SECRET), claims().token(OTHER_SECRET));
}

#[test]
fn token_is_refused_for_a_secret_that_is_no_base64() {
    assert!(claims().token(b"secret123").is_none());
    assert!(claims().token(&[0xff, 0xfe]).is_none());
}

#[test]
fn token_decodes_to_its_claims() {
    let token = claims().token(SECRET).expect("token");
    let back = decode_token(&token, SECRET).expect("claims");
    assert_eq!(back.exp, FAR_FUTURE);
    assert_eq!(back.id, 7);
    assert_eq!(back.username, "smoketest");
}

#[test]
fn token_under_another_secret_is_refused() {
    let token = claims().token(SECRET).expect("token");
    assert!(decode_token(&token, OTHER_SECRET).is_none());
    assert!(decode_token(&token, b"secret123").is_none());
}

#[test]
fn expired_token_is_refused() {
    let old = Auth { exp: 1_000_000_000, id: 7, username: "smoketest".to_string() };
    let token = old.token(SECRET).expect("token");
    assert!(decode_token(&token, SECRET).is_none());
}

#[test]
fn garbage_is_no_token() {
    assert!(decode_token("", SECRET).is_none());
    assert!(decode_token("a.b.c", SECRET).is_none());
    assert!(decode_token("not a token", SECRET).is_none());
}

#[test]
fn header_must_start_with_the_prefix() {
    assert_eq!(extract_token_from_header("Token abc.def.ghi"), Some("abc.def.ghi"));
    assert_eq!(extract_token_from_header("Token "), Some(""));
    assert_eq!(extract_token_from_header("Token  x"), Some(" x"));
    assert_eq!(extract_token_from_header("Token é"), Some("é"));
    assert_eq!(extract_token_from_header("Bearer abc"), None);
    assert_eq!(extract_token_from_header("token abc"), None);
    assert_eq!(extract_token_from_header("Token"), None);
    assert_eq!(extract_token_from_header("Toke"), None);
    assert_eq!(extract_token_from_header(""), None);
    assert_eq!(extract_token_from_header(" Token abc"), None);
}

#[test]
fn session_comes_from_a_header_with_a_valid_token() {
    let token = claims().token(SECRET).expect("token");
    let header = format!("Token {}", token);
    let auth = extract_auth_from_request(Some(&header), SECRET).expect("session");
    assert_eq!(auth.id, 7);
    assert_eq!(auth.username, "smoketest");
    assert_eq!(auth.exp, FAR_FUTURE);
}

#[test]
fn no_session_without_header_prefix_or_valid_token() {
    let token = claims().token(SECRET).expect("token");
    assert!(extract_auth_from_request(None, SECRET).is_none());
    assert!(extract_auth_from_request(Some(&token), SECRET).is_none());
    assert!(extract_auth_from_request(Some(&format!("Bearer {}", token)), SECRET).is_none());
    assert!(extract_auth_from_request(Some("Token garbage"), SECRET).is_none());
    assert!(extract_auth_from_request(Some(&format!("Token {}", token)), OTHER_SECRET).is_none());
}

fn number(name: &str, n: i64) -> (String, Option<i64>, Option<String>) {
    (name.to_string(), Some(n), None)
}

fn text(name: &str, t: &str) -> (String, Option<i64>, Option<String>) {
    (name.to_string(), None, Some(t.to_string()))
}

#[test]
fn claims_need_all_three_fields_and_an_identifier_that_fits() {
    let auth = auth_from_claims(&vec![number("exp", 5), number("id", 7), text("username", "u")])
        .expect("claims");
    assert_eq!((auth.exp, auth.id, auth.username.as_str()), (5, 7, "u"));
    let auth = auth_from_claims(&vec![
        text("username", "u"),
        number("iat", 1),
        number("id", -2_147_483_648),
        number("exp", -5),
    ])
    .expect("claims");
    assert_eq!((auth.exp, auth.id), (-5, i32::MIN));
    let auth = auth_from_claims(&vec![number("exp", 0), number("id", 2_147_483_647), text("username", "")])
        .expect("claims");
    assert_eq!((auth.id, auth.username.as_str()), (i32::MAX, ""));

    assert!(auth_from_claims(&vec![]).is_none());
    assert!(auth_from_claims(&vec![number("id", 7), text("username", "u")]).is_none());
    assert!(auth_from_claims(&vec![number("exp", 5), text("username", "u")]).is_none());
    assert!(auth_from_claims(&vec![number("exp", 5), number("id", 7)]).is_none());
    assert!(auth_from_claims(&vec![number("exp", 5), number("id", 2_147_483_648), text("username", "u")])
        .is_none());
    assert!(auth_from_claims(&vec![number("exp", 5), number("id", -2_147_483_649), text("username", "u")])
        .is_none());
}

#[test]
fn claims_of_the_wrong_kind_do_not_count() {
    assert!(auth_from_claims(&vec![text("exp", "5"), number("id", 7), text("username", "u")]).is_none());
    assert!(auth_from_claims(&vec![number("exp", 5), text("id", "7"), text("username", "u")]).is_none());
    assert!(auth_from_claims(&vec![number("exp", 5), number("id", 7), number("username", 1)]).is_none());
    let nothing = ("exp".to_string(), None, None);
    assert!(auth_from_claims(&vec![nothing, number("id", 7), text("username", "u")]).is_none());
}

#[test]
fn the_first_claim_of_a_name_counts() {
    let auth = auth_from_claims(&vec![
        number("exp", 5),
        number("id", 7),
        number("id", 8),
        text("username", "u"),
        text("username", "v"),
    ])
    .expect("claims");
    assert_eq!((auth.id, auth.username.as_str()), (7, "u"));
    assert!(auth_from_claims(&vec![
        number("exp", 5),
        text("id", "7"),
        number("id", 8),
        text("username", "u"),
    ])
    .is_none());
}

#[test]
fn token_with_more_claims_is_read_for_the_three() {
    // {"exp":4102444800,"iat":1,"id":7,"role":"admin","username":"smoketest"} under SECRET
    let token = [
        "eyJ0eXAiOiJKV1QiLCJhbGciOiJIUzI1NiJ9",
        "eyJleHAiOjQxMDI0NDQ4MDAsImlhdCI6MSwiaWQiOjcsInJvbGUiOiJhZG1pbiIsInVzZXJuYW1lIjoic21va2V0ZXN0In0",
        "EehsYm--A7NYIQurDsjE5l_Gp0I3i-nUzYZx6lAdvGk",
    ]
    .join(".");
    let auth = decode_token(&token, SECRET).expect("claims");
    assert_eq!((auth.exp, auth.id, auth.username.as_str()), (FAR_FUTURE, 7, "smoketest"));
}
