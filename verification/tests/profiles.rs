//! Profiles and the follow graph through the request layer.

use realworld::auth::Auth;
use realworld::db::users;
use realworld::db::Conn;
use realworld::routes::profiles::{follow, get_profile, unfollow};

const USERNAME: &str = "smoketest";
const EMAIL: &str = "smoketest@realworld.io";
const PASSWORD: &str = "qweasdzxc";

fn login(conn: &mut Conn) -> Auth {
    let user = users::create(conn, USERNAME, EMAIL, PASSWORD).expect("registration");
    Auth { exp: 4_102_444_800, id: user.id, username: user.username }
}

#[test]
fn test_get_profile() {
    let mut conn = Conn::new(true);
    let auth = login(&mut conn);
    let profile = get_profile(&conn, USERNAME, Some(&auth)).expect("profile");
    assert_eq!(profile.username, USERNAME);
    assert!(!profile.following);
}

#[test]
fn test_follow_and_unfollow() {
    let mut conn = Conn::new(true);
    let auth = login(&mut conn);
    let author = "author";
    users::create(&mut conn, author, "author@realworld.io", PASSWORD).expect("registration");

    let profile = follow(&mut conn, author, &auth).expect("profile");
    assert_eq!(profile.username, author);
    assert!(profile.following);
    assert!(get_profile(&conn, author, Some(&auth)).expect("profile").following);

    let profile = unfollow(&mut conn, author, &auth).expect("profile");
    assert_eq!(profile.username, author);
    assert!(!profile.following);
    assert!(!get_profile(&conn, author, Some(&auth)).expect("profile").following);
}
