//! The tag listing.

use realworld::db::Conn;
use realworld::routes::tags::get_tags;

#[test]
fn test_get_tags() {
    let conn = Conn::new(true);
    let tags = get_tags(&conn);
    assert!(tags.is_empty());
}
