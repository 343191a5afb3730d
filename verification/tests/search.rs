//! Searching articles, the feed and the tag listing, on the query layer itself.

use realworld::db::articles::{
    self, ArticleCreationError, FeedArticles, FindArticles, NewArticle,
};
use realworld::db::{profiles, users, Conn};
use realworld::time::Timestamp;

const PASSWORD: &str = "qweasdzxc";

fn user(conn: &mut Conn, name: &str) -> i32 {
    let email = format!("{}@realworld.io", name);
    users::create(conn, name, &email, PASSWORD).expect("registration").id
}

fn article(conn: &mut Conn, author: i32, title: &str, tags: &[&str], at: i64) -> String {
    let tag_list: Vec<String> = tags.iter().map(|t| t.to_string()).collect();
    let slug = articles::slugify(title, false);
    let new_article = NewArticle {
        title,
        description: "d",
        body: "b",
        slug: &slug,
        author,
        tag_list: &tag_list,
    };
    let now = Timestamp::new(at).expect("in range");
    articles::insert(conn, new_article, now).expect("article").slug
}

fn slugs(found: &(Vec<realworld::models::article::ArticleJson>, i64)) -> Vec<String> {
    found.0.iter().map(|a| a.slug.clone()).collect()
}

fn five_articles(conn: &mut Conn) -> (i32, i32) {
    let a = user(conn, "a");
    let b = user(conn, "b");
    article(conn, a, "One", &["x"], 1_000);
    article(conn, b, "Two", &["x", "y"], 2_000);
    article(conn, a, "Three", &["y"], 3_000);
    article(conn, b, "Four", &[], 4_000);
    article(conn, a, "Five", &["x", "z"], 5_000);
    (a, b)
}

#[test]
fn search_without_filters_returns_all_most_recent_first() {
    let mut conn = Conn::new(false);
    five_articles(&mut conn);
    let found = articles::find(&conn, &FindArticles::default(), None);
    assert_eq!(slugs(&found), vec!["five", "four", "three", "two", "one"]);
    assert_eq!(found.1, 5);
    assert_eq!(found.0[0].created_at, "1970-01-01T00:00:05.000Z");
    assert_eq!(found.0[0].updated_at, "1970-01-01T00:00:05.000Z");
}

#[test]
fn articles_of_one_instant_keep_the_order_of_creation() {
    let mut conn = Conn::new(false);
    let a = user(&mut conn, "a");
    article(&mut conn, a, "Late", &[], 9_000);
    article(&mut conn, a, "First", &[], 5_000);
    article(&mut conn, a, "Second", &[], 5_000);
    article(&mut conn, a, "Early", &[], 1_000);
    article(&mut conn, a, "Third", &[], 5_000);
    let found = articles::find(&conn, &FindArticles::default(), None);
    assert_eq!(slugs(&found), vec!["late", "first", "second", "third", "early"]);
}

#[test]
fn default_limit_is_twenty() {
    let mut conn = Conn::new(false);
    let a = user(&mut conn, "a");
    for i in 0..25 {
        article(&mut conn, a, &format!("Article {}", i), &[], i);
    }
    let found = articles::find(&conn, &FindArticles::default(), None);
    assert_eq!(found.0.len(), 20);
    assert_eq!(found.1, 25);
    assert_eq!(found.0[0].slug, "article-24");
    assert_eq!(found.0[19].slug, "article-5");
}

#[test]
fn pages_are_no_longer_than_the_limit_and_the_total_is_the_same_on_each() {
    let mut conn = Conn::new(false);
    five_articles(&mut conn);
    let mut seen: Vec<String> = Vec::new();
    for offset in [0i64, 2, 4, 6] {
        let params = FindArticles { limit: Some(2), offset: Some(offset), ..FindArticles::default() };
        let found = articles::find(&conn, &params, None);
        assert!(found.0.len() <= 2);
        assert_eq!(found.1, 5);
        seen.extend(slugs(&found));
    }
    assert_eq!(seen, vec!["five", "four", "three", "two", "one"]);
}

#[test]
fn negative_limit_or_offset_count_as_zero_in_a_search() {
    let mut conn = Conn::new(false);
    five_articles(&mut conn);
    let params = FindArticles { limit: Some(-3), ..FindArticles::default() };
    let found = articles::find(&conn, &params, None);
    assert!(found.0.is_empty());
    assert_eq!(found.1, 5);
    let params = FindArticles { offset: Some(-3), limit: Some(1), ..FindArticles::default() };
    let found = articles::find(&conn, &params, None);
    assert_eq!(slugs(&found), vec!["five"]);
}

#[test]
fn filters_by_tag_and_author_must_both_hold() {
    let mut conn = Conn::new(false);
    five_articles(&mut conn);
    let by_tag = FindArticles { tag: Some("x".to_string()), ..FindArticles::default() };
    assert_eq!(slugs(&articles::find(&conn, &by_tag, None)), vec!["five", "two", "one"]);

    let by_author = FindArticles { author: Some("b".to_string()), ..FindArticles::default() };
    assert_eq!(slugs(&articles::find(&conn, &by_author, None)), vec!["four", "two"]);

    let both = FindArticles {
        tag: Some("x".to_string()),
        author: Some("b".to_string()),
        ..FindArticles::default()
    };
    let found = articles::find(&conn, &both, None);
    assert_eq!(slugs(&found), vec!["two"]);
    assert_eq!(found.1, 1);

    let nobody = FindArticles { author: Some("zed".to_string()), ..FindArticles::default() };
    assert_eq!(articles::find(&conn, &nobody, None).1, 0);
    let no_tag = FindArticles { tag: Some("nope".to_string()), ..FindArticles::default() };
    assert_eq!(articles::find(&conn, &no_tag, None).1, 0);
}

#[test]
fn filter_by_favoriting_user() {
    let mut conn = Conn::new(false);
    let (a, b) = five_articles(&mut conn);
    articles::favorite(&mut conn, "two", a).expect("article");
    articles::favorite(&mut conn, "five", a).expect("article");
    articles::favorite(&mut conn, "one", b).expect("article");

    let by_a = FindArticles { favorited: Some("a".to_string()), ..FindArticles::default() };
    let found = articles::find(&conn, &by_a, Some(b));
    assert_eq!(slugs(&found), vec!["five", "two"]);
    assert_eq!(found.1, 2);
    assert!(!found.0[0].favorited);
    assert_eq!(found.0[0].favorites_count, 1);

    let found = articles::find(&conn, &by_a, Some(a));
    assert!(found.0[0].favorited && found.0[1].favorited);

    let all_three = FindArticles {
        favorited: Some("a".to_string()),
        tag: Some("x".to_string()),
        author: Some("b".to_string()),
        ..FindArticles::default()
    };
    assert_eq!(slugs(&articles::find(&conn, &all_three, None)), vec!["two"]);
}

#[test]
fn favorites_of_an_unknown_name_are_an_empty_page_with_total_zero() {
    let mut conn = Conn::new(false);
    let (a, _) = five_articles(&mut conn);
    articles::favorite(&mut conn, "two", a).expect("article");
    let params = FindArticles { favorited: Some("ghost".to_string()), ..FindArticles::default() };
    let found = articles::find(&conn, &params, Some(a));
    assert!(found.0.is_empty());
    assert_eq!(found.1, 0);
}

#[test]
fn search_shows_the_author_as_the_viewer_sees_them() {
    let mut conn = Conn::new(false);
    let (a, b) = five_articles(&mut conn);
    profiles::follow(&mut conn, "a", b).expect("profile");
    let found = articles::find(&conn, &FindArticles::default(), Some(b));
    assert_eq!(found.0[0].author.username, "a");
    assert!(found.0[0].author.following);
    assert_eq!(found.0[1].author.username, "b");
    assert!(!found.0[1].author.following);
    let found = articles::find(&conn, &FindArticles::default(), Some(a));
    assert!(!found.0[0].author.following);
    let found = articles::find(&conn, &FindArticles::default(), None);
    assert!(!found.0[0].author.following);
    assert!(!found.0[0].favorited);
}

#[test]
fn feed_holds_the_articles_of_followed_authors_only() {
    let mut conn = Conn::new(false);
    let (a, b) = five_articles(&mut conn);
    let page = FeedArticles::default();
    assert!(articles::feed(&conn, &page, b).is_empty());

    profiles::follow(&mut conn, "a", b).expect("profile");
    let feed = articles::feed(&conn, &page, b);
    let found: Vec<&str> = feed.iter().map(|x| x.slug.as_str()).collect();
    assert_eq!(found, vec!["five", "three", "one"]);
    assert!(feed.iter().all(|x| x.author.username == "a" && x.author.following));
    assert!(articles::feed(&conn, &page, a).is_empty());

    let second = FeedArticles { limit: Some(1), offset: Some(1) };
    let feed = articles::feed(&conn, &second, b);
    assert_eq!(feed.len(), 1);
    assert_eq!(feed[0].slug, "three");

    profiles::unfollow(&mut conn, "a", b).expect("profile");
    assert!(articles::feed(&conn, &page, b).is_empty());
}

#[test]
fn tags_are_listed_once_each() {
    let mut conn = Conn::new(false);
    assert!(articles::tags(&conn).is_empty());
    five_articles(&mut conn);
    let mut tags = articles::tags(&conn);
    tags.sort();
    assert_eq!(tags, vec!["x", "y", "z"]);
}

#[test]
fn find_one_by_slug() {
    let mut conn = Conn::new(false);
    let (a, _) = five_articles(&mut conn);
    let found = articles::find_one(&conn, "three", Some(a)).expect("article");
    assert_eq!(found.title, "Three");
    assert_eq!(found.tag_list, vec!["y"]);
    assert_eq!(found.author.username, "a");
    assert!(articles::find_one(&conn, "Three", None).is_none());
    assert!(articles::find_one(&conn, "", None).is_none());
}

#[test]
fn insert_reports_what_stands_in_the_way() {
    let mut conn = Conn::new(false);
    let a = user(&mut conn, "a");
    let tags: Vec<String> = Vec::new();
    let now = Timestamp::new(0).expect("in range");
    let make = |slug: &'static str, author: i32| NewArticle {
        title: "T",
        description: "d",
        body: "b",
        slug,
        author,
        tag_list: &tags,
    };
    assert_eq!(
        articles::insert(&mut conn, make("", a), now).err(),
        Some(ArticleCreationError::BlankSlug)
    );
    assert_eq!(
        articles::insert(&mut conn, make("t", a + 1), now).err(),
        Some(ArticleCreationError::UnknownAuthor)
    );
    assert!(articles::insert(&mut conn, make("t", a), now).is_ok());
    assert_eq!(
        articles::insert(&mut conn, make("t", a), now).err(),
        Some(ArticleCreationError::SlugTaken)
    );
    conn.next_article_id = i32::MAX;
    assert_eq!(
        articles::insert(&mut conn, make("u", a), now).err(),
        Some(ArticleCreationError::IdsExhausted)
    );
    assert_eq!(conn.articles.len(), 1);
}

#[test]
fn create_without_suffix_collides_on_the_same_title() {
    let mut conn = Conn::new(false);
    let a = user(&mut conn, "a");
    let tags = vec!["test".to_string()];
    let first = articles::create(&mut conn, a, "Test article", "d", "b", &tags).expect("article");
    assert_eq!(first.slug, "test-article");
    assert_eq!(first.id, 1);
    assert_eq!(first.favorites_count, 0);
    assert_eq!(first.created_at, first.updated_at);
    let second = articles::create(&mut conn, a, "Test article", "d", "b", &tags);
    assert_eq!(second.err(), Some(ArticleCreationError::SlugTaken));
    let blank = articles::create(&mut conn, a, "  ", "d", "b", &tags);
    assert_eq!(blank.err(), Some(ArticleCreationError::BlankSlug));
    let lost = articles::create(&mut conn, a + 1, "Other", "d", "b", &tags);
    assert_eq!(lost.err(), Some(ArticleCreationError::UnknownAuthor));
    assert_eq!(conn.articles.len(), 1);
}

#[test]
fn create_with_suffix_takes_the_same_title_twice() {
    let mut conn = Conn::new(true);
    let a = user(&mut conn, "a");
    let tags: Vec<String> = Vec::new();
    let first = articles::create(&mut conn, a, "Test article", "d", "b", &tags).expect("article");
    let second = articles::create(&mut conn, a, "Test article", "d", "b", &tags).expect("article");
    assert!(first.slug.starts_with("test-article-"));
    assert!(second.slug.starts_with("test-article-"));
    assert_ne!(first.slug, second.slug);
    assert_eq!((first.id, second.id), (1, 2));
}
