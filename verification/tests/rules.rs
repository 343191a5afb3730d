//! The rules of the store, tested at run time.

use realworld::db::articles::{self, NewArticle};
use realworld::db::check::{count_pairs, pairs_distinct};
use realworld::db::{comments, profiles, users, Conn};
use realworld::time::Timestamp;

const PASSWORD: &str = "qweasdzxc";

fn filled() -> Conn {
    let mut conn = Conn::new(false);
    let a = users::create(&mut conn, "a", "a@realworld.io", PASSWORD).expect("user").id;
    let b = users::create(&mut conn, "b", "b@realworld.io", PASSWORD).expect("user").id;
    let tags = vec!["x".to_string()];
    for (title, author, at) in [("One", a, 1_000), ("Two", b, 2_000), ("Three", a, 2_000)] {
        let slug = articles::slugify(title, false);
        let new_article = NewArticle {
            title,
            description: "d",
            body: "b",
            slug: &slug,
            author,
            tag_list: &tags,
        };
        articles::insert(&mut conn, new_article, Timestamp::new(at).expect("in range"))
            .expect("article");
    }
    articles::favorite(&mut conn, "one", b).expect("article");
    articles::favorite(&mut conn, "two", a).expect("article");
    comments::create(&mut conn, b, "one", "Like!").expect("comment");
    profiles::follow(&mut conn, "a", b).expect("profile");
    conn
}

#[test]
fn stores_made_by_the_operations_obey_the_rules() {
    assert!(Conn::new(true).is_well_formed());
    let mut conn = filled();
    assert!(conn.is_well_formed());
    articles::unfavorite(&mut conn, "one", 2).expect("article");
    articles::delete(&mut conn, "two", 2);
    profiles::unfollow(&mut conn, "a", 2).expect("profile");
    comments::delete(&mut conn, 1, "one", 1);
    assert!(conn.is_well_formed());
    assert!(conn.users_ok() && conn.articles_ok() && conn.comments_ok() && conn.links_ok());
}

#[test]
fn a_name_or_an_address_held_twice_breaks_the_rules() {
    let mut conn = filled();
    conn.users[1].username = "a".to_string();
    assert!(!conn.users_ok());
    assert!(!conn.is_well_formed());
    conn.users[1].username = "b".to_string();
    assert!(conn.users_ok());

    conn.users[1].email = "a@realworld.io".to_string();
    assert!(!conn.users_ok());
    conn.users[1].email = "b@realworld.io".to_string();

    conn.users[1].id = 1;
    assert!(!conn.users_ok());
    conn.users[1].id = 2;

    conn.next_user_id = 2;
    assert!(!conn.users_ok());
    conn.next_user_id = 3;

    conn.users[0].id = 0;
    assert!(!conn.users_ok());
    conn.users[0].id = 1;
    assert!(conn.is_well_formed());
}

#[test]
fn a_counter_that_differs_from_the_favorites_breaks_the_rules() {
    let mut conn = filled();
    assert!(conn.articles_ok());
    assert_eq!(conn.articles[1].favorites_count, 0);
    conn.articles[1].favorites_count = 1;
    assert!(!conn.articles_ok());
    conn.articles[1].favorites_count = -1;
    assert!(!conn.articles_ok());
    conn.articles[1].favorites_count = 0;
    assert!(conn.articles_ok());

    conn.favorites.pop();
    assert!(!conn.articles_ok());
    assert!(conn.links_ok());
}

#[test]
fn articles_out_of_order_or_with_one_slug_break_the_rules() {
    let mut conn = filled();
    let slugs: Vec<String> = conn.articles.iter().map(|a| a.slug.clone()).collect();
    assert_eq!(slugs, vec!["two", "three", "one"]);
    conn.articles.swap(1, 2);
    assert!(!conn.articles_ok());
    conn.articles.swap(1, 2);
    conn.articles.swap(0, 1);
    assert!(conn.articles_ok());
    conn.articles.swap(0, 1);

    conn.articles[0].slug = "one".to_string();
    assert!(!conn.articles_ok());
    conn.articles[0].slug = "two".to_string();

    conn.articles[0].author = 9;
    assert!(!conn.articles_ok());
    conn.articles[0].author = 2;

    conn.next_article_id = 3;
    assert!(!conn.articles_ok());
    conn.next_article_id = 4;
    assert!(conn.is_well_formed());
}

#[test]
fn rows_that_point_nowhere_break_the_rules() {
    let mut conn = filled();
    conn.comments[0].article = 9;
    assert!(!conn.comments_ok());
    conn.comments[0].article = 1;
    conn.comments[0].author = 9;
    assert!(!conn.comments_ok());
    conn.comments[0].author = 2;
    assert!(conn.comments_ok());

    for pair in [(2, 1), (1, 9), (9, 1)] {
        conn.follows.push(pair);
        assert!(!conn.links_ok());
        conn.follows.pop();
    }
    for pair in [(9, 1), (1, 9), (2, 1)] {
        conn.favorites.push(pair);
        assert!(!conn.links_ok());
        conn.favorites.pop();
    }
    assert!(conn.is_well_formed());
    conn.articles.remove(0);
    assert!(!conn.is_well_formed());
}

#[test]
fn pairs_are_counted_by_article_and_told_apart() {
    let pairs = vec![(1, 5), (2, 5), (1, 6)];
    assert_eq!(count_pairs(&pairs, 5), 2);
    assert_eq!(count_pairs(&pairs, 6), 1);
    assert_eq!(count_pairs(&pairs, 1), 0);
    assert_eq!(count_pairs(&Vec::new(), 5), 0);
    assert!(pairs_distinct(&pairs));
    assert!(pairs_distinct(&Vec::new()));
    assert!(!pairs_distinct(&vec![(1, 5), (2, 5), (1, 5)]));
}

#[test]
fn articles_are_found_by_identifier() {
    let conn = filled();
    assert_eq!(conn.article_index(1), Some(2));
    assert_eq!(conn.article_index(2), Some(0));
    assert_eq!(conn.article_index(3), Some(1));
    assert_eq!(conn.article_index(4), None);
    assert_eq!(conn.user_index(2), Some(1));
    assert_eq!(conn.comment_index(1), Some(0));
    assert_eq!(conn.comment_index(2), None);
}
