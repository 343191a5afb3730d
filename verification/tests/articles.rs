//! Articles through the request layer.

use realworld::auth::{extract_auth_from_request, Auth};
use realworld::db::articles::{generate_suffix, UpdateArticleData};
use realworld::db::Conn;
use realworld::models::article::ArticleJson;
use realworld::routes::articles::{
    delete_article, delete_comment, favorite_article, get_article, get_articles,
    get_articles_feed, get_comments, post_articles, post_comment, put_articles,
    unfavorite_article, NewArticle, NewArticleData, NewComment, NewCommentData, UpdateArticle,
};
use realworld::routes::users::{post_users, NewUser, NewUserData};

const USERNAME: &str = "smoketest";
const EMAIL: &str = "smoketest@realworld.io";
const PASSWORD: &str = "qweasdzxc";
const SECRET: &[u8] = b"c2VjcmV0MTIz";

const ARTICLE_TITLE: &str = "Test article";
const ARTICLE_BODY: &str = "This is obviously a test article!";

fn login(conn: &mut Conn) -> Auth {
    let request = NewUser {
        user: NewUserData {
            username: Some(USERNAME.to_string()),
            email: Some(EMAIL.to_string()),
            password: Some(PASSWORD.to_string()),
        },
    };
    let user = match post_users(conn, request) {
        Ok(user) => user,
        Err(_) => panic!("cannot register"),
    };
    Auth { exp: 4_102_444_800, id: user.id, username: user.username }
}

fn create_article(conn: &mut Conn, auth: &Auth) -> ArticleJson {
    let request = NewArticle {
        article: NewArticleData {
            title: Some(ARTICLE_TITLE.to_string()),
            description: Some("Well, it's a test article".to_string()),
            body: Some(ARTICLE_BODY.to_string()),
            tag_list: vec!["test".to_string(), "foo".to_string(), "bar".to_string()],
        },
    };
    match post_articles(conn, auth, request) {
        Ok(article) => article,
        Err(_) => panic!("cannot create article"),
    }
}

#[test]
fn test_generate_suffix() {
    for len in 3..9 {
        assert_eq!(generate_suffix(len).len(), len);
    }
}

#[test]
fn test_post_articles() {
    let mut conn = Conn::new(true);
    let auth = login(&mut conn);
    let article = create_article(&mut conn, &auth);
    assert_eq!(article.title, ARTICLE_TITLE);
}

#[test]
fn test_get_article() {
    let mut conn = Conn::new(true);
    let auth = login(&mut conn);
    let slug = create_article(&mut conn, &auth).slug;
    assert!(slug.starts_with(&ARTICLE_TITLE.to_lowercase().replace(' ', "-")));

    let article = get_article(&conn, &slug, None).expect("article");
    assert_eq!(article.body, ARTICLE_BODY);
    assert_eq!(article.slug, slug);
}

#[test]
fn test_put_articles() {
    let mut conn = Conn::new(true);
    let auth = login(&mut conn);
    let slug = create_article(&mut conn, &auth).slug;

    let new_desc = "Well, it's an updated test article";
    let request = UpdateArticle {
        article: UpdateArticleData {
            title: None,
            description: Some(new_desc.to_string()),
            body: None,
            slug: None,
            tag_list: Some(vec!["test".to_string(), "foo".to_string()]),
        },
    };
    let article = put_articles(&mut conn, &slug, request, &auth).expect("article");
    assert_eq!(article.description, new_desc);
    assert_eq!(article.tag_list, vec!["test".to_string(), "foo".to_string()]);
    assert_eq!(article.title, ARTICLE_TITLE);
    assert_eq!(article.body, ARTICLE_BODY);
    assert_eq!(article.slug, slug);
}

#[test]
fn test_delete_article() {
    let mut conn = Conn::new(true);
    let auth = login(&mut conn);
    let slug = create_article(&mut conn, &auth).slug;

    delete_article(&mut conn, &slug, &auth);
    assert!(get_article(&conn, &slug, None).is_none());
}

#[test]
fn test_delete_article_anonymously() {
    let mut conn = Conn::new(true);
    let auth = login(&mut conn);
    let slug = create_article(&mut conn, &auth).slug;

    assert!(extract_auth_from_request(None, SECRET).is_none());
    assert!(get_article(&conn, &slug, None).is_some());
}

#[test]
fn test_favorite_article() {
    let mut conn = Conn::new(true);
    let auth = login(&mut conn);
    let slug = create_article(&mut conn, &auth).slug;

    let article = favorite_article(&mut conn, &slug, &auth).expect("article");
    assert!(article.favorited);
    assert_eq!(article.favorites_count, 1);
}

#[test]
fn test_unfavorite_article() {
    let mut conn = Conn::new(true);
    let auth = login(&mut conn);
    let slug = create_article(&mut conn, &auth).slug;

    let article = unfavorite_article(&mut conn, &slug, &auth).expect("article");
    assert!(!article.favorited);
    assert_eq!(article.favorites_count, 0);
}

#[test]
fn test_get_articles() {
    let mut conn = Conn::new(true);
    let auth = login(&mut conn);
    create_article(&mut conn, &auth);

    let (articles, num) = get_articles(&conn, None, None, None, None, None, None);
    assert!(num > 0);
    assert_eq!(num, 1);
    assert_eq!(articles.len(), 1);
}

#[test]
fn test_get_articles_with_params() {
    let mut conn = Conn::new(true);
    let auth = login(&mut conn);
    create_article(&mut conn, &auth);

    let (articles, num) = get_articles(
        &conn,
        Some("foo".to_string()),
        Some("smoketest".to_string()),
        Some("smoketest".to_string()),
        Some(1),
        Some(0),
        None,
    );
    assert_eq!(num, 0);
    assert!(articles.is_empty());
}

#[test]
fn test_get_articles_fedd() {
    let mut conn = Conn::new(true);
    let auth = login(&mut conn);

    let (articles, count) = get_articles_feed(&conn, Some(1), Some(0), &auth);
    assert!(articles.is_empty());
    assert_eq!(count, 0);
}

#[test]
fn test_commenting() {
    let mut conn = Conn::new(true);
    let auth = login(&mut conn);
    let slug = create_article(&mut conn, &auth).slug;

    let request = NewComment { comment: NewCommentData { body: Some("Like!".to_string()) } };
    let comment = match post_comment(&mut conn, &slug, request, &auth) {
        Ok(comment) => comment,
        Err(_) => panic!("cannot comment"),
    };
    assert_eq!(comment.body, "Like!");
    assert_eq!(comment.author.username, USERNAME);
    let comment_id = comment.id;
    assert_eq!(get_comments(&conn, &slug, None).len(), 1);

    delete_comment(&mut conn, &slug, comment_id, &auth);
    assert_eq!(get_comments(&conn, &slug, None).len(), 0);
}

#[test]
fn test_get_comment() {
    let mut conn = Conn::new(true);
    let auth = login(&mut conn);
    let slug = create_article(&mut conn, &auth).slug;

    let comments = get_comments(&conn, &slug, None);
    assert_eq!(comments.len(), 0);
}
