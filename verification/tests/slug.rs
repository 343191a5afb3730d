//! Slugs and their random suffix.

use realworld::config::SUFFIX_LEN;
use realworld::db::articles::{generate_suffix, slugify, with_suffix};

#[test]
fn slug_is_the_lowercase_hyphenated_title() {
    assert_eq!(slugify("Test article", false), "test-article");
    assert_eq!(slugify("My Test String!!!1!1", false), "my-test-string-1-1");
    assert_eq!(slugify("  --test_-_cool", false), "test-cool");
    assert_eq!(slugify("You & Me", false), "you-me");
}

#[test]
fn slug_transliterates_what_is_not_ascii() {
    assert_eq!(slugify("Æúű--cool?", false), "aeuu-cool");
}

#[test]
fn slug_of_a_blank_title_is_empty() {
    assert_eq!(slugify("", false), "");
    assert_eq!(slugify("   ", false), "");
    assert_eq!(slugify("!!!", false), "");
}

#[test]
fn suffixed_slug_starts_with_the_plain_slug() {
    let slug = slugify("Test article", true);
    assert!(slug.starts_with("test-article-"));
    assert_eq!(slug.len(), "test-article".len() + 1 + SUFFIX_LEN);
    let suffix = &slug["test-article-".len()..];
    assert!(suffix.chars().all(|c| c.is_ascii_alphanumeric()));
}

#[test]
fn suffix_has_the_length_asked_for_and_only_letters_and_digits() {
    assert_eq!(generate_suffix(0), "");
    for len in [1usize, 6, 64] {
        let suffix = generate_suffix(len);
        assert_eq!(suffix.chars().count(), len);
        assert!(suffix.chars().all(|c| c.is_ascii_alphanumeric()));
    }
}

#[test]
fn with_suffix_joins_by_a_hyphen() {
    assert_eq!(with_suffix("test-article".to_string(), "aB3dE9"), "test-article-aB3dE9");
    assert_eq!(with_suffix(String::new(), "x"), "-x");
}

#[test]
fn slugs_are_made_of_lowercase_letters_digits_and_single_hyphens() {
    for title in ["Test article", "  --A  B--  ", "Ünïcödé & Co. 2024!", "a_b-c d", "日本語 text"] {
        let slug = slugify(title, false);
        assert!(slug.chars().all(|c| c.is_ascii_lowercase() || c.is_ascii_digit() || c == '-'));
        assert!(!slug.starts_with('-') && !slug.ends_with('-'));
        assert!(!slug.contains("--"));
        let suffixed = slugify(title, true);
        assert!(suffixed.starts_with(&slug));
        assert!(suffixed.chars().all(|c| c.is_ascii_alphanumeric() || c == '-'));
    }
}
