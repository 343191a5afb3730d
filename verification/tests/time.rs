//! Instants and their rendering.

use realworld::time::{Timestamp, MAX_MILLIS};

#[test]
fn epoch_renders_with_milliseconds_and_z() {
    let t = Timestamp::new(0).expect("in range");
    assert_eq!(t.format(), "1970-01-01T00:00:00.000Z");
}

#[test]
fn instant_renders_exactly() {
    let t = Timestamp::new(1_000_000_000_123).expect("in range");
    assert_eq!(t.format(), "2001-09-09T01:46:40.123Z");
    let t = Timestamp::new(1_582_934_399_999).expect("in range");
    assert_eq!(t.format(), "2020-02-28T23:59:59.999Z");
}

#[test]
fn last_instant_renders() {
    let t = Timestamp::new(MAX_MILLIS).expect("in range");
    assert_eq!(t.format(), "9999-12-31T23:59:59.999Z");
    assert_eq!(t.millis(), 253_402_300_799_999);
}

#[test]
fn instants_out_of_range_are_refused() {
    assert!(Timestamp::new(-1).is_none());
    assert!(Timestamp::new(MAX_MILLIS + 1).is_none());
    assert!(Timestamp::new(i64::MIN).is_none());
    assert!(Timestamp::new(i64::MAX).is_none());
}

#[test]
fn now_lies_in_range_and_after_2020() {
    let now = Timestamp::now().expect("clock in range");
    assert!(now.millis() > 1_577_836_800_000);
    assert!(now.millis() <= MAX_MILLIS);
}

#[test]
fn plus_days_adds_whole_days() {
    let t = Timestamp::new(1_000).expect("in range");
    let later = t.plus_days(60).expect("in range");
    assert_eq!(later.millis(), 1_000 + 60 * 86_400_000);
    assert_eq!(later.seconds(), 5_184_001);
    assert!(t.is_before(&later));
    assert!(!later.is_before(&t));
    assert!(!t.is_before(&t));
}

#[test]
fn plus_days_refuses_what_leaves_the_range() {
    let t = Timestamp::new(MAX_MILLIS).expect("in range");
    assert!(t.plus_days(1).is_none());
    assert!(t.plus_days(i64::MAX).is_none());
    let t = Timestamp::new(0).expect("in range");
    assert!(t.plus_days(-1).is_none());
    assert_eq!(t.plus_days(0).expect("in range").millis(), 0);
}

#[test]
fn rendered_instants_have_one_layout() {
    for millis in [0i64, 999, 86_399_999, 951_782_400_000, 1_700_000_000_001, MAX_MILLIS] {
        let text = Timestamp::new(millis).expect("in range").format();
        let chars: Vec<char> = text.chars().collect();
        assert_eq!(chars.len(), 24);
        for (i, c) in chars.iter().enumerate() {
            match i {
                4 | 7 => assert_eq!(*c, '-'),
                10 => assert_eq!(*c, 'T'),
                13 | 16 => assert_eq!(*c, ':'),
                19 => assert_eq!(*c, '.'),
                23 => assert_eq!(*c, 'Z'),
                _ => assert!(c.is_ascii_digit()),
            }
        }
    }
    assert_eq!(Timestamp::new(951_782_400_000).expect("in range").format(), "2000-02-29T00:00:00.000Z");
}
