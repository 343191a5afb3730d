//! Instants with millisecond precision and their textual rendering.

use vstd::prelude::*;
use crate::config::DATE_FORMAT;

verus! {

/// Last millisecond of the year 9999, counted from the Unix epoch.
pub const MAX_MILLIS: i64 = 253_402_300_799_999;

/// Text that `chrono` produces for the instant `millis` milliseconds after the Unix epoch
/// in UTC, under [`DATE_FORMAT`].
pub uninterp spec fn iso8601_millis(millis: int) -> Seq<char>;

/// Whether `c` is a decimal digit.
pub open spec fn is_digit(c: char) -> bool {
    '0' <= c && c <= '9'
}

/// Whether `text` has the layout `YYYY-MM-DDThh:mm:ss.fffZ`: digits but for the
/// separators, three of them for the milliseconds, and a literal `Z` at the end.
pub open spec fn iso8601_shape(text: Seq<char>) -> bool {
    &&& text.len() == 24
    &&& text[4] == '-' && text[7] == '-' && text[10] == 'T' && text[13] == ':'
    &&& text[16] == ':' && text[19] == '.' && text[23] == 'Z'
    &&& forall|i: int|
        0 <= i < 23 && i != 4 && i != 7 && i != 10 && i != 13 && i != 16 && i != 19 ==> is_digit(
            #[trigger] text[i],
        )
}

/// Renders an instant through `chrono::DateTime::<Utc>::from_timestamp_millis` followed by
/// `DateTime::format` with [`DATE_FORMAT`].
///
/// Trusted: the result is the text named by [`iso8601_millis`], and it has the layout that
/// the format spells out, the year taking four digits. Instants outside the years 1970 to
/// 9999 are excluded, so the conversion from milliseconds cannot fail.
#[verifier::external_body]
fn format_millis(millis: i64) -> (text: String)
    requires
        0 <= millis <= MAX_MILLIS,
    ensures
        text@ == iso8601_millis(millis as int),
        iso8601_shape(text@),
{
    chrono::DateTime::from_timestamp_millis(millis).unwrap().format(DATE_FORMAT).to_string()
}

/// Reads the system clock through `chrono::Utc::now`, as milliseconds since the Unix epoch.
///
/// Trusted, and nothing is promised of the reading.
#[verifier::external_body]
fn clock_millis() -> (millis: i64) {
    chrono::Utc::now().timestamp_millis()
}

/// An instant between the start of 1970 and the end of 9999, in UTC.
#[derive(Clone, Copy, Debug)]
pub struct Timestamp {
    millis: i64,
}

impl View for Timestamp {
    type V = int;

    closed spec fn view(&self) -> int {
        self.millis as int
    }
}

impl Timestamp {
    #[verifier::type_invariant]
    spec fn in_range(self) -> bool {
        0 <= self.millis <= MAX_MILLIS
    }

    /// Whether `millis` milliseconds after the epoch can be held by a [`Timestamp`].
    pub open spec fn valid_millis(millis: int) -> bool {
        0 <= millis <= MAX_MILLIS
    }

    /// The instant `millis` milliseconds after the Unix epoch, if it lies in range.
    pub fn new(millis: i64) -> (r: Option<Timestamp>)
        ensures
            r is Some <==> Self::valid_millis(millis as int),
            r matches Some(t) ==> t@ == millis,
    {
        if 0 <= millis && millis <= MAX_MILLIS {
            Some(Timestamp { millis })
        } else {
            None
        }
    }

    /// The current instant, if the system clock reads within range.
    pub fn now() -> (r: Option<Timestamp>)
        ensures
            r matches Some(t) ==> Self::valid_millis(t@),
    {
        Timestamp::new(clock_millis())
    }

    /// Milliseconds since the Unix epoch.
    pub fn millis(&self) -> (m: i64)
        ensures
            m == self@,
            Self::valid_millis(self@),
    {
        proof {
            use_type_invariant(self);
        }
        self.millis
    }

    /// Whether `self` is strictly earlier than `other`.
    pub fn is_before(&self, other: &Timestamp) -> (b: bool)
        ensures
            b == (self@ < other@),
    {
        self.millis < other.millis
    }

    /// The instant `days` whole days after `self`, if it lies in range.
    pub fn plus_days(&self, days: i64) -> (r: Option<Timestamp>)
        ensures
            r is Some <==> Self::valid_millis(self@ + days * 86_400_000),
            r matches Some(t) ==> t@ == self@ + days * 86_400_000,
    {
        proof {
            use_type_invariant(self);
        }
        match days.checked_mul(86_400_000) {
            Some(delta) => match self.millis.checked_add(delta) {
                Some(sum) => Timestamp::new(sum),
                None => None,
            },
            None => None,
        }
    }

    /// Whole seconds since the Unix epoch.
    pub fn seconds(&self) -> (s: i64)
        ensures
            s == self@ / 1000,
    {
        proof {
            use_type_invariant(self);
        }
        self.millis / 1000
    }

    /// The instant as text with millisecond precision and a trailing `Z`.
    pub fn format(&self) -> (text: String)
        ensures
            text@ == iso8601_millis(self@),
            iso8601_shape(text@),
    {
        proof {
            use_type_invariant(self);
        }
        format_millis(self.millis)
    }
}

} // verus!
