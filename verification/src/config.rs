//! Constants shared by the whole library.

use vstd::prelude::*;

verus! {

/// Layout in which instants are rendered: ISO 8601 with milliseconds and a literal `Z`.
pub const DATE_FORMAT: &'static str = "%Y-%m-%dT%H:%M:%S%.3fZ";

/// Secret used to sign tokens when the deployment configures none.
pub const SECRET: &'static str = "secret123";

/// What an authorization header starts with, before the token.
pub const TOKEN_PREFIX: &'static str = "Token ";

/// Number of articles on a page when the caller names no limit.
pub const DEFAULT_LIMIT: i64 = 20;

/// Length of the random suffix appended to a slug.
pub const SUFFIX_LEN: usize = 6;

/// Days for which a freshly issued token stays valid.
pub const TOKEN_DAYS: i64 = 60;

} // verus!
