//! What each request does once its input is read: validation, the call into the query
//! layer, and the outcome to report.

pub mod articles;
pub mod profiles;
pub mod tags;
pub mod users;

use vstd::prelude::*;
use crate::auth::Auth;

verus! {

/// The viewer behind an optional session: nobody where there is none.
pub open spec fn viewer_of(auth: Option<&Auth>) -> Option<i32> {
    match auth {
        Some(a) => Some(a.id),
        None => None,
    }
}

/// The identifier of the user behind an optional session.
pub fn viewer_id(auth: Option<&Auth>) -> (r: Option<i32>)
    ensures
        r == viewer_of(auth),
{
    match auth {
        Some(a) => Some(a.id),
        None => None,
    }
}

} // verus!
