//! The tag listing.

use vstd::prelude::*;
use crate::db::articles::is_tag;
use crate::db::Conn;

verus! {

/// Every tag in use, each once.
pub fn get_tags(conn: &Conn) -> (r: Vec<String>)
    ensures
        r.deep_view().no_duplicates(),
        forall|tag: Seq<char>| #[trigger] r.deep_view().contains(tag) <==> is_tag(conn@, tag),
{
    crate::db::articles::tags(conn)
}

} // verus!
