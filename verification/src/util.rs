//! Reading optional fields of a request.

use vstd::prelude::*;
use crate::errors::{with_code, Errors};

verus! {

/// The text of a field. A missing field is recorded in `errors` as blank and read as the
/// empty text.
pub fn extract_string<'a>(
    maybe_string: &'a Option<String>,
    field_name: &'static str,
    errors: &mut Errors,
) -> (text: &'a str)
    requires
        old(errors).wf(),
    ensures
        final(errors).wf(),
        maybe_string matches Some(s) ==> text@ == s@ && final(errors)@ == old(errors)@,
        maybe_string is None ==> text@.len() == 0 && final(errors)@ == with_code(
            old(errors)@,
            field_name@,
            "can't be blank"@,
        ),
{
    match maybe_string {
        Some(s) => s.as_str(),
        None => {
            errors.add(field_name, "can't be blank");
            proof {
                reveal_strlit("");
            }
            ""
        },
    }
}

} // verus!
