//! The chassis gate: on which kinds of machine the daemon works.

use vstd::prelude::*;
use crate::text::str_eq;

verus! {

/// The word that admits every chassis type.
pub const ALL_CHASSIS_TYPES: &'static str = "all";

/// `allowed` holds the text `wanted`.
pub open spec fn holds_text(allowed: Seq<&str>, wanted: Seq<char>) -> bool {
    exists|i: int| 0 <= i < allowed.len() && (#[trigger] allowed[i])@ == wanted
}

/// Whether the daemon works on a machine of type `chassis_type`: the type is
/// among the allowed ones, or `all` is.
pub fn is_chassis_allowed(chassis_type: &str, allowed_chassis_types: &[&str]) -> (ok: bool)
    ensures
        ok == (holds_text(allowed_chassis_types@, ALL_CHASSIS_TYPES@) || holds_text(
            allowed_chassis_types@,
            chassis_type@,
        )),
{
    let mut i: usize = 0;
    while i < allowed_chassis_types.len()
        invariant
            i <= allowed_chassis_types.len(),
            forall|j: int|
                0 <= j < i ==> (#[trigger] allowed_chassis_types@[j])@ != ALL_CHASSIS_TYPES@
                    && allowed_chassis_types@[j]@ != chassis_type@,
        decreases allowed_chassis_types.len() - i,
    {
        let item = allowed_chassis_types[i];
        if str_eq(item, ALL_CHASSIS_TYPES) || str_eq(item, chassis_type) {
            return true;
        }
        i += 1;
    }
    false
}

} // verus!
