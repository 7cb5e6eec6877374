//! The categories of notifications.

use vstd::prelude::*;
use crate::text::same_text;

verus! {

pub const GOVERNANCE: &'static str = "gov";

pub const TREASURY: &'static str = "treasury";

pub const MEMBER: &'static str = "member";

pub const SYSTEM: &'static str = "system";

/// Whether a name is one of the four categories.
pub open spec fn is_category(name: Seq<char>) -> bool {
    name == GOVERNANCE@ || name == TREASURY@ || name == MEMBER@ || name == SYSTEM@
}

/// The four categories.
pub fn all() -> (categories: (&'static str, &'static str, &'static str, &'static str))
    ensures
        categories.0@ == GOVERNANCE@,
        categories.1@ == TREASURY@,
        categories.2@ == MEMBER@,
        categories.3@ == SYSTEM@,
{
    (GOVERNANCE, TREASURY, MEMBER, SYSTEM)
}

/// Whether `name` is one of the four categories.
pub fn is_valid(name: &str) -> (valid: bool)
    ensures
        valid == is_category(name@),
{
    let (gov, treasury, member, system) = all();
    same_text(name, gov) || same_text(name, treasury) || same_text(name, member) || same_text(
        name,
        system,
    )
}

} // verus!
