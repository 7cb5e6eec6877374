//! The severity levels of notifications.

use vstd::prelude::*;
use crate::text::same_text;

verus! {

pub const LOW: &'static str = "low";

pub const MEDIUM: &'static str = "medium";

pub const HIGH: &'static str = "high";

/// Whether a name is one of the three severity levels.
pub open spec fn is_level(name: Seq<char>) -> bool {
    name == LOW@ || name == MEDIUM@ || name == HIGH@
}

/// The three severity levels, from the lowest to the highest.
pub fn all() -> (levels: (&'static str, &'static str, &'static str))
    ensures
        levels.0@ == LOW@,
        levels.1@ == MEDIUM@,
        levels.2@ == HIGH@,
{
    (LOW, MEDIUM, HIGH)
}

/// Whether `name` is one of the three severity levels.
pub fn is_valid(name: &str) -> (valid: bool)
    ensures
        valid == is_level(name@),
{
    let (low, medium, high) = all();
    same_text(name, low) || same_text(name, medium) || same_text(name, high)
}

} // verus!
