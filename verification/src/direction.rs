//! The four ways to throw one monitor next to another, and the words that
//! name them.

use crate::text::{lowered, spells};
use vstd::prelude::*;

verus! {

/// Where the moving monitor ends up, seen from the target.
#[derive(Clone, Copy, Debug, PartialEq, Eq, Structural)]
pub enum ThrowDirection {
    Left,
    Right,
    Above,
    Under,
}

/// The direction that `word` names, whatever the case of its letters:
/// `left`, `right`, `above` or `under`.
pub open spec fn direction_of(word: Seq<char>) -> Option<ThrowDirection> {
    let w = lowered(word);
    if w == seq!['l', 'e', 'f', 't'] {
        Some(ThrowDirection::Left)
    } else if w == seq!['r', 'i', 'g', 'h', 't'] {
        Some(ThrowDirection::Right)
    } else if w == seq!['a', 'b', 'o', 'v', 'e'] {
        Some(ThrowDirection::Above)
    } else if w == seq!['u', 'n', 'd', 'e', 'r'] {
        Some(ThrowDirection::Under)
    } else {
        None
    }
}

impl ThrowDirection {
    /// Reads a direction from its name. The case of the letters does not
    /// count; any other word names no direction.
    pub fn from_str(r_action: &str) -> (r: Option<ThrowDirection>)
        ensures
            r == direction_of(r_action@),
    {
        proof {
            reveal_strlit("left");
            reveal_strlit("right");
            reveal_strlit("above");
            reveal_strlit("under");
            assert("left"@ =~= seq!['l', 'e', 'f', 't']);
            assert("right"@ =~= seq!['r', 'i', 'g', 'h', 't']);
            assert("above"@ =~= seq!['a', 'b', 'o', 'v', 'e']);
            assert("under"@ =~= seq!['u', 'n', 'd', 'e', 'r']);
        }
        if spells(r_action, "left") {
            Some(ThrowDirection::Left)
        } else if spells(r_action, "right") {
            Some(ThrowDirection::Right)
        } else if spells(r_action, "above") {
            Some(ThrowDirection::Above)
        } else if spells(r_action, "under") {
            Some(ThrowDirection::Under)
        } else {
            None
        }
    }
}

} // verus!
