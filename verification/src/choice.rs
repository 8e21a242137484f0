//! A 1-of-2 selection, as application protocols present it to a user.

use vstd::prelude::*;

verus! {

/// One of two values the peer is known to hold.
#[derive(Copy, Clone, PartialEq, Eq, Structural, Debug)]
pub enum Choice {
    Left,
    Right,
}

/// Maps a selection bit to the choice it names: `0` is left, `1` is right.
/// Any other number is not a selection.
pub fn read_choice(choice: u32) -> (r: Choice)
    requires
        choice <= 1,
    ensures
        r == (if choice == 0 {
            Choice::Left
        } else {
            Choice::Right
        }),
{
    if choice == 0 {
        Choice::Left
    } else {
        Choice::Right
    }
}

} // verus!
