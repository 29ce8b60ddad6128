//! The keys the game reacts to.

use vstd::prelude::*;

verus! {

/// A key press, reduced to what the game distinguishes.
#[derive(Copy, Clone, Debug, PartialEq, Eq, Structural)]
pub enum KeyCode {
    /// A character key.
    Char(char),
    /// The escape key.
    Esc,
    /// The enter key.
    Enter,
    /// Any other key.
    Other,
}

} // verus!
