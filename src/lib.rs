//! A typing-speed game: the session state machine, its metrics and the
//! classification of each character for display.
use vstd::prelude::*;

pub mod facts;
pub mod keybinds;
pub mod phrase;
pub mod typing;

verus! {

} // verus!
