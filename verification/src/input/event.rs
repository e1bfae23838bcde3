//! The events the game reacts to.

use vstd::prelude::*;

verus! {

/// An event of the game.
#[derive(Debug, Clone, Copy, PartialEq, Eq, Structural)]
pub enum GameEvent {
    /// Continue to the next step(s) of the story.
    Continue,
}

} // verus!
