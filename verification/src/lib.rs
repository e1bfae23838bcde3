//! A library for building visual novels.
//!
//! The heart of the crate is a small scripting language for dialogue and
//! staging, together with the story engine that walks through parsed
//! scripts step by step.  Scripts are plain text; [`script::parser::translate`]
//! turns a text into a table of named anchors, each holding an ordered list
//! of [`script::ScriptStep`]s, and [`game::Game`] executes those steps
//! against the modelled stage (characters, background, text boxes, music).
//!
//! Rendering, audio output and file access are left to the embedding
//! application; the library works on plain values (names, positions,
//! byte buffers) throughout.

pub mod animation;
pub mod character;
pub mod error;
pub mod game;
pub mod gui;
pub mod input;
pub mod music;
pub mod script;
pub mod strmap;
pub mod util;

use vstd::prelude::*;

verus! {

/// A decimal number as written in a script: `(-1)^neg * mantissa * 10^exp`.
///
/// Script coordinates are kept exactly as parsed, as a sign, an integer
/// mantissa and a power of ten; the embedding application converts them
/// to whatever numeric type its renderer wants.
#[derive(Clone, Copy, Debug, PartialEq, Eq, Structural)]
pub struct Num {
    /// True if the number is negative.
    pub neg: bool,
    /// The significant digits, read as an integer.
    pub mantissa: u64,
    /// The power of ten the mantissa is scaled by.
    pub exp: i32,
}

impl Num {
    /// The number zero, also the fallback for unreadable coordinate text.
    pub fn zero() -> (r: Num)
        ensures
            r == (Num { neg: false, mantissa: 0, exp: 0 }),
    {
        Num { neg: false, mantissa: 0, exp: 0 }
    }
}

/// A position on the stage, in grid coordinates.
#[derive(Clone, Copy, Debug, PartialEq, Eq, Structural)]
pub struct Position {
    /// The horizontal coordinate.
    pub x: Num,
    /// The vertical coordinate.
    pub y: Num,
}

} // verus!
