//! A minimal interpreter for a tape-based, bracket-delimited instruction
//! language over a fixed 300-cell byte memory.
//!
//! The library has two parts, used in sequence: the decoder turns raw
//! program text into an ordered sequence of [`Operation`]s, silently
//! skipping every unrecognized character, and the executor runs that
//! sequence against a byte tape with a movable pointer, resolving loops
//! by scanning for the matching bracket boundary on demand.

use vstd::prelude::*;

pub mod decode;
pub mod machine;
pub mod matching;
pub mod run;

verus! {

/// One decoded instruction. The variant set is closed: exactly eight
/// operations exist and none carries a payload.
#[derive(Clone, Copy, Debug, PartialEq, Eq, Structural)]
pub enum Operation {
    /// `<` — move the pointer one cell to the left.
    Left,
    /// `>` — move the pointer one cell to the right.
    Right,
    /// `+` — increment the current cell, wrapping 255 to 0.
    Increment,
    /// `-` — decrement the current cell, wrapping 0 to 255.
    Decrement,
    /// `.` — write the current cell to the output stream.
    Output,
    /// `,` — read one byte from the input stream into the current cell.
    Accept,
    /// `[` — jump past the matching `]` when the current cell is 0.
    Forward,
    /// `]` — jump back to the matching `[` when the current cell is not 0.
    Backward,
}

} // verus!
