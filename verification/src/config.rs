//! What is fixed when the firmware is built and that the decisions depend
//! on.

use vstd::prelude::*;

verus! {

/// How the relay behaves once a valid card has been shown.
#[derive(Debug, PartialEq, Eq, Clone, Copy)]
pub enum LatchMode {
    /// The relay stays on until another card is shown.
    Latching,
    /// The relay stays on for this many milliseconds.
    Timed(u64),
}

} // verus!
