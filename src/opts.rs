//! Host options: where the program comes from, the clock and the tone.
use vstd::prelude::*;

verus! {

/// Program arguments
pub struct Opts {
    /// Rom location
    pub rom: Option<String>,
    /// Steps per clock cycle.
    pub clock: usize,
    /// Disable sound
    pub no_sound: bool,
    /// Sound frequency
    pub beep_freq: u32,
}

} // verus!
