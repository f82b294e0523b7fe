//! A verified core for an interactive number-guessing session.
//!
//! The library owns the rules of the game: a hidden target value in
//! `[1, 100]`, decimal parsing of guesses typed as text, the three-way
//! comparison against the target, and the session state machine that
//! ends exactly when a guess is equal to the target. Reading lines and
//! printing feedback are left to the surrounding program.

use vstd::prelude::*;

pub mod basics;
pub mod digits;
pub mod parse;
pub mod session;

verus! {

/// Lowest value the hidden target can take.
pub const TARGET_MIN: u32 = 1;

/// Highest value the hidden target can take.
pub const TARGET_MAX: u32 = 100;

} // verus!
