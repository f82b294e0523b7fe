//! The guessing session: a hidden target value drawn once at the
//! start, and an iteration step that judges one line of input against
//! it. The session ends exactly when a guess is equal to the target.

use vstd::prelude::*;
use rand::Rng;
use crate::TARGET_MIN;
use crate::TARGET_MAX;
use crate::digits::decimal_of;
use crate::parse::parse_guess;
use crate::parse::parsed;
use crate::parse::lemma_decimal_round_trip;

verus! {

/// Three-way result of holding a guess against the hidden target.
#[derive(Clone, Copy, Debug, PartialEq, Eq, Structural)]
pub enum ComparisonOutcome {
    Less,
    Greater,
    Equal,
}

/// What one iteration did with the line it was handed: either the line
/// did not parse as a guess and the iteration was discarded, or the
/// guess was compared against the target.
#[derive(Clone, Copy, Debug, PartialEq, Eq, Structural)]
pub enum IterationOutcome {
    ParseFailure,
    Compared(ComparisonOutcome),
}

/// Where the session stands. `Evaluating` is transient: it is entered
/// and left again within a single iteration, so between iterations the
/// session is either awaiting input or won.
#[derive(Clone, Copy, Debug, PartialEq, Eq, Structural)]
pub enum SessionState {
    AwaitingInput,
    Evaluating,
    Won,
}

/// The three-way comparison of a guess against the target.
pub open spec fn compare_guess(g: u32, target: u32) -> ComparisonOutcome {
    if g < target {
        ComparisonOutcome::Less
    } else if g > target {
        ComparisonOutcome::Greater
    } else {
        ComparisonOutcome::Equal
    }
}

/// One interactive guessing session. It owns the hidden target for its
/// whole lifetime; nothing regenerates the target once the session has
/// started.
pub struct GuessingSession {
    target: u32,
    state: SessionState,
}

impl GuessingSession {
    /// The hidden target value.
    pub closed spec fn target(self) -> u32 {
        self.target
    }

    /// Where the session's state machine stands.
    pub closed spec fn state(self) -> SessionState {
        self.state
    }

    /// A session is well formed when its target lies in
    /// `[TARGET_MIN, TARGET_MAX]`.
    pub open spec fn wf(self) -> bool {
        TARGET_MIN <= self.target() <= TARGET_MAX
    }

    /// Begin a session around a target the caller fixes. Useful when
    /// the target is decided elsewhere, and for exercising the session
    /// deterministically.
    pub fn with_target(target: u32) -> (r: GuessingSession)
        requires
            TARGET_MIN <= target <= TARGET_MAX,
        ensures
            r.wf(),
            r.target() == target,
            r.state() is AwaitingInput,
    {
        GuessingSession { target, state: SessionState::AwaitingInput }
    }

    /// Begin a session whose target is drawn from
    /// `[TARGET_MIN, TARGET_MAX]`. Always succeeds; the target then
    /// stays fixed for the session's lifetime.
    pub fn start() -> (r: GuessingSession)
        ensures
            r.wf(),
            r.state() is AwaitingInput,
    {
        GuessingSession::with_target(random_in_range(TARGET_MIN, TARGET_MAX))
    }

    /// The hidden target value.
    pub fn target_value(&self) -> (r: u32)
        ensures
            r == self.target(),
    {
        self.target
    }

    /// Whether the target has been guessed and the session is over.
    pub fn is_won(&self) -> (r: bool)
        ensures
            r == (self.state() is Won),
    {
        match self.state {
            SessionState::Won => true,
            _ => false,
        }
    }

    /// One iteration of the read–parse–compare loop, judging the line
    /// the caller read.
    ///
    /// A line that does not parse as a guess is discarded: no
    /// comparison happens and the session keeps awaiting input. A line
    /// that parses is compared three ways against the target; the
    /// session moves to `Won` exactly when the guess equals the
    /// target, and otherwise keeps awaiting input. The target itself
    /// never changes.
    pub fn run_iteration(&mut self, line: &str) -> (r: IterationOutcome)
        requires
            old(self).wf(),
            old(self).state() is AwaitingInput,
        ensures
            final(self).wf(),
            final(self).target() == old(self).target(),
            match parsed(line@) {
                None => r is ParseFailure && final(self).state() is AwaitingInput,
                Some(g) => {
                    &&& r == IterationOutcome::Compared(compare_guess(g, old(self).target()))
                    &&& (g == old(self).target() <==> final(self).state() is Won)
                    &&& (g != old(self).target() ==> final(self).state() is AwaitingInput)
                },
            },
    {
        match parse_guess(line) {
            None => IterationOutcome::ParseFailure,
            Some(g) => {
                self.state = SessionState::Evaluating;
                let outcome = if g < self.target {
                    ComparisonOutcome::Less
                } else if g > self.target {
                    ComparisonOutcome::Greater
                } else {
                    ComparisonOutcome::Equal
                };
                self.state = match outcome {
                    ComparisonOutcome::Equal => SessionState::Won,
                    _ => SessionState::AwaitingInput,
                };
                IterationOutcome::Compared(outcome)
            },
        }
    }
}

/// Feedback for an outcome, worded as the player sees it.
pub fn feedback_message(outcome: ComparisonOutcome) -> (r: &'static str)
    ensures
        outcome is Less ==> r@ == "Too small!"@,
        outcome is Greater ==> r@ == "Too big!"@,
        outcome is Equal ==> r@ == "You win!"@,
{
    match outcome {
        ComparisonOutcome::Less => "Too small!",
        ComparisonOutcome::Greater => "Too big!",
        ComparisonOutcome::Equal => "You win!",
    }
}

/// Typing the exact decimal text of the target always counts as
/// guessing the target itself, compares `Equal`, and so ends the
/// session, whichever value in `[TARGET_MIN, TARGET_MAX]` the target
/// has.
pub proof fn lemma_exact_text_hits_target(target: u32)
    requires
        TARGET_MIN <= target <= TARGET_MAX,
    ensures
        parsed(decimal_of(target as nat)) == Some(target),
        compare_guess(target, target) is Equal,
{
    lemma_decimal_round_trip(target);
}

/// Relies on rand's `thread_rng` and `Rng::gen_range`: a sample drawn
/// from the non-empty inclusive range `low..=high` lies between `low`
/// and `high`.
#[verifier::external_body]
fn random_in_range(low: u32, high: u32) -> (r: u32)
    requires
        low <= high,
    ensures
        low <= r <= high,
{
    rand::thread_rng().gen_range(low..=high)
}

} // verus!
