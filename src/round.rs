//! Round orchestration decisions: the balance carried between rounds, the
//! occasional epoch-reset action, the action list and its compute budget,
//! and the bounded submission retry.

use vstd::prelude::*;
use crate::bus::random_below;

verus! {

/// Submission attempts allowed per round before giving up.
pub const MAX_RETRIES: u8 = 3;

/// One in this many rounds that find a reset due actually include it.
pub const RESET_ODDS: u64 = 100;

/// Compute budget declared for a round's transaction.
pub const BASE_COMPUTE_BUDGET: u32 = 500_000;

/// Extra compute budget declared when the reset action is included.
pub const RESET_COMPUTE_BUDGET: u32 = 100_000;

/// Whether more workers were requested than there are processing units, in
/// which case the operator is warned (the extra workers do no work).
pub fn check_num_cores(cores: u64, available: u64) -> (r: bool)
    ensures
        r == (cores > available),
{
    cores > available
}

/// What is carried from one round to the next: the hash timestamp and the
/// balance seen at the top of the previous round (zero before the first).
pub struct RoundTracker {
    pub last_hash_at: i64,
    pub last_balance: u64,
}

impl RoundTracker {
    pub fn new() -> (r: RoundTracker)
        ensures
            r.last_hash_at == 0,
            r.last_balance == 0,
    {
        RoundTracker { last_hash_at: 0, last_balance: 0 }
    }

    /// Records the state read at the top of a round and returns the balance
    /// gained since the previous round (saturating at zero), or `None` when
    /// no hash was seen before.
    pub fn observe(&mut self, balance: u64, last_hash_at: i64) -> (change: Option<u64>)
        ensures
            change == if old(self).last_hash_at > 0 {
                Some(
                    if balance >= old(self).last_balance {
                        (balance - old(self).last_balance) as u64
                    } else {
                        0u64
                    },
                )
            } else {
                None::<u64>
            },
            final(self).last_hash_at == last_hash_at,
            final(self).last_balance == balance,
    {
        let change = if self.last_hash_at > 0 {
            Some(balance.saturating_sub(self.last_balance))
        } else {
            None
        };
        self.last_hash_at = last_hash_at;
        self.last_balance = balance;
        change
    }
}

/// The reset action goes into the round only when the epoch is due for a
/// reset and the random draw (out of `RESET_ODDS`) came out zero.
pub fn include_reset(reset_due: bool, draw: u64) -> (r: bool)
    ensures
        r == (reset_due && draw == 0),
{
    reset_due && draw == 0
}

/// Decides whether this round includes the reset action, drawing a number
/// below `RESET_ODDS` at random only when a reset is due. Returns the
/// decision and the draw, if one was made.
pub fn decide_reset(reset_due: bool) -> (r: (bool, Option<u64>))
    ensures
        r.1 is Some <==> reset_due,
        !reset_due ==> !r.0,
        r.1 matches Some(draw) ==> draw < RESET_ODDS && r.0 == (draw == 0),
{
    if reset_due {
        let draw = random_below(RESET_ODDS);
        (include_reset(reset_due, draw), Some(draw))
    } else {
        (false, None)
    }
}

/// One action of the round's transaction.
#[derive(Clone, Copy, PartialEq, Eq, Structural, Debug)]
pub enum Action {
    /// Authorize the proof account.
    Auth,
    /// Reset the epoch.
    Reset,
    /// Submit the solution.
    Mine,
}

/// The actions and compute budget of one round's transaction.
#[derive(Clone, Copy, PartialEq, Eq, Structural, Debug)]
pub struct RoundPlan {
    pub reset: bool,
    pub compute_budget: u32,
}

impl RoundPlan {
    /// The plan of a round, with or without the reset action.
    pub fn new(reset: bool) -> (r: RoundPlan)
        ensures
            r.reset == reset,
            r.compute_budget == if reset { 600_000u32 } else { 500_000u32 },
    {
        let compute_budget = if reset {
            BASE_COMPUTE_BUDGET + RESET_COMPUTE_BUDGET
        } else {
            BASE_COMPUTE_BUDGET
        };
        RoundPlan { reset, compute_budget }
    }

    /// The actions in order: authorize, then reset if included, then mine.
    pub fn actions(&self) -> (r: Vec<Action>)
        ensures
            r@ == if self.reset {
                seq![Action::Auth, Action::Reset, Action::Mine]
            } else {
                seq![Action::Auth, Action::Mine]
            },
    {
        let mut r = Vec::new();
        r.push(Action::Auth);
        if self.reset {
            r.push(Action::Reset);
        }
        r.push(Action::Mine);
        proof {
            if self.reset {
                assert(r@ =~= seq![Action::Auth, Action::Reset, Action::Mine]);
            } else {
                assert(r@ =~= seq![Action::Auth, Action::Mine]);
            }
        }
        r
    }
}

/// What to do after a submission attempt; `attempts` counts the attempts
/// made so far, this one included.
#[derive(Clone, Copy, PartialEq, Eq, Structural, Debug)]
pub enum SubmitStep {
    /// The transaction went through.
    Confirmed { attempts: u8 },
    /// It failed; submit again.
    Retry { attempts: u8 },
    /// It failed for the last allowed time; stop mining.
    Abort { attempts: u8 },
}

pub open spec fn step_spec(failures: u8, ok: bool) -> SubmitStep {
    let attempts = (failures + 1) as u8;
    if ok {
        SubmitStep::Confirmed { attempts }
    } else if attempts >= MAX_RETRIES {
        SubmitStep::Abort { attempts }
    } else {
        SubmitStep::Retry { attempts }
    }
}

/// The step after an attempt that followed `failures` failed ones, and
/// succeeded when `ok`.
pub fn after_attempt(failures: u8, ok: bool) -> (r: SubmitStep)
    requires
        failures < MAX_RETRIES,
    ensures
        r == step_spec(failures, ok),
{
    let attempts = failures + 1;
    if ok {
        SubmitStep::Confirmed { attempts }
    } else if attempts >= MAX_RETRIES {
        SubmitStep::Abort { attempts }
    } else {
        SubmitStep::Retry { attempts }
    }
}

/// Where a round's submission ends when the attempts from the `failures`-th
/// on have the outcomes `outcomes[failures..]`.
pub open spec fn run_from(outcomes: Seq<bool>, failures: u8) -> SubmitStep
    decreases MAX_RETRIES - failures,
{
    if failures >= MAX_RETRIES || failures >= outcomes.len() {
        SubmitStep::Abort { attempts: failures }
    } else {
        match step_spec(failures, outcomes[failures as int]) {
            SubmitStep::Retry { attempts } => run_from(outcomes, attempts),
            other => other,
        }
    }
}

/// Where a round's submission ends when its attempts have the outcomes
/// `outcomes`, in order.
pub open spec fn submission(outcomes: Seq<bool>) -> SubmitStep {
    run_from(outcomes, 0)
}

/// Submission is attempted at most three times: it is confirmed on the
/// first attempt that succeeds, after exactly that many attempts, and when
/// the first three all fail it aborts after exactly three.
pub proof fn lemma_submission_retries(outcomes: Seq<bool>)
    requires
        outcomes.len() >= 3,
    ensures
        submission(outcomes) == if outcomes[0] {
            SubmitStep::Confirmed { attempts: 1 }
        } else if outcomes[1] {
            SubmitStep::Confirmed { attempts: 2 }
        } else if outcomes[2] {
            SubmitStep::Confirmed { attempts: 3 }
        } else {
            SubmitStep::Abort { attempts: 3 }
        },
{
    reveal_with_fuel(run_from, 4);
}

} // verus!
