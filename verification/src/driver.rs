//! The request/fulfillment driver: one full life-cycle of a
//! randomness-dependent round as a state machine. Each step takes the
//! event the chain collaborator answered with and decides the next action;
//! the collaborator performs the action (a read, the request transaction,
//! a sleep-then-poll, the manual callback trigger) and feeds the answer
//! back. All decisions — the pre-submission check, the fee/asset fallback,
//! stale-read tolerance, the consistency guard and the once-per-invocation
//! manual trigger — live here and are verified.

use vstd::prelude::*;

use crate::types::AssetId;
use crate::types::Fulfilled;
use crate::types::Randomness;
use crate::types::RandomnessState;
use crate::types::bytes32_eq;

verus! {

/// Default interval between round-status polls, in milliseconds.
pub const DEFAULT_ROUND_POLL_INTERVAL_MS: u64 = 100;

/// Default interval between raw randomness-request polls, in milliseconds.
pub const DEFAULT_RANDOMNESS_POLL_INTERVAL_MS: u64 = 1000;

/// Default wall-clock timeout, measured from submission, after which a
/// still-spinning round makes the driver check the underlying randomness.
pub const DEFAULT_TRIGGER_TIMEOUT_MS: u64 = 10_000;

/// Status of one game session, as a status read reports it.
#[derive(Clone, Copy, Debug, PartialEq, Eq)]
pub enum GameStatus {
    /// Terminal-safe: the player survived the given round and may act again.
    PlayerIsAlive(u64),
    /// Terminal: the player died at the given round.
    PlayerIsDead(u64),
    /// In flight: a request for the next round is pending.
    SpinningBarrel(u64),
}

impl GameStatus {
    /// The round number the status carries.
    pub open spec fn spec_round(&self) -> u64 {
        match self {
            GameStatus::PlayerIsAlive(x) => *x,
            GameStatus::PlayerIsDead(x) => *x,
            GameStatus::SpinningBarrel(x) => *x,
        }
    }

    /// The round number the status carries.
    #[verifier::when_used_as_spec(spec_round)]
    pub fn round(&self) -> (r: u64)
        ensures
            r == self.spec_round(),
    {
        match self {
            GameStatus::PlayerIsAlive(x) => *x,
            GameStatus::PlayerIsDead(x) => *x,
            GameStatus::SpinningBarrel(x) => *x,
        }
    }
}

/// The asset to pay the request fee with and the exact fee to attach.
#[derive(Clone, Copy, Debug, PartialEq, Eq)]
pub struct PaymentPlan {
    pub asset: AssetId,
    pub fee: u64,
}

/// How one invocation of the driver ended.
#[derive(Clone, Copy, Debug, PartialEq, Eq)]
pub enum Outcome {
    /// The round resolved: the player survived it.
    Alive { round: u64 },
    /// The round resolved: the player is dead.
    Dead { round: u64 },
    /// Precondition not met: the player was already dead before anything
    /// was submitted. Not an error; nothing was submitted.
    AlreadyDead { round: u64 },
    /// Precondition not met: a previous round is still in flight. Nothing
    /// was submitted; one manual trigger is attempted to unblock it.
    AlreadyInFlight { round: u64 },
    /// Fatal: the observed round jumped two or more past the
    /// pre-submission round, which signals a concurrent external actor.
    ConsistencyViolation { prev_round: u64, observed: u64 },
}

/// Driver state between two steps.
#[derive(Clone, Copy, Debug, PartialEq, Eq)]
pub enum DriverState {
    /// Nothing read yet; the pre-submission status check comes first.
    Idle,
    /// Precheck passed at `prev_round`; waiting for the configured fee asset.
    ReadingAsset { prev_round: u64 },
    /// Waiting for the fee quoted for the configured asset.
    QuotingFee { prev_round: u64, asset: AssetId },
    /// The configured asset turned out disabled (zero fee); waiting for
    /// the base asset's fee instead.
    QuotingBaseFee { prev_round: u64 },
    /// Fee settled; waiting for the request transaction to be accepted.
    Submitting { prev_round: u64, plan: PaymentPlan },
    /// Polling the round status until it moves past `prev_round`.
    Polling { prev_round: u64, last_seen: u64, manual_trigger_attempted: bool },
    /// Timeout elapsed on a spinning round; waiting for the low-level
    /// randomness status to decide whether a manual trigger helps.
    CheckingRandomness { prev_round: u64, last_seen: u64 },
    /// The invocation is over.
    Finished { outcome: Outcome },
}

/// What a step asks the chain collaborator to do next.
#[derive(Clone, Copy, Debug, PartialEq, Eq)]
pub enum DriverAction {
    /// Wait one poll interval, then read the game status.
    ReadStatus,
    /// Read which additional fee asset is configured.
    GetAsset,
    /// Read the fee configured for the given asset.
    GetFee { asset: AssetId },
    /// Submit the request transaction, attaching exactly the planned fee
    /// (and, in a bet-based flow, the bet as a second value).
    Submit { plan: PaymentPlan },
    /// Read the low-level randomness status of the pending request.
    ReadRandomness,
    /// Submit the manual execute-callback transaction.
    SendTrigger,
    /// Nothing further; the outcome is in the state.
    Stop,
}

/// What the collaborator answered: the result of the action it performed.
#[derive(Clone, Copy, Debug)]
pub enum DriverEvent {
    /// Result of a game-status read.
    StatusRead(GameStatus),
    /// Result of reading the configured fee asset.
    AssetRead(AssetId),
    /// Result of a fee quote.
    FeeRead(u64),
    /// The request transaction was accepted on chain.
    Submitted,
    /// Result of a low-level randomness-status read.
    RandomnessRead(RandomnessState),
    /// The manual trigger transaction was sent.
    TriggerSent,
}

/// Which events a state can be answered with: exactly those that respond
/// to the action the driver asked for in that state.
pub open spec fn expects(s: DriverState, e: DriverEvent) -> bool {
    match s {
        DriverState::Idle => e is StatusRead,
        DriverState::ReadingAsset { .. } => e is AssetRead,
        DriverState::QuotingFee { .. } => e is FeeRead,
        DriverState::QuotingBaseFee { .. } => e is FeeRead,
        DriverState::Submitting { .. } => e is Submitted,
        DriverState::Polling { .. } => e is StatusRead || e is TriggerSent,
        DriverState::CheckingRandomness { .. } => e is RandomnessRead,
        DriverState::Finished { .. } => true,
    }
}

/// Internal consistency of a state: while polling, the last accepted
/// round observation is the pre-submission round or one past it.
pub open spec fn state_wf(s: DriverState) -> bool {
    match s {
        DriverState::Polling { prev_round, last_seen, .. } => prev_round <= last_seen
            <= prev_round + 1,
        DriverState::CheckingRandomness { prev_round, last_seen } => prev_round <= last_seen
            <= prev_round + 1,
        _ => true,
    }
}

/// The transition function of the driver, in full. `timed_out` says
/// whether the configured wall-clock timeout (measured from submission)
/// had elapsed when the event arrived.
pub open spec fn spec_step(
    base_asset: AssetId,
    s: DriverState,
    e: DriverEvent,
    timed_out: bool,
) -> (DriverState, DriverAction) {
    match s {
        DriverState::Idle => match e {
            DriverEvent::StatusRead(g) => match g {
                GameStatus::PlayerIsDead(r) => (
                    DriverState::Finished { outcome: Outcome::AlreadyDead { round: r } },
                    DriverAction::Stop,
                ),
                GameStatus::SpinningBarrel(r) => (
                    DriverState::Finished { outcome: Outcome::AlreadyInFlight { round: r } },
                    DriverAction::SendTrigger,
                ),
                GameStatus::PlayerIsAlive(r) => (
                    DriverState::ReadingAsset { prev_round: r },
                    DriverAction::GetAsset,
                ),
            },
            _ => (s, DriverAction::Stop),
        },
        DriverState::ReadingAsset { prev_round } => match e {
            DriverEvent::AssetRead(asset) => (
                DriverState::QuotingFee { prev_round, asset },
                DriverAction::GetFee { asset },
            ),
            _ => (s, DriverAction::Stop),
        },
        DriverState::QuotingFee { prev_round, asset } => match e {
            DriverEvent::FeeRead(fee) => if asset@ == base_asset@ || fee > 0 {
                (
                    DriverState::Submitting { prev_round, plan: PaymentPlan { asset, fee } },
                    DriverAction::Submit { plan: PaymentPlan { asset, fee } },
                )
            } else {
                // The additional asset is disabled: fall back to the base
                // asset and quote its fee before submitting.
                (
                    DriverState::QuotingBaseFee { prev_round },
                    DriverAction::GetFee { asset: base_asset },
                )
            },
            _ => (s, DriverAction::Stop),
        },
        DriverState::QuotingBaseFee { prev_round } => match e {
            DriverEvent::FeeRead(fee) => (
                DriverState::Submitting {
                    prev_round,
                    plan: PaymentPlan { asset: base_asset, fee },
                },
                DriverAction::Submit { plan: PaymentPlan { asset: base_asset, fee } },
            ),
            _ => (s, DriverAction::Stop),
        },
        DriverState::Submitting { prev_round, .. } => match e {
            DriverEvent::Submitted => (
                DriverState::Polling {
                    prev_round,
                    last_seen: prev_round,
                    manual_trigger_attempted: false,
                },
                DriverAction::ReadStatus,
            ),
            _ => (s, DriverAction::Stop),
        },
        DriverState::Polling { prev_round, last_seen, manual_trigger_attempted } => match e {
            DriverEvent::StatusRead(g) => {
                let obs = g.spec_round();
                if obs < last_seen {
                    // Apparent regression: a stale or not-yet-visible
                    // read. Discard it and read again.
                    (s, DriverAction::ReadStatus)
                } else if obs >= prev_round + 2 {
                    (
                        DriverState::Finished {
                            outcome: Outcome::ConsistencyViolation { prev_round, observed: obs },
                        },
                        DriverAction::Stop,
                    )
                } else if obs <= prev_round {
                    // Not newer than the pre-submission state yet.
                    (
                        DriverState::Polling {
                            prev_round,
                            last_seen: obs,
                            manual_trigger_attempted,
                        },
                        DriverAction::ReadStatus,
                    )
                } else {
                    match g {
                        GameStatus::PlayerIsAlive(x) => (
                            DriverState::Finished { outcome: Outcome::Alive { round: x } },
                            DriverAction::Stop,
                        ),
                        GameStatus::PlayerIsDead(x) => (
                            DriverState::Finished { outcome: Outcome::Dead { round: x } },
                            DriverAction::Stop,
                        ),
                        GameStatus::SpinningBarrel(x) => if timed_out
                            && !manual_trigger_attempted {
                            (
                                DriverState::CheckingRandomness { prev_round, last_seen: x },
                                DriverAction::ReadRandomness,
                            )
                        } else {
                            (
                                DriverState::Polling {
                                    prev_round,
                                    last_seen: x,
                                    manual_trigger_attempted,
                                },
                                DriverAction::ReadStatus,
                            )
                        },
                    }
                }
            },
            DriverEvent::TriggerSent => (s, DriverAction::ReadStatus),
            _ => (s, DriverAction::Stop),
        },
        DriverState::CheckingRandomness { prev_round, last_seen } => match e {
            DriverEvent::RandomnessRead(rs) => match rs {
                RandomnessState::Fulfilled(_) => (
                    // Randomness is there but the dependent callback has
                    // not run: trigger it manually, exactly once, then
                    // resume polling.
                    DriverState::Polling {
                        prev_round,
                        last_seen,
                        manual_trigger_attempted: true,
                    },
                    DriverAction::SendTrigger,
                ),
                RandomnessState::Unfulfilled => (
                    // Not fulfilled yet: keep polling, and leave the
                    // timeout check armed.
                    DriverState::Polling {
                        prev_round,
                        last_seen,
                        manual_trigger_attempted: false,
                    },
                    DriverAction::ReadStatus,
                ),
            },
            _ => (s, DriverAction::Stop),
        },
        DriverState::Finished { .. } => (s, DriverAction::Stop),
    }
}

/// The state and first action of a fresh invocation: read the status
/// before anything is submitted.
pub fn start() -> (r: (DriverState, DriverAction))
    ensures
        r == (DriverState::Idle, DriverAction::ReadStatus),
{
    (DriverState::Idle, DriverAction::ReadStatus)
}

/// Performs one step of the driver: from the current state and the
/// collaborator's answer to the previous action, the next state and the
/// next action, exactly as `spec_step` lays them down.
pub fn step(base_asset: &AssetId, s: DriverState, e: DriverEvent, timed_out: bool) -> (r: (
    DriverState,
    DriverAction,
))
    requires
        expects(s, e),
    ensures
        r == spec_step(*base_asset, s, e, timed_out),
{
    match s {
        DriverState::Idle => match e {
            DriverEvent::StatusRead(g) => match g {
                GameStatus::PlayerIsDead(r) => (
                    DriverState::Finished { outcome: Outcome::AlreadyDead { round: r } },
                    DriverAction::Stop,
                ),
                GameStatus::SpinningBarrel(r) => (
                    DriverState::Finished { outcome: Outcome::AlreadyInFlight { round: r } },
                    DriverAction::SendTrigger,
                ),
                GameStatus::PlayerIsAlive(r) => (
                    DriverState::ReadingAsset { prev_round: r },
                    DriverAction::GetAsset,
                ),
            },
            _ => (s, DriverAction::Stop),
        },
        DriverState::ReadingAsset { prev_round } => match e {
            DriverEvent::AssetRead(asset) => (
                DriverState::QuotingFee { prev_round, asset },
                DriverAction::GetFee { asset },
            ),
            _ => (s, DriverAction::Stop),
        },
        DriverState::QuotingFee { prev_round, asset } => match e {
            DriverEvent::FeeRead(fee) => if bytes32_eq(&asset.bytes, &base_asset.bytes) || fee > 0 {
                (
                    DriverState::Submitting { prev_round, plan: PaymentPlan { asset, fee } },
                    DriverAction::Submit { plan: PaymentPlan { asset, fee } },
                )
            } else {
                (
                    DriverState::QuotingBaseFee { prev_round },
                    DriverAction::GetFee { asset: *base_asset },
                )
            },
            _ => (s, DriverAction::Stop),
        },
        DriverState::QuotingBaseFee { prev_round } => match e {
            DriverEvent::FeeRead(fee) => (
                DriverState::Submitting {
                    prev_round,
                    plan: PaymentPlan { asset: *base_asset, fee },
                },
                DriverAction::Submit { plan: PaymentPlan { asset: *base_asset, fee } },
            ),
            _ => (s, DriverAction::Stop),
        },
        DriverState::Submitting { prev_round, .. } => match e {
            DriverEvent::Submitted => (
                DriverState::Polling {
                    prev_round,
                    last_seen: prev_round,
                    manual_trigger_attempted: false,
                },
                DriverAction::ReadStatus,
            ),
            _ => (s, DriverAction::Stop),
        },
        DriverState::Polling { prev_round, last_seen, manual_trigger_attempted } => match e {
            DriverEvent::StatusRead(g) => {
                let obs = g.round();
                if obs < last_seen {
                    (s, DriverAction::ReadStatus)
                } else if obs > prev_round && obs - prev_round >= 2 {
                    (
                        DriverState::Finished {
                            outcome: Outcome::ConsistencyViolation { prev_round, observed: obs },
                        },
                        DriverAction::Stop,
                    )
                } else if obs <= prev_round {
                    (
                        DriverState::Polling {
                            prev_round,
                            last_seen: obs,
                            manual_trigger_attempted,
                        },
                        DriverAction::ReadStatus,
                    )
                } else {
                    match g {
                        GameStatus::PlayerIsAlive(x) => (
                            DriverState::Finished { outcome: Outcome::Alive { round: x } },
                            DriverAction::Stop,
                        ),
                        GameStatus::PlayerIsDead(x) => (
                            DriverState::Finished { outcome: Outcome::Dead { round: x } },
                            DriverAction::Stop,
                        ),
                        GameStatus::SpinningBarrel(x) => if timed_out
                            && !manual_trigger_attempted {
                            (
                                DriverState::CheckingRandomness { prev_round, last_seen: x },
                                DriverAction::ReadRandomness,
                            )
                        } else {
                            (
                                DriverState::Polling {
                                    prev_round,
                                    last_seen: x,
                                    manual_trigger_attempted,
                                },
                                DriverAction::ReadStatus,
                            )
                        },
                    }
                }
            },
            DriverEvent::TriggerSent => (s, DriverAction::ReadStatus),
            _ => (s, DriverAction::Stop),
        },
        DriverState::CheckingRandomness { prev_round, last_seen } => match e {
            DriverEvent::RandomnessRead(rs) => match rs {
                RandomnessState::Fulfilled(_) => (
                    DriverState::Polling {
                        prev_round,
                        last_seen,
                        manual_trigger_attempted: true,
                    },
                    DriverAction::SendTrigger,
                ),
                RandomnessState::Unfulfilled => (
                    DriverState::Polling {
                        prev_round,
                        last_seen,
                        manual_trigger_attempted: false,
                    },
                    DriverAction::ReadStatus,
                ),
            },
            _ => (s, DriverAction::Stop),
        },
        DriverState::Finished { .. } => (s, DriverAction::Stop),
    }
}

/// The state after feeding the driver a sequence of inputs — each an
/// event with the timed-out flag it arrived under — one step at a time.
pub open spec fn run(
    base_asset: AssetId,
    s: DriverState,
    inputs: Seq<(DriverEvent, bool)>,
) -> DriverState
    decreases inputs.len(),
{
    if inputs.len() == 0 {
        s
    } else {
        run(
            base_asset,
            spec_step(base_asset, s, inputs[0].0, inputs[0].1).0,
            inputs.drop_first(),
        )
    }
}

/// How many of the steps driven by `inputs` from `s` ask for the manual
/// callback trigger.
pub open spec fn trigger_count(
    base_asset: AssetId,
    s: DriverState,
    inputs: Seq<(DriverEvent, bool)>,
) -> nat
    decreases inputs.len(),
{
    if inputs.len() == 0 {
        0
    } else {
        let next = spec_step(base_asset, s, inputs[0].0, inputs[0].1);
        (if next.1 is SendTrigger {
            1nat
        } else {
            0nat
        }) + trigger_count(base_asset, next.0, inputs.drop_first())
    }
}

/// How many of the steps driven by `inputs` from `s` ask for a request
/// submission.
pub open spec fn submit_count(
    base_asset: AssetId,
    s: DriverState,
    inputs: Seq<(DriverEvent, bool)>,
) -> nat
    decreases inputs.len(),
{
    if inputs.len() == 0 {
        0
    } else {
        let next = spec_step(base_asset, s, inputs[0].0, inputs[0].1);
        (if next.1 is Submit {
            1nat
        } else {
            0nat
        }) + submit_count(base_asset, next.0, inputs.drop_first())
    }
}

/// How many manual triggers a state may still send in the rest of the
/// invocation.
pub open spec fn trigger_budget(s: DriverState) -> nat {
    match s {
        DriverState::Finished { .. } => 0,
        DriverState::Polling { manual_trigger_attempted, .. } => if manual_trigger_attempted {
            0
        } else {
            1
        },
        _ => 1,
    }
}

/// One step spends what it sends: a sent trigger plus the next state's
/// remaining budget never exceeds the current state's budget.
proof fn lemma_step_trigger_budget(base_asset: AssetId, s: DriverState, e: DriverEvent, t: bool)
    ensures
        ({
            let next = spec_step(base_asset, s, e, t);
            (if next.1 is SendTrigger {
                1nat
            } else {
                0nat
            }) + trigger_budget(next.0) <= trigger_budget(s)
        }),
{
}

/// From any state, a whole run sends at most the state's remaining
/// trigger budget.
pub proof fn lemma_trigger_count_bounded(
    base_asset: AssetId,
    s: DriverState,
    inputs: Seq<(DriverEvent, bool)>,
)
    ensures
        trigger_count(base_asset, s, inputs) <= trigger_budget(s),
    decreases inputs.len(),
{
    if inputs.len() > 0 {
        lemma_step_trigger_budget(base_asset, s, inputs[0].0, inputs[0].1);
        lemma_trigger_count_bounded(
            base_asset,
            spec_step(base_asset, s, inputs[0].0, inputs[0].1).0,
            inputs.drop_first(),
        );
    }
}

/// Law: one driver invocation sends the manual callback trigger at most
/// once, however many polling iterations and timeout windows elapse.
pub proof fn lemma_manual_trigger_at_most_once(
    base_asset: AssetId,
    inputs: Seq<(DriverEvent, bool)>,
)
    ensures
        trigger_count(base_asset, DriverState::Idle, inputs) <= 1,
{
    lemma_trigger_count_bounded(base_asset, DriverState::Idle, inputs);
}

/// Law: an in-flight read past the timeout whose underlying randomness is
/// already fulfilled makes the driver send the manual trigger exactly
/// once, whatever happens afterwards in the same invocation.
pub proof fn lemma_fulfilled_timeout_sends_exactly_one_trigger(
    base_asset: AssetId,
    prev_round: u64,
    last_seen: u64,
    f: Fulfilled,
    t2: bool,
    rest: Seq<(DriverEvent, bool)>,
)
    requires
        prev_round <= last_seen <= prev_round + 1,
        prev_round < u64::MAX,
    ensures
        ({
            let spin = (
                DriverEvent::StatusRead(GameStatus::SpinningBarrel((prev_round + 1) as u64)),
                true,
            );
            let ful = (DriverEvent::RandomnessRead(RandomnessState::Fulfilled(f)), t2);
            let s0 = DriverState::Polling {
                prev_round,
                last_seen,
                manual_trigger_attempted: false,
            };
            trigger_count(base_asset, s0, seq![spin, ful] + rest) == 1
        }),
{
    let spin = (DriverEvent::StatusRead(GameStatus::SpinningBarrel((prev_round + 1) as u64)), true);
    let ful = (DriverEvent::RandomnessRead(RandomnessState::Fulfilled(f)), t2);
    let s0 = DriverState::Polling { prev_round, last_seen, manual_trigger_attempted: false };
    let inputs = seq![spin, ful] + rest;
    let s1 = DriverState::CheckingRandomness { prev_round, last_seen: (prev_round + 1) as u64 };
    let s2 = DriverState::Polling {
        prev_round,
        last_seen: (prev_round + 1) as u64,
        manual_trigger_attempted: true,
    };
    assert(inputs[0] == spin);
    assert(spec_step(base_asset, s0, spin.0, spin.1) == (s1, DriverAction::ReadRandomness));
    assert(inputs.drop_first() =~= seq![ful] + rest);
    assert(trigger_count(base_asset, s0, inputs) == trigger_count(base_asset, s1, seq![ful] + rest));
    assert((seq![ful] + rest)[0] == ful);
    assert(spec_step(base_asset, s1, ful.0, ful.1) == (s2, DriverAction::SendTrigger));
    assert((seq![ful] + rest).drop_first() =~= rest);
    assert(trigger_count(base_asset, s1, seq![ful] + rest) == 1 + trigger_count(
        base_asset,
        s2,
        rest,
    ));
    assert(trigger_count(base_asset, s2, rest) == 0) by {
        lemma_trigger_count_bounded(base_asset, s2, rest);
    }
}

/// From a finished state, nothing is ever submitted.
proof fn lemma_finished_never_submits(
    base_asset: AssetId,
    o: Outcome,
    inputs: Seq<(DriverEvent, bool)>,
)
    ensures
        submit_count(base_asset, DriverState::Finished { outcome: o }, inputs) == 0,
    decreases inputs.len(),
{
    if inputs.len() > 0 {
        lemma_finished_never_submits(base_asset, o, inputs.drop_first());
    }
}

/// Law: when the pre-submission status read reports the player dead, the
/// driver never issues a submission, then or later in the invocation.
pub proof fn lemma_dead_precheck_never_submits(
    base_asset: AssetId,
    round: u64,
    t: bool,
    rest: Seq<(DriverEvent, bool)>,
)
    ensures
        ({
            let first = (DriverEvent::StatusRead(GameStatus::PlayerIsDead(round)), t);
            submit_count(base_asset, DriverState::Idle, seq![first] + rest) == 0
        }),
{
    let first = (DriverEvent::StatusRead(GameStatus::PlayerIsDead(round)), t);
    let inputs = seq![first] + rest;
    assert(inputs[0] == first);
    assert(inputs.drop_first() =~= rest);
    lemma_finished_never_submits(base_asset, Outcome::AlreadyDead { round }, rest);
}

/// The round observation a state carries, where one exists: the round
/// seen just before submission, later the last accepted observation.
pub open spec fn observed_round(s: DriverState) -> Option<u64> {
    match s {
        DriverState::Idle => None,
        DriverState::ReadingAsset { prev_round } => Some(prev_round),
        DriverState::QuotingFee { prev_round, .. } => Some(prev_round),
        DriverState::QuotingBaseFee { prev_round } => Some(prev_round),
        DriverState::Submitting { prev_round, .. } => Some(prev_round),
        DriverState::Polling { last_seen, .. } => Some(last_seen),
        DriverState::CheckingRandomness { last_seen, .. } => Some(last_seen),
        DriverState::Finished { .. } => None,
    }
}

/// Law (one step): the observed round never regresses — a read showing an
/// older round is discarded as stale rather than accepted.
pub proof fn lemma_observed_round_never_regresses(
    base_asset: AssetId,
    s: DriverState,
    e: DriverEvent,
    t: bool,
)
    ensures
        ({
            let s2 = spec_step(base_asset, s, e, t).0;
            observed_round(s) matches Some(before) ==> (observed_round(s2) matches Some(after)
                ==> before <= after)
        }),
{
}

/// Law: a status read older than the last accepted observation leaves the
/// polling state unchanged and asks for another read — it is never
/// surfaced as an outcome.
pub proof fn lemma_stale_read_retried(
    base_asset: AssetId,
    prev_round: u64,
    last_seen: u64,
    manual_trigger_attempted: bool,
    g: GameStatus,
    t: bool,
)
    requires
        g.spec_round() < last_seen,
    ensures
        spec_step(
            base_asset,
            DriverState::Polling { prev_round, last_seen, manual_trigger_attempted },
            DriverEvent::StatusRead(g),
            t,
        ) == (
            DriverState::Polling { prev_round, last_seen, manual_trigger_attempted },
            DriverAction::ReadStatus,
        ),
{
}

/// A state that carries an observation hands it on: after one more step
/// the observation is still there, unless the invocation finished.
proof fn lemma_observation_persists(base_asset: AssetId, s: DriverState, e: DriverEvent, t: bool)
    ensures
        ({
            let s2 = spec_step(base_asset, s, e, t).0;
            observed_round(s) is Some ==> (observed_round(s2) is Some || s2 is Finished)
        }),
{
}

/// A finished invocation stays finished.
proof fn lemma_finished_absorbs(
    base_asset: AssetId,
    o: Outcome,
    inputs: Seq<(DriverEvent, bool)>,
)
    ensures
        run(base_asset, DriverState::Finished { outcome: o }, inputs) == (DriverState::Finished {
            outcome: o,
        }),
    decreases inputs.len(),
{
    if inputs.len() > 0 {
        lemma_finished_absorbs(base_asset, o, inputs.drop_first());
    }
}

/// Law: over one whole invocation, the observed round is non-decreasing:
/// whenever two points of the run both carry an observation, the later
/// one is at least the earlier one.
pub proof fn lemma_observed_round_monotonic(
    base_asset: AssetId,
    s: DriverState,
    inputs: Seq<(DriverEvent, bool)>,
    i: int,
    j: int,
)
    requires
        0 <= i <= j <= inputs.len(),
        observed_round(run(base_asset, s, inputs.take(i))) is Some,
        observed_round(run(base_asset, s, inputs.take(j))) is Some,
    ensures
        observed_round(run(base_asset, s, inputs.take(i)))->0 <= observed_round(
            run(base_asset, s, inputs.take(j)),
        )->0,
    decreases j - i,
{
    if i < j {
        let si = run(base_asset, s, inputs.take(i));
        let e = inputs[i];
        let si1 = spec_step(base_asset, si, e.0, e.1).0;
        lemma_run_take_succ(base_asset, s, inputs, i);
        lemma_observation_persists(base_asset, si, e.0, e.1);
        if si1 is Finished {
            let o = si1->Finished_outcome;
            lemma_run_from_midpoint(base_asset, s, inputs, i + 1, j);
            lemma_finished_absorbs(
                base_asset,
                o,
                inputs.take(j).skip(i + 1),
            );
            assert(false);
        } else {
            lemma_observed_round_never_regresses(base_asset, si, e.0, e.1);
            lemma_observed_round_monotonic(base_asset, s, inputs, i + 1, j);
        }
    }
}

/// Running `i + 1` inputs is one step past running `i` of them.
proof fn lemma_run_take_succ(
    base_asset: AssetId,
    s: DriverState,
    inputs: Seq<(DriverEvent, bool)>,
    i: int,
)
    requires
        0 <= i < inputs.len(),
    ensures
        run(base_asset, s, inputs.take(i + 1)) == spec_step(
            base_asset,
            run(base_asset, s, inputs.take(i)),
            inputs[i].0,
            inputs[i].1,
        ).0,
    decreases i,
{
    let s1 = spec_step(base_asset, s, inputs[0].0, inputs[0].1).0;
    if i == 0 {
        assert(inputs.take(1)[0] == inputs[0]);
        assert(inputs.take(1).drop_first() =~= inputs.take(0));
        assert(run(base_asset, s1, inputs.take(0)) == s1);
        assert(run(base_asset, s, inputs.take(0)) == s);
    } else {
        assert(inputs.take(i + 1)[0] == inputs[0]);
        assert(inputs.take(i)[0] == inputs[0]);
        assert(inputs.take(i + 1).drop_first() =~= inputs.drop_first().take(i));
        assert(inputs.take(i).drop_first() =~= inputs.drop_first().take(i - 1));
        lemma_run_take_succ(base_asset, s1, inputs.drop_first(), i - 1);
        assert(inputs.drop_first()[i - 1] == inputs[i]);
        assert(run(base_asset, s, inputs.take(i)) == run(
            base_asset,
            s1,
            inputs.drop_first().take(i - 1),
        ));
        assert(run(base_asset, s, inputs.take(i + 1)) == run(
            base_asset,
            s1,
            inputs.drop_first().take(i),
        ));
    }
}

/// Running to `j` equals running to `i` and then feeding the inputs
/// between `i` and `j`.
proof fn lemma_run_from_midpoint(
    base_asset: AssetId,
    s: DriverState,
    inputs: Seq<(DriverEvent, bool)>,
    i: int,
    j: int,
)
    requires
        0 <= i <= j <= inputs.len(),
    ensures
        run(base_asset, s, inputs.take(j)) == run(
            base_asset,
            run(base_asset, s, inputs.take(i)),
            inputs.take(j).skip(i),
        ),
    decreases i,
{
    if i == 0 {
        assert(inputs.take(j).skip(0) =~= inputs.take(j));
        assert(inputs.take(0).len() == 0);
    } else {
        let s1 = spec_step(base_asset, s, inputs[0].0, inputs[0].1).0;
        assert(inputs.take(i).drop_first() =~= inputs.drop_first().take(i - 1));
        assert(inputs.take(j).drop_first() =~= inputs.drop_first().take(j - 1));
        assert(inputs.take(i)[0] == inputs[0]);
        assert(inputs.take(j)[0] == inputs[0]);
        lemma_run_from_midpoint(base_asset, s1, inputs.drop_first(), i - 1, j - 1);
        assert(inputs.drop_first().take(j - 1).skip(i - 1) =~= inputs.take(j).skip(i));
    }
}

/// Law: the round jump guard — a status read two or more rounds past the
/// pre-submission round ends the invocation with the fatal
/// consistency-violation outcome, not with a normal terminal state.
pub proof fn lemma_round_jump_is_fatal(
    base_asset: AssetId,
    prev_round: u64,
    last_seen: u64,
    manual_trigger_attempted: bool,
    g: GameStatus,
    t: bool,
)
    requires
        prev_round <= last_seen <= prev_round + 1,
        g.spec_round() >= prev_round + 2,
    ensures
        spec_step(
            base_asset,
            DriverState::Polling { prev_round, last_seen, manual_trigger_attempted },
            DriverEvent::StatusRead(g),
            t,
        ) == (
            DriverState::Finished {
                outcome: Outcome::ConsistencyViolation {
                    prev_round,
                    observed: g.spec_round(),
                },
            },
            DriverAction::Stop,
        ),
{
}

/// Law: the fee fallback never submits a zero fee on the additional
/// asset — every submission either pays with the base asset or carries a
/// positive fee. A zero fee on the base asset means the request is
/// genuinely free.
pub proof fn lemma_no_zero_fee_on_additional_asset(
    base_asset: AssetId,
    s: DriverState,
    e: DriverEvent,
    t: bool,
)
    ensures
        ({
            let a = spec_step(base_asset, s, e, t).1;
            a matches DriverAction::Submit { plan } ==> (plan.asset@ == base_asset@ || plan.fee
                > 0)
        }),
{
}

/// Stepping preserves the polling-state invariant that `step` and the
/// laws above rely on.
pub proof fn lemma_step_preserves_wf(base_asset: AssetId, s: DriverState, e: DriverEvent, t: bool)
    requires
        state_wf(s),
    ensures
        state_wf(spec_step(base_asset, s, e, t).0),
{
}

/// One poll decision of the pure-randomness flow: the loop waits until
/// the request is visible on chain and its state is fulfilled, and then
/// stops with the fulfilled payload.
pub fn randomness_poll(read: &Option<Randomness>) -> (r: Option<Fulfilled>)
    ensures
        r is Some <==> (read matches Some(x) && x.state is Fulfilled),
        r matches Some(f) ==> read->0.state == RandomnessState::Fulfilled(f),
{
    match read {
        Some(x) => match x.state {
            RandomnessState::Fulfilled(f) => Some(f),
            RandomnessState::Unfulfilled => None,
        },
        None => None,
    }
}

} // verus!
