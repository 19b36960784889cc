use fuel_vrf::driver::{
    start, step, randomness_poll, DriverAction, DriverEvent, DriverState, GameStatus, Outcome,
    PaymentPlan, DEFAULT_RANDOMNESS_POLL_INTERVAL_MS, DEFAULT_ROUND_POLL_INTERVAL_MS,
    DEFAULT_TRIGGER_TIMEOUT_MS,
};
use fuel_vrf::types::{
    Address, AssetId, Bits256, FulfillersKeys, Fulfilled, Randomness, RandomnessState, B512,
    Identity,
};

fn base_asset() -> AssetId {
    AssetId { bytes: [0u8; 32] }
}

fn other_asset() -> AssetId {
    AssetId { bytes: [2u8; 32] }
}

fn fulfilled_value() -> Fulfilled {
    Fulfilled {
        randomness: B512 {
            first: Bits256 { bytes: [1u8; 32] },
            second: Bits256 { bytes: [9u8; 32] },
        },
        keys: FulfillersKeys { keys: [Address { bytes: [0u8; 32] }; 10] },
    }
}

#[test]
fn happy_path_resolves_alive() {
    let base = base_asset();
    let (s, a) = start();
    assert_eq!(a, DriverAction::ReadStatus);
    let (s, a) = step(&base, s, DriverEvent::StatusRead(GameStatus::PlayerIsAlive(3)), false);
    assert_eq!(a, DriverAction::GetAsset);
    let (s, a) = step(&base, s, DriverEvent::AssetRead(base_asset()), false);
    assert_eq!(a, DriverAction::GetFee { asset: base_asset() });
    let (s, a) = step(&base, s, DriverEvent::FeeRead(50), false);
    assert_eq!(
        a,
        DriverAction::Submit { plan: PaymentPlan { asset: base_asset(), fee: 50 } }
    );
    let (s, a) = step(&base, s, DriverEvent::Submitted, false);
    assert_eq!(a, DriverAction::ReadStatus);
    // The new round is not visible yet: same round number, keep polling.
    let (s, a) = step(&base, s, DriverEvent::StatusRead(GameStatus::SpinningBarrel(3)), false);
    assert_eq!(a, DriverAction::ReadStatus);
    let (s, a) = step(&base, s, DriverEvent::StatusRead(GameStatus::PlayerIsAlive(4)), false);
    assert_eq!(a, DriverAction::Stop);
    assert_eq!(s, DriverState::Finished { outcome: Outcome::Alive { round: 4 } });
}

#[test]
fn round_lost_resolves_dead() {
    let base = base_asset();
    let s = DriverState::Polling { prev_round: 3, last_seen: 3, manual_trigger_attempted: false };
    let (s, a) = step(&base, s, DriverEvent::StatusRead(GameStatus::PlayerIsDead(4)), false);
    assert_eq!(a, DriverAction::Stop);
    assert_eq!(s, DriverState::Finished { outcome: Outcome::Dead { round: 4 } });
}

#[test]
fn dead_precheck_aborts_without_submitting() {
    let base = base_asset();
    let (s, _) = start();
    let (s, a) = step(&base, s, DriverEvent::StatusRead(GameStatus::PlayerIsDead(7)), false);
    // A distinct outcome, not an error, and no submission is ever issued.
    assert_eq!(s, DriverState::Finished { outcome: Outcome::AlreadyDead { round: 7 } });
    assert_eq!(a, DriverAction::Stop);
    // Feeding the finished state more events never submits anything.
    let (s2, a2) = step(&base, s, DriverEvent::StatusRead(GameStatus::PlayerIsAlive(8)), false);
    assert_eq!(s2, s);
    assert_eq!(a2, DriverAction::Stop);
}

#[test]
fn in_flight_precheck_aborts_and_tries_trigger() {
    let base = base_asset();
    let (s, _) = start();
    let (s, a) = step(&base, s, DriverEvent::StatusRead(GameStatus::SpinningBarrel(2)), false);
    assert_eq!(s, DriverState::Finished { outcome: Outcome::AlreadyInFlight { round: 2 } });
    assert_eq!(a, DriverAction::SendTrigger);
}

#[test]
fn stale_read_is_retried_not_surfaced() {
    let base = base_asset();
    let s0 = DriverState::Polling { prev_round: 3, last_seen: 3, manual_trigger_attempted: false };
    // An older round than already observed: discarded, state unchanged.
    let (s, a) = step(&base, s0, DriverEvent::StatusRead(GameStatus::PlayerIsAlive(2)), false);
    assert_eq!(s, s0);
    assert_eq!(a, DriverAction::ReadStatus);
    // The retried read then resolves normally.
    let (s, a) = step(&base, s, DriverEvent::StatusRead(GameStatus::PlayerIsAlive(4)), false);
    assert_eq!(s, DriverState::Finished { outcome: Outcome::Alive { round: 4 } });
    assert_eq!(a, DriverAction::Stop);
}

#[test]
fn round_jump_of_two_is_fatal() {
    let base = base_asset();
    let s = DriverState::Polling { prev_round: 3, last_seen: 3, manual_trigger_attempted: false };
    let (s, a) = step(&base, s, DriverEvent::StatusRead(GameStatus::PlayerIsAlive(5)), false);
    assert_eq!(
        s,
        DriverState::Finished {
            outcome: Outcome::ConsistencyViolation { prev_round: 3, observed: 5 }
        }
    );
    assert_eq!(a, DriverAction::Stop);
}

#[test]
fn timeout_with_fulfilled_randomness_triggers_exactly_once() {
    let base = base_asset();
    let s = DriverState::Polling { prev_round: 3, last_seen: 3, manual_trigger_attempted: false };
    let mut triggers = 0;
    // Spinning past the timeout: the driver checks the randomness first.
    let (s, a) = step(&base, s, DriverEvent::StatusRead(GameStatus::SpinningBarrel(4)), true);
    assert_eq!(a, DriverAction::ReadRandomness);
    // Fulfilled but the callback has not run: one manual trigger.
    let (s, a) = step(
        &base,
        s,
        DriverEvent::RandomnessRead(RandomnessState::Fulfilled(fulfilled_value())),
        true,
    );
    assert_eq!(a, DriverAction::SendTrigger);
    if a == DriverAction::SendTrigger {
        triggers += 1;
    }
    let (s, a) = step(&base, s, DriverEvent::TriggerSent, true);
    assert_eq!(a, DriverAction::ReadStatus);
    // Another timeout window elapses while still spinning: no second
    // trigger, no second randomness check.
    let (s, a) = step(&base, s, DriverEvent::StatusRead(GameStatus::SpinningBarrel(4)), true);
    assert_eq!(a, DriverAction::ReadStatus);
    if a == DriverAction::SendTrigger {
        triggers += 1;
    }
    let (s, a) = step(&base, s, DriverEvent::StatusRead(GameStatus::PlayerIsDead(4)), true);
    assert_eq!(s, DriverState::Finished { outcome: Outcome::Dead { round: 4 } });
    assert_eq!(a, DriverAction::Stop);
    assert_eq!(triggers, 1);
}

#[test]
fn timeout_with_unfulfilled_randomness_keeps_polling_and_rechecks() {
    let base = base_asset();
    let s = DriverState::Polling { prev_round: 3, last_seen: 3, manual_trigger_attempted: false };
    let (s, a) = step(&base, s, DriverEvent::StatusRead(GameStatus::SpinningBarrel(4)), true);
    assert_eq!(a, DriverAction::ReadRandomness);
    // Not fulfilled yet: nothing submitted, polling continues.
    let (s, a) = step(
        &base,
        s,
        DriverEvent::RandomnessRead(RandomnessState::Unfulfilled),
        true,
    );
    assert_eq!(a, DriverAction::ReadStatus);
    // Still spinning past the timeout: the check stays armed and runs again.
    let (_, a) = step(&base, s, DriverEvent::StatusRead(GameStatus::SpinningBarrel(4)), true);
    assert_eq!(a, DriverAction::ReadRandomness);
}

#[test]
fn disabled_additional_asset_falls_back_to_base() {
    let base = base_asset();
    let s = DriverState::ReadingAsset { prev_round: 1 };
    let (s, a) = step(&base, s, DriverEvent::AssetRead(other_asset()), false);
    assert_eq!(a, DriverAction::GetFee { asset: other_asset() });
    // Zero fee on a non-base asset means "disabled": re-quote the base asset.
    let (s, a) = step(&base, s, DriverEvent::FeeRead(0), false);
    assert_eq!(a, DriverAction::GetFee { asset: base_asset() });
    let (_, a) = step(&base, s, DriverEvent::FeeRead(25), false);
    assert_eq!(
        a,
        DriverAction::Submit { plan: PaymentPlan { asset: base_asset(), fee: 25 } }
    );
}

#[test]
fn enabled_additional_asset_is_used() {
    let base = base_asset();
    let s = DriverState::QuotingFee { prev_round: 1, asset: other_asset() };
    let (_, a) = step(&base, s, DriverEvent::FeeRead(7), false);
    assert_eq!(
        a,
        DriverAction::Submit { plan: PaymentPlan { asset: other_asset(), fee: 7 } }
    );
}

#[test]
fn zero_base_fee_is_genuinely_free() {
    let base = base_asset();
    let s = DriverState::QuotingFee { prev_round: 1, asset: base_asset() };
    let (_, a) = step(&base, s, DriverEvent::FeeRead(0), false);
    assert_eq!(
        a,
        DriverAction::Submit { plan: PaymentPlan { asset: base_asset(), fee: 0 } }
    );
}

#[test]
fn randomness_poll_waits_until_fulfilled() {
    assert_eq!(randomness_poll(&None), None);
    let unfulfilled = Randomness {
        no: 1,
        seed: Bits256 { bytes: [3u8; 32] },
        client: Identity::Address(Address { bytes: [4u8; 32] }),
        state: RandomnessState::Unfulfilled,
    };
    assert_eq!(randomness_poll(&Some(unfulfilled)), None);
    let f = fulfilled_value();
    let done = Randomness { state: RandomnessState::Fulfilled(f), ..unfulfilled };
    assert_eq!(randomness_poll(&Some(done)), Some(f));
}

#[test]
fn default_intervals_are_ordered() {
    assert_eq!(DEFAULT_ROUND_POLL_INTERVAL_MS, 100);
    assert_eq!(DEFAULT_RANDOMNESS_POLL_INTERVAL_MS, 1000);
    assert_eq!(DEFAULT_TRIGGER_TIMEOUT_MS, 10_000);
}
