use drillx::equix::SolverMemory;
use ore_miner::bus::{decode_buses, find_bus, keep_bus, select_bus, BusSnapshot};
use ore_miner::round::{
    after_attempt, check_num_cores, decide_reset, include_reset, Action, RoundPlan, RoundTracker,
    SubmitStep, MAX_RETRIES,
};
use ore_miner::search::{
    find_best, raise_best, should_stop, time_left_label, Candidate, Worker, STRIDE,
};
use ore_miner::timing::{format_duration, get_cutoff, should_reset};

#[test]
fn cutoff_example_round() {
    assert_eq!(get_cutoff(1000, 5, 1040), 15);
}

#[test]
fn cutoff_is_zero_once_past() {
    assert_eq!(get_cutoff(1000, 5, 1055), 0);
    assert_eq!(get_cutoff(1000, 5, 2000), 0);
    assert_eq!(get_cutoff(1000, 0, 1000), 60);
}

#[test]
fn cutoff_extremes_do_not_overflow() {
    assert_eq!(get_cutoff(i64::MAX, 0, i64::MIN), u64::MAX);
    assert_eq!(get_cutoff(i64::MIN, u64::MAX, i64::MAX), 0);
}

#[test]
fn reset_due_after_epoch_less_buffer() {
    assert!(!should_reset(1000, 1294));
    assert!(should_reset(1000, 1295));
    assert!(should_reset(1000, 5000));
    assert!(should_reset(i64::MAX, i64::MAX) == false);
}

#[test]
fn duration_formats() {
    assert_eq!(format_duration(0), "00:00");
    assert_eq!(format_duration(61), "01:01");
    assert_eq!(format_duration(599), "09:59");
    assert_eq!(format_duration(6000), "100:00");
}

#[test]
fn time_left_label_counts_down() {
    assert_eq!(time_left_label(75, 10), "01:05");
    assert_eq!(time_left_label(10, 75), "00:00");
}

#[test]
fn bus_with_most_rewards_is_selected() {
    let pools = vec![
        Some(BusSnapshot { id: 0, rewards: 5 }),
        Some(BusSnapshot { id: 1, rewards: 9 }),
        Some(BusSnapshot { id: 2, rewards: 2 }),
    ];
    assert_eq!(select_bus(&pools), 1);
    assert_eq!(find_bus(&Some(pools)), 1);
}

#[test]
fn bus_tie_keeps_first_and_empty_gives_zero() {
    let pools = vec![
        None,
        Some(BusSnapshot { id: 3, rewards: 7 }),
        Some(BusSnapshot { id: 5, rewards: 7 }),
    ];
    assert_eq!(select_bus(&pools), 3);
    let later_max = vec![
        Some(BusSnapshot { id: 2, rewards: 4 }),
        Some(BusSnapshot { id: 6, rewards: 11 }),
        Some(BusSnapshot { id: 7, rewards: 3 }),
    ];
    assert_eq!(select_bus(&later_max), 6);
    let none: Vec<Option<BusSnapshot>> = vec![None, Some(BusSnapshot { id: 4, rewards: 0 })];
    assert_eq!(select_bus(&none), 0);
    assert_eq!(select_bus(&Vec::new()), 0);
}

#[test]
fn failed_bus_read_picks_some_bus() {
    for _ in 0..200 {
        assert!(find_bus(&None) < 8);
    }
}

fn bus_bytes(id: u64, rewards: u64) -> Vec<u8> {
    let mut d = vec![100u8, 0, 0, 0, 0, 0, 0, 0];
    d.extend_from_slice(&id.to_le_bytes());
    d.extend_from_slice(&rewards.to_le_bytes());
    d.extend_from_slice(&[0u8; 16]);
    d
}

#[test]
fn bus_accounts_decode() {
    let mut wrong_kind = bus_bytes(1, 50);
    wrong_kind[0] = 101;
    let accounts = vec![
        Some(bus_bytes(0, 5)),
        Some(bus_bytes(1, 9)),
        None,
        Some(wrong_kind),
        Some(vec![100u8, 0, 0]),
        Some(bus_bytes(9, 70)),
        Some(bus_bytes(2, 2)),
    ];
    let snaps = decode_buses(&accounts);
    assert_eq!(keep_bus(Some(BusSnapshot { id: 7, rewards: 1 })), Some(BusSnapshot { id: 7, rewards: 1 }));
    assert_eq!(keep_bus(Some(BusSnapshot { id: 8, rewards: 1 })), None);
    assert_eq!(keep_bus(None), None);
    assert_eq!(snaps.len(), 7);
    assert_eq!(snaps[0], Some(BusSnapshot { id: 0, rewards: 5 }));
    assert_eq!(snaps[1], Some(BusSnapshot { id: 1, rewards: 9 }));
    assert_eq!(snaps[2], None);
    assert_eq!(snaps[3], None);
    assert_eq!(snaps[4], None);
    assert_eq!(snaps[5], None);
    assert_eq!(snaps[6], Some(BusSnapshot { id: 2, rewards: 2 }));
    assert_eq!(select_bus(&snaps), 1);
}

fn run_submission(outcomes: &[bool]) -> (SubmitStep, usize) {
    let mut failures: u8 = 0;
    let mut calls = 0;
    loop {
        let ok = outcomes[calls];
        calls += 1;
        match after_attempt(failures, ok) {
            SubmitStep::Retry { attempts } => failures = attempts,
            other => return (other, calls),
        }
    }
}

#[test]
fn submission_succeeds_on_third_attempt() {
    let (step, calls) = run_submission(&[false, false, true, true]);
    assert_eq!(step, SubmitStep::Confirmed { attempts: 3 });
    assert_eq!(calls, 3);
}

#[test]
fn submission_aborts_after_three_failures() {
    let (step, calls) = run_submission(&[false, false, false, false, false]);
    assert_eq!(step, SubmitStep::Abort { attempts: MAX_RETRIES });
    assert_eq!(calls, 3);
}

#[test]
fn submission_first_try() {
    assert_eq!(after_attempt(0, true), SubmitStep::Confirmed { attempts: 1 });
    assert_eq!(after_attempt(1, false), SubmitStep::Retry { attempts: 2 });
    assert_eq!(after_attempt(2, false), SubmitStep::Abort { attempts: 3 });
}

#[test]
fn reset_needs_due_time_and_winning_draw() {
    assert!(include_reset(true, 0));
    assert!(!include_reset(false, 0));
    for draw in 1..100u64 {
        assert!(!include_reset(true, draw));
    }
    for _ in 0..50 {
        assert_eq!(decide_reset(false), (false, None));
        let (included, draw) = decide_reset(true);
        let draw = draw.unwrap();
        assert!(draw < 100);
        assert_eq!(included, draw == 0);
    }
}

#[test]
fn round_plan_actions_and_budget() {
    let plain = RoundPlan::new(false);
    assert_eq!(plain.compute_budget, 500_000);
    assert_eq!(plain.actions(), vec![Action::Auth, Action::Mine]);
    let with_reset = RoundPlan::new(true);
    assert_eq!(with_reset.compute_budget, 600_000);
    assert_eq!(with_reset.actions(), vec![Action::Auth, Action::Reset, Action::Mine]);
}

#[test]
fn tracker_reports_balance_change() {
    let mut t = RoundTracker::new();
    assert_eq!(t.observe(100, 50), None);
    assert_eq!(t.observe(130, 120), Some(30));
    assert_eq!(t.observe(90, 180), Some(0));
    assert_eq!(t.last_hash_at, 180);
    assert_eq!(t.last_balance, 90);
}

#[test]
fn core_count_warning() {
    assert!(check_num_cores(8, 4));
    assert!(!check_num_cores(4, 4));
    assert!(!check_num_cores(1, 4));
}

#[test]
fn workers_split_nonce_space() {
    assert_eq!(Worker::new(0, 4).unwrap().nonce, 0);
    let w = Worker::new(2, 4).unwrap();
    assert_eq!(w.nonce, (u64::MAX / 4) * 2);
    assert_eq!(w.best.nonce, w.nonce);
    assert_eq!(w.best.difficulty, 0);
    assert!(Worker::new(4, 4).is_none());
    assert!(Worker::new(0, 0).is_none());
}

fn candidate(nonce: u64, difficulty: u32) -> Candidate {
    Candidate { nonce, difficulty, digest: [0u8; 16], hash: [0u8; 32] }
}

#[test]
fn best_of_workers_is_first_maximum() {
    let results = vec![candidate(10, 3), candidate(20, 7), candidate(30, 7), candidate(40, 1)];
    let best = find_best(&results);
    assert_eq!(best.nonce, 20);
    assert_eq!(best.difficulty, 7);
}

#[test]
fn best_of_idle_workers_is_zero() {
    let best = find_best(&Vec::new());
    assert_eq!(best.nonce, 0);
    assert_eq!(best.difficulty, 0);
    let best = find_best(&vec![candidate(5, 0), candidate(6, 0)]);
    assert_eq!(best.nonce, 0);
    assert_eq!(best.difficulty, 0);
}

#[test]
fn global_best_only_rises() {
    assert_eq!(raise_best(5, 3), 5);
    assert_eq!(raise_best(5, 9), 9);
    let mut best = 0u32;
    let mut last = 0u32;
    for d in [4u32, 2, 8, 8, 1, 11, 0] {
        best = raise_best(best, d);
        assert!(best >= last);
        last = best;
    }
    assert_eq!(best, 11);
}

#[test]
fn stop_needs_deadline_and_threshold() {
    assert!(should_stop(10, 10, 5, 5));
    assert!(!should_stop(9, 10, 50, 5));
    assert!(!should_stop(100, 10, 4, 5));
}

#[test]
fn hash_text_is_base58() {
    let zero = Candidate::zero();
    assert_eq!(zero.hash_text(), "11111111111111111111111111111111");
    let mut c = zero;
    c.hash[31] = 1;
    assert_eq!(c.hash_text(), "11111111111111111111111111111112");
}

#[test]
fn stride_hashes_up_to_checkpoint() {
    let challenge = [7u8; 32];
    let mut memory = SolverMemory::new();
    let mut w = Worker::new(0, 1).unwrap();
    let n = w.run_stride(&mut memory, &challenge);
    assert_eq!(n, 1);
    assert_eq!(w.nonce, 1);
    w.nonce = 98;
    let n = w.run_stride(&mut memory, &challenge);
    assert_eq!(n, 3);
    assert_eq!(w.nonce, 101);
    let mut best = 0u32;
    let mut best_nonce = 0u64;
    for nonce in [0u64, 98, 99, 100] {
        if let Ok(hx) = drillx::hash_with_memory(&mut memory, &challenge, &nonce.to_le_bytes()) {
            if hx.difficulty() > best {
                best = hx.difficulty();
                best_nonce = nonce;
            }
        }
    }
    assert_eq!(w.best.difficulty, best);
    assert_eq!(w.best.nonce, best_nonce);
    if best > 0 {
        let hx = drillx::hash_with_memory(&mut memory, &challenge, &best_nonce.to_le_bytes())
            .unwrap();
        assert_eq!(hx.h, w.best.hash);
        assert_eq!(hx.d, w.best.digest);
    }
}

#[test]
fn stride_stops_at_wraparound_checkpoint() {
    let challenge = [3u8; 32];
    let mut memory = SolverMemory::new();
    let mut w = Worker::new(0, 1).unwrap();
    w.nonce = u64::MAX;
    let n = w.run_stride(&mut memory, &challenge);
    assert_eq!(n, 2);
    assert_eq!(w.nonce, 1);
}
