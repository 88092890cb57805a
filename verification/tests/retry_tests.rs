use bounded_exec::outcome::simulate_api_call;
use bounded_exec::outcome::task_rng;
use bounded_exec::outcome::SuccessOdds;
use bounded_exec::retry::call_api;
use bounded_exec::retry::call_api_stubbed;
use bounded_exec::retry::call_api_within;
use bounded_exec::retry::RetryState;
use bounded_exec::retry::RetryStep;
use rand::rngs::StdRng;
use rand::SeedableRng;

#[test]
fn new_state_has_no_tries() {
    assert_eq!(RetryState::new().tries, 0);
}

#[test]
fn record_failure_asks_for_another_attempt() {
    let (next, step) = RetryState::new().record(false);
    assert_eq!(next.tries, 1);
    assert_eq!(step, RetryStep::TryAgain);
}

#[test]
fn record_success_reports_the_count() {
    let (next, step) = RetryState { tries: 4 }.record(true);
    assert_eq!(next.tries, 5);
    assert_eq!(step, RetryStep::Succeeded(5));
}

#[test]
fn call_api_stops_at_first_success() {
    assert_eq!(call_api(&[false, false, true, true, false]), Some(3));
    assert_eq!(call_api(&[true, true]), Some(1));
}

#[test]
fn call_api_without_success_is_unfinished() {
    assert_eq!(call_api(&[]), None);
    assert_eq!(call_api(&[false]), None);
    assert_eq!(call_api(&[false, false, false]), None);
}

#[test]
fn k_failures_then_success_is_k_plus_one_attempts() {
    for k in 0..20usize {
        let mut script = vec![false; k];
        script.push(true);
        assert_eq!(call_api(&script), Some(k as u64 + 1));
        assert_eq!(call_api_stubbed(k as u32), k as u64 + 1);
    }
}

#[test]
fn stubbed_task_edge_values() {
    assert_eq!(call_api_stubbed(0), 1);
    assert_eq!(call_api_stubbed(1), 2);
    assert_eq!(call_api_stubbed(1000), 1001);
}

#[test]
fn odds_are_built_only_from_probabilities() {
    assert!(SuccessOdds::new(4, 5).is_some());
    assert!(SuccessOdds::new(0, 1).is_some());
    assert!(SuccessOdds::new(7, 7).is_some());
    assert!(SuccessOdds::new(1, 0).is_none());
    assert!(SuccessOdds::new(0, 0).is_none());
    assert!(SuccessOdds::new(6, 5).is_none());
    let odds = SuccessOdds::new(4, 5).unwrap();
    assert_eq!(odds.numerator(), 4);
    assert_eq!(odds.denominator(), 5);
}

#[test]
fn certain_odds_always_succeed() {
    let odds = SuccessOdds::new(3, 3).unwrap();
    let mut rng = task_rng().unwrap();
    for _ in 0..200 {
        assert!(simulate_api_call(&mut rng, &odds));
    }
}

#[test]
fn zero_odds_never_succeed() {
    let odds = SuccessOdds::new(0, 9).unwrap();
    let mut rng = task_rng().unwrap();
    for _ in 0..200 {
        assert!(!simulate_api_call(&mut rng, &odds));
    }
}

#[test]
fn four_in_five_odds_succeed_about_four_times_in_five() {
    let odds = SuccessOdds::new(4, 5).unwrap();
    let mut rng = StdRng::seed_from_u64(7);
    let mut hits = 0u32;
    for _ in 0..10_000 {
        if simulate_api_call(&mut rng, &odds) {
            hits += 1;
        }
    }
    assert!(hits > 7_000 && hits < 9_000);
}

#[test]
fn seeded_draws_repeat() {
    let odds = SuccessOdds::new(1, 2).unwrap();
    let mut first = StdRng::seed_from_u64(42);
    let mut second = StdRng::seed_from_u64(42);
    for _ in 0..500 {
        assert_eq!(
            simulate_api_call(&mut first, &odds),
            simulate_api_call(&mut second, &odds)
        );
    }
}

#[test]
fn task_generators_draw_both_outcomes() {
    let odds = SuccessOdds::new(1, 2).unwrap();
    let mut rng = task_rng().unwrap();
    let mut hits = 0u32;
    for _ in 0..1_000 {
        if simulate_api_call(&mut rng, &odds) {
            hits += 1;
        }
    }
    assert!(hits > 0 && hits < 1_000);
}

#[test]
fn drawn_task_with_certain_odds_needs_one_attempt() {
    let odds = SuccessOdds::new(1, 1).unwrap();
    let mut rng = task_rng().unwrap();
    assert_eq!(call_api_within(&mut rng, &odds, 10), Some(1));
    assert_eq!(call_api_within(&mut rng, &odds, 1), Some(1));
    assert_eq!(call_api_within(&mut rng, &odds, 0), None);
}

#[test]
fn drawn_task_with_zero_odds_uses_up_its_attempts() {
    let odds = SuccessOdds::new(0, 1).unwrap();
    let mut rng = task_rng().unwrap();
    assert_eq!(call_api_within(&mut rng, &odds, 50), None);
}

#[test]
fn drawn_task_reports_within_its_limit() {
    let odds = SuccessOdds::new(4, 5).unwrap();
    let mut rng = StdRng::seed_from_u64(3);
    for _ in 0..200 {
        match call_api_within(&mut rng, &odds, 64) {
            Some(tries) => assert!(tries >= 1 && tries <= 64),
            None => {}
        }
    }
}

#[test]
fn drawn_task_matches_its_own_draws() {
    let odds = SuccessOdds::new(1, 3).unwrap();
    let mut replay = StdRng::seed_from_u64(11);
    let mut script = Vec::new();
    for _ in 0..40 {
        script.push(simulate_api_call(&mut replay, &odds));
    }
    let mut rng = StdRng::seed_from_u64(11);
    assert_eq!(call_api_within(&mut rng, &odds, 40), call_api(&script));
}

#[test]
fn task_generators_are_seeded_apart() {
    let odds = SuccessOdds::new(1, 2).unwrap();
    let mut first = task_rng().unwrap();
    let mut second = task_rng().unwrap();
    let mut same = true;
    for _ in 0..256 {
        if simulate_api_call(&mut first, &odds) != simulate_api_call(&mut second, &odds) {
            same = false;
        }
    }
    assert!(!same);
}
