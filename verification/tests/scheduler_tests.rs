use bounded_exec::admission::position;
use bounded_exec::config::validate;
use bounded_exec::config::ConfigError;
use bounded_exec::permits::GateAction;
use bounded_exec::permits::PermitGate;
use bounded_exec::permits::PermitPool;
use bounded_exec::stream::StreamAction;
use bounded_exec::stream::ThrottledStream;

#[test]
fn validate_accepts_positive_parameters() {
    assert_eq!(validate(1, 1), Ok(()));
    assert_eq!(validate(1000, 5), Ok(()));
    assert_eq!(validate(2, 10), Ok(()));
}

#[test]
fn validate_refuses_zero_ceiling() {
    assert_eq!(validate(10, 0), Err(ConfigError::ZeroConcurrency));
    assert_eq!(validate(0, 0), Err(ConfigError::ZeroConcurrency));
}

#[test]
fn validate_refuses_empty_workload() {
    assert_eq!(validate(0, 3), Err(ConfigError::ZeroTasks));
}

#[test]
fn config_errors_describe_themselves() {
    assert_eq!(
        ConfigError::ZeroConcurrency.message(),
        "max_concurrency must be at least 1"
    );
    assert_eq!(ConfigError::ZeroTasks.message(), "task_count must be at least 1");
}

#[test]
fn position_finds_the_place_of_an_identity() {
    let ids = vec![4usize, 9, 2];
    assert_eq!(position(&ids, 4), Some(0));
    assert_eq!(position(&ids, 2), Some(2));
    assert_eq!(position(&ids, 7), None);
    assert_eq!(position(&Vec::new(), 0), None);
}

#[test]
fn stream_refuses_bad_parameters() {
    assert_eq!(ThrottledStream::new(5, 0).unwrap_err(), ConfigError::ZeroConcurrency);
    assert_eq!(ThrottledStream::new(0, 5).unwrap_err(), ConfigError::ZeroTasks);
    assert_eq!(ThrottledStream::new(0, 0).unwrap_err(), ConfigError::ZeroConcurrency);
}

#[test]
fn stream_starts_up_to_the_ceiling_then_waits() {
    let mut stream = ThrottledStream::new(3, 2).unwrap();
    assert_eq!(stream.started(), 0);
    assert_eq!(stream.poll(), StreamAction::Start(0));
    assert_eq!(stream.poll(), StreamAction::Start(1));
    assert_eq!(stream.poll(), StreamAction::Wait);
    assert_eq!(stream.poll(), StreamAction::Wait);
    assert_eq!(stream.in_flight_count(), 2);
    assert_eq!(stream.in_flight_at(0), 0);
    assert_eq!(stream.in_flight_at(1), 1);
    assert!(stream.complete(1));
    assert_eq!(stream.completed(), 1);
    assert_eq!(stream.in_flight_count(), 1);
    assert_eq!(stream.poll(), StreamAction::Start(2));
    assert_eq!(stream.started(), 3);
    assert_eq!(stream.poll(), StreamAction::Wait);
    assert!(stream.complete(0));
    assert_eq!(stream.poll(), StreamAction::Wait);
    assert!(stream.complete(2));
    assert_eq!(stream.poll(), StreamAction::Done);
    assert_eq!(stream.poll(), StreamAction::Done);
    assert_eq!(stream.completed(), 3);
    assert_eq!(stream.in_flight_count(), 0);
}

#[test]
fn stream_ignores_a_task_that_is_not_in_flight() {
    let mut stream = ThrottledStream::new(4, 2).unwrap();
    assert!(!stream.complete(0));
    assert_eq!(stream.poll(), StreamAction::Start(0));
    assert!(!stream.complete(1));
    assert!(!stream.complete(17));
    assert!(stream.complete(0));
    assert!(!stream.complete(0));
    assert_eq!(stream.completed(), 1);
    assert_eq!(stream.started(), 1);
}

#[test]
fn stream_with_wide_ceiling_starts_every_task_at_once() {
    let mut stream = ThrottledStream::new(3, 10).unwrap();
    assert_eq!(stream.poll(), StreamAction::Start(0));
    assert_eq!(stream.poll(), StreamAction::Start(1));
    assert_eq!(stream.poll(), StreamAction::Start(2));
    assert_eq!(stream.poll(), StreamAction::Wait);
    assert_eq!(stream.in_flight_count(), 3);
}

#[test]
fn stream_never_exceeds_its_ceiling() {
    let mut stream = ThrottledStream::new(50, 4).unwrap();
    let mut turn = 0usize;
    let mut started = Vec::new();
    loop {
        assert!(stream.in_flight_count() <= 4);
        match stream.poll() {
            StreamAction::Start(id) => started.push(id),
            StreamAction::Wait => {
                let slot = (turn * 7 + 3) % stream.in_flight_count();
                let id = stream.in_flight_at(slot);
                assert!(stream.complete(id));
                turn += 1;
            }
            StreamAction::Done => break,
        }
    }
    assert_eq!(started, (0..50).collect::<Vec<usize>>());
    assert_eq!(stream.completed(), 50);
}

#[test]
fn pool_hands_out_what_it_has() {
    let mut pool = PermitPool::new(2);
    assert_eq!(pool.capacity(), 2);
    assert_eq!(pool.available(), 2);
    assert!(pool.try_acquire());
    assert!(pool.try_acquire());
    assert_eq!(pool.available(), 0);
    assert!(!pool.try_acquire());
    assert_eq!(pool.available(), 0);
    assert!(pool.release());
    assert_eq!(pool.available(), 1);
    assert!(pool.release());
    assert!(!pool.release());
    assert_eq!(pool.available(), 2);
    assert_eq!(pool.capacity(), 2);
}

#[test]
fn empty_pool_has_nothing_to_give() {
    let mut pool = PermitPool::new(0);
    assert!(!pool.try_acquire());
    assert!(!pool.release());
    assert_eq!(pool.available(), 0);
}

#[test]
fn gate_refuses_bad_parameters() {
    assert_eq!(PermitGate::new(5, 0).unwrap_err(), ConfigError::ZeroConcurrency);
    assert_eq!(PermitGate::new(0, 5).unwrap_err(), ConfigError::ZeroTasks);
    assert_eq!(PermitGate::new(0, 0).unwrap_err(), ConfigError::ZeroConcurrency);
}

#[test]
fn gate_launches_in_order_as_permits_free_up() {
    let mut gate = PermitGate::new(3, 2).unwrap();
    assert_eq!(gate.available_permits(), 2);
    assert_eq!(gate.poll(), GateAction::Spawn(0));
    assert_eq!(gate.available_permits(), 1);
    assert_eq!(gate.poll(), GateAction::Spawn(1));
    assert_eq!(gate.available_permits(), 0);
    assert_eq!(gate.poll(), GateAction::AwaitPermit);
    assert_eq!(gate.running_count(), 2);
    assert_eq!(gate.running_at(0), 0);
    assert_eq!(gate.running_at(1), 1);
    assert!(gate.complete(1));
    assert_eq!(gate.available_permits(), 1);
    assert_eq!(gate.poll(), GateAction::Spawn(2));
    assert_eq!(gate.started(), 3);
    assert_eq!(gate.poll(), GateAction::AwaitJoin);
    assert!(gate.complete(2));
    assert_eq!(gate.poll(), GateAction::AwaitJoin);
    assert!(gate.complete(0));
    assert_eq!(gate.available_permits(), 2);
    assert_eq!(gate.poll(), GateAction::Done);
    assert_eq!(gate.completed(), 3);
    assert_eq!(gate.running_count(), 0);
}

#[test]
fn gate_ignores_a_task_that_is_not_running() {
    let mut gate = PermitGate::new(4, 2).unwrap();
    assert!(!gate.complete(0));
    assert_eq!(gate.poll(), GateAction::Spawn(0));
    assert!(!gate.complete(3));
    assert!(gate.complete(0));
    assert!(!gate.complete(0));
    assert_eq!(gate.available_permits(), 2);
    assert_eq!(gate.completed(), 1);
}

#[test]
fn gate_with_wide_pool_awaits_only_the_join() {
    let mut gate = PermitGate::new(2, 8).unwrap();
    assert_eq!(gate.poll(), GateAction::Spawn(0));
    assert_eq!(gate.poll(), GateAction::Spawn(1));
    assert_eq!(gate.poll(), GateAction::AwaitJoin);
    assert_eq!(gate.available_permits(), 6);
}

#[test]
fn gate_never_exceeds_its_ceiling() {
    let mut gate = PermitGate::new(40, 3).unwrap();
    let mut turn = 0usize;
    let mut launched = Vec::new();
    loop {
        assert!(gate.running_count() <= 3);
        assert_eq!(gate.running_count() + gate.available_permits(), 3);
        match gate.poll() {
            GateAction::Spawn(id) => launched.push(id),
            GateAction::AwaitPermit | GateAction::AwaitJoin => {
                let slot = (turn * 5 + 1) % gate.running_count();
                let id = gate.running_at(slot);
                assert!(gate.complete(id));
                turn += 1;
            }
            GateAction::Done => break,
        }
    }
    assert_eq!(launched, (0..40).collect::<Vec<usize>>());
    assert_eq!(gate.completed(), 40);
}
