use bounded_exec::config::ConfigError;
use bounded_exec::lockstep::permit_rounds;
use bounded_exec::lockstep::stream_rounds;

#[test]
fn ten_tasks_two_at_a_time_take_five_rounds() {
    assert_eq!(stream_rounds(10, 2), Ok(5));
    assert_eq!(permit_rounds(10, 2), Ok(5));
}

#[test]
fn a_thousand_tasks_five_at_a_time_take_two_hundred_rounds() {
    assert_eq!(stream_rounds(1000, 5), Ok(200));
    assert_eq!(permit_rounds(1000, 5), Ok(200));
}

#[test]
fn a_last_round_may_be_partly_filled() {
    assert_eq!(stream_rounds(7, 3), Ok(3));
    assert_eq!(permit_rounds(7, 3), Ok(3));
    assert_eq!(stream_rounds(11, 10), Ok(2));
    assert_eq!(permit_rounds(11, 10), Ok(2));
}

#[test]
fn a_wide_ceiling_needs_one_round() {
    assert_eq!(stream_rounds(3, 8), Ok(1));
    assert_eq!(permit_rounds(3, 8), Ok(1));
    assert_eq!(stream_rounds(1, 1), Ok(1));
    assert_eq!(permit_rounds(4, 4), Ok(1));
}

#[test]
fn one_at_a_time_takes_a_round_per_task() {
    assert_eq!(stream_rounds(9, 1), Ok(9));
    assert_eq!(permit_rounds(9, 1), Ok(9));
}

#[test]
fn rounds_are_the_ceiling_division_for_both_variants() {
    for tasks in 1..40usize {
        for ceiling in 1..12usize {
            let expected = (tasks + ceiling - 1) / ceiling;
            assert_eq!(stream_rounds(tasks, ceiling), Ok(expected));
            assert_eq!(permit_rounds(tasks, ceiling), Ok(expected));
        }
    }
}

#[test]
fn rounds_refuse_bad_parameters() {
    assert_eq!(stream_rounds(10, 0), Err(ConfigError::ZeroConcurrency));
    assert_eq!(permit_rounds(10, 0), Err(ConfigError::ZeroConcurrency));
    assert_eq!(stream_rounds(0, 0), Err(ConfigError::ZeroConcurrency));
    assert_eq!(stream_rounds(0, 3), Err(ConfigError::ZeroTasks));
    assert_eq!(permit_rounds(0, 3), Err(ConfigError::ZeroTasks));
}
