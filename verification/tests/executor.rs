use discrete_event::event::{Event, EventAction, EventDisposition};
use discrete_event::executor::EventExecutor;

struct Echo;

impl EventAction<i32> for Echo {
    fn execute(&self, execution_time: i32) -> EventDisposition<i32> {
        if execution_time % 2 == 0 {
            EventDisposition::Reschedule(execution_time + 1)
        } else {
            EventDisposition::Delete
        }
    }
}

fn dispatch_all(executor: &mut EventExecutor<i32>, times: &[i32]) {
    for time in times {
        executor.execute(&Event::new(*time, Echo));
    }
}

#[test]
fn new_executor_starts_at_the_start_time() {
    let executor = EventExecutor::new(7, 100);
    assert_eq!(executor.log_frequency, 100);
    assert_eq!(executor.last_log_time, 7);
    assert_eq!(executor.current_time, 7);
    assert!(executor.logged.is_empty());
}

#[test]
fn execute_hands_back_what_the_action_answered() {
    let mut executor = EventExecutor::new(0, 100);
    assert_eq!(executor.execute(&Event::new(4, Echo)), EventDisposition::Reschedule(5));
    assert_eq!(executor.execute(&Event::new(5, Echo)), EventDisposition::Delete);
}

#[test]
fn execute_moves_the_clock_to_the_event() {
    let mut executor = EventExecutor::new(0, 100);
    executor.execute(&Event::new(30, Echo));
    assert_eq!(executor.current_time, 30);
    assert_eq!(executor.last_log_time, 0);
    executor.execute(&Event::new(12, Echo));
    assert_eq!(executor.current_time, 12);
}

#[test]
fn a_line_is_due_exactly_when_the_interval_has_passed() {
    let mut executor = EventExecutor::new(0, 100);
    dispatch_all(&mut executor, &[99]);
    assert!(executor.logged.is_empty());
    dispatch_all(&mut executor, &[100]);
    assert_eq!(executor.logged, vec![100]);
    assert_eq!(executor.last_log_time, 100);
    dispatch_all(&mut executor, &[199]);
    assert_eq!(executor.logged, vec![100]);
    dispatch_all(&mut executor, &[200]);
    assert_eq!(executor.logged, vec![100, 200]);
    assert_eq!(executor.last_log_time, 200);
}

#[test]
fn the_interval_counts_from_the_last_line_not_from_the_last_event() {
    let mut executor = EventExecutor::new(0, 100);
    dispatch_all(&mut executor, &[60, 130, 190, 229, 230, 300, 329, 330]);
    assert_eq!(executor.logged, vec![130, 230, 330]);
    assert_eq!(executor.last_log_time, 330);
    assert_eq!(executor.current_time, 330);
}

#[test]
fn a_burst_of_events_gives_one_line() {
    let mut executor = EventExecutor::new(0, 10);
    dispatch_all(&mut executor, &[10, 10, 10, 11, 12, 19, 20, 20]);
    assert_eq!(executor.logged, vec![10, 20]);
}

#[test]
fn log_lines_keep_their_distance() {
    let mut executor = EventExecutor::new(3, 25);
    let mut time = 3;
    let mut state: u32 = 12345;
    for _ in 0..400 {
        state = state.wrapping_mul(1103515245).wrapping_add(12345);
        time += ((state >> 16) % 9) as i32;
        executor.execute(&Event::new(time, Echo));
    }
    assert!(!executor.logged.is_empty());
    assert!(executor.logged[0] - 3 >= 25);
    for pair in executor.logged.windows(2) {
        assert!(pair[1] - pair[0] >= 25);
    }
    assert_eq!(executor.last_log_time, *executor.logged.last().unwrap());
}

#[test]
fn an_interval_of_zero_logs_every_event_that_is_not_early() {
    let mut executor = EventExecutor::new(5, 0);
    dispatch_all(&mut executor, &[5, 5, 4, 6]);
    assert_eq!(executor.logged, vec![5, 5, 6]);
}

#[test]
fn an_event_before_the_last_line_is_not_logged() {
    let mut executor = EventExecutor::new(100, 10);
    dispatch_all(&mut executor, &[5, 109]);
    assert!(executor.logged.is_empty());
    assert_eq!(executor.current_time, 109);
    dispatch_all(&mut executor, &[110]);
    assert_eq!(executor.logged, vec![110]);
}

#[test]
fn the_difference_of_far_apart_times_does_not_wrap() {
    let mut executor = EventExecutor::new(i32::MAX, 1);
    dispatch_all(&mut executor, &[i32::MIN]);
    assert!(executor.logged.is_empty());
    let mut executor = EventExecutor::new(i32::MIN, i32::MAX);
    dispatch_all(&mut executor, &[i32::MAX]);
    assert_eq!(executor.logged, vec![i32::MAX]);
}

#[test]
fn a_progress_line_shows_the_time_after_t_equals() {
    assert_eq!(discrete_event::executor::progress_line(&100i32), "t = 100");
    assert_eq!(discrete_event::executor::progress_line(&0i32), "t = 0");
    assert_eq!(discrete_event::executor::progress_line(&-7i64), "t = -7");
    assert_eq!(
        discrete_event::executor::progress_line(&u64::MAX),
        "t = 18446744073709551615"
    );
    assert_eq!(
        discrete_event::executor::progress_line(&i32::MIN),
        format!("t = {}", i32::MIN)
    );
}

#[test]
fn log_lines_are_the_lines_of_the_logged_times() {
    let mut executor = EventExecutor::new(0, 100);
    assert!(executor.log_lines().is_empty());
    dispatch_all(&mut executor, &[60, 130, 190, 229, 230, 300, 329, 330]);
    assert_eq!(executor.log_lines(), vec!["t = 130", "t = 230", "t = 330"]);
}
