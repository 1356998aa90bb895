use starry_syscalls::timerfd::{
    check_clock_id, from_time_value, sys_timerfd_create, sys_timerfd_gettime, sys_timerfd_settime,
    timerfd_flags, try_into_time_value, Itimerspec, TimerFd, TimerReadStep, Timespec,
    CLOCK_BOOTTIME, CLOCK_MONOTONIC, CLOCK_REALTIME, MAX_NANOS, TFD_CLOEXEC, TFD_NONBLOCK,
    TFD_TIMER_ABSTIME,
};
use starry_syscalls::SysError;

const SEC: u128 = 1_000_000_000;

fn ts(sec: i64, nsec: i64) -> Timespec {
    Timespec { tv_sec: sec, tv_nsec: nsec }
}

fn spec(value: Timespec, interval: Timespec) -> Itimerspec {
    Itimerspec { it_interval: interval, it_value: value }
}

#[test]
fn only_three_clocks_are_accepted() {
    assert_eq!(check_clock_id(CLOCK_REALTIME), Ok(()));
    assert_eq!(check_clock_id(CLOCK_MONOTONIC), Ok(()));
    assert_eq!(check_clock_id(CLOCK_BOOTTIME), Ok(()));
    assert_eq!(check_clock_id(2), Err(SysError::InvalidInput));
    assert_eq!(check_clock_id(-1), Err(SysError::InvalidInput));
}

#[test]
fn timespec_conversion_checks_its_fields() {
    assert_eq!(try_into_time_value(ts(3, 5)), Ok(3 * SEC + 5));
    assert_eq!(try_into_time_value(ts(0, 999_999_999)), Ok(999_999_999));
    assert_eq!(try_into_time_value(ts(-1, 0)), Err(SysError::InvalidInput));
    assert_eq!(try_into_time_value(ts(0, -1)), Err(SysError::InvalidInput));
    assert_eq!(try_into_time_value(ts(0, 1_000_000_000)), Err(SysError::InvalidInput));
    assert_eq!(from_time_value(3 * SEC + 5), ts(3, 5));
    assert_eq!(from_time_value(0), ts(0, 0));
    assert_eq!(from_time_value(MAX_NANOS), ts(-1, 999_999_999));
}

#[test]
fn create_reads_its_flags() {
    assert_eq!(timerfd_flags(TFD_NONBLOCK | TFD_CLOEXEC), (true, true));
    assert_eq!(timerfd_flags(0), (false, false));
    let (t, cloexec) = sys_timerfd_create(CLOCK_MONOTONIC, TFD_NONBLOCK).unwrap();
    assert!(!cloexec);
    assert!(t.nonblocking());
    assert!(!t.uses_wall_clock());
    assert_eq!(t.value, 0);
    let (w, cloexec) = sys_timerfd_create(CLOCK_REALTIME, TFD_CLOEXEC).unwrap();
    assert!(cloexec);
    assert!(!w.nonblocking());
    assert!(w.uses_wall_clock());
    assert_eq!(sys_timerfd_create(5, 0), Err(SysError::InvalidInput));
}

#[test]
fn new_timer_is_disarmed_and_not_readable() {
    let t = TimerFd::new(CLOCK_MONOTONIC);
    assert!(!t.poll(100 * SEC));
    assert_eq!(t.read_check(8, 100 * SEC), TimerReadStep::Fail(SysError::WouldBlock));
    assert_eq!(t.read_check(4, 100 * SEC), TimerReadStep::Fail(SysError::InvalidInput));
    assert_eq!(t.write(), Err(SysError::InvalidInput));
    assert_eq!(sys_timerfd_gettime(&t, 5 * SEC), spec(ts(0, 0), ts(0, 0)));
}

#[test]
fn settime_returns_the_previous_setting() {
    let mut t = TimerFd::new(CLOCK_MONOTONIC);
    let old = sys_timerfd_settime(&mut t, 10 * SEC, 0, Ok(spec(ts(2, 0), ts(1, 0))));
    assert_eq!(old, Ok(spec(ts(0, 0), ts(0, 0))));
    assert_eq!(t.value, 2 * SEC);
    assert_eq!(t.interval, SEC);
    assert_eq!(t.start_time, 10 * SEC);
    assert!(!t.abstime);
    let old = sys_timerfd_settime(&mut t, 11 * SEC, 0, Ok(spec(ts(0, 0), ts(0, 0))));
    assert_eq!(old, Ok(spec(ts(2, 0), ts(1, 0))));
    assert_eq!(t.value, 0);
}

#[test]
fn settime_rejects_bad_timespecs_and_leaves_the_timer() {
    let mut t = TimerFd::new(CLOCK_MONOTONIC);
    let before = t;
    assert_eq!(
        sys_timerfd_settime(&mut t, SEC, 0, Ok(spec(ts(0, -5), ts(0, 0)))),
        Err(SysError::InvalidInput)
    );
    assert_eq!(
        sys_timerfd_settime(&mut t, SEC, 0, Ok(spec(ts(1, 0), ts(-1, 0)))),
        Err(SysError::InvalidInput)
    );
    assert_eq!(sys_timerfd_settime(&mut t, SEC, 0, Err(SysError::NotFound)), Err(SysError::NotFound));
    assert_eq!(t, before);
}

#[test]
fn gettime_counts_down_a_relative_timer() {
    let mut t = TimerFd::new(CLOCK_MONOTONIC);
    sys_timerfd_settime(&mut t, 10 * SEC, 0, Ok(spec(ts(5, 0), ts(0, 0)))).unwrap();
    assert_eq!(sys_timerfd_gettime(&t, 10 * SEC), spec(ts(5, 0), ts(0, 0)));
    assert_eq!(sys_timerfd_gettime(&t, 12 * SEC), spec(ts(3, 0), ts(0, 0)));
    assert_eq!(sys_timerfd_gettime(&t, 20 * SEC), spec(ts(0, 0), ts(0, 0)));
}

#[test]
fn gettime_of_an_absolute_timer_is_measured_from_the_deadline() {
    let mut t = TimerFd::new(CLOCK_REALTIME);
    sys_timerfd_settime(&mut t, 10 * SEC, TFD_TIMER_ABSTIME, Ok(spec(ts(15, 0), ts(2, 0)))).unwrap();
    assert!(t.abstime);
    assert_eq!(sys_timerfd_gettime(&t, 11 * SEC), spec(ts(4, 0), ts(2, 0)));
    assert_eq!(t.get_time(16 * SEC), (0, 2 * SEC));
}

#[test]
fn one_shot_timer_fires_once_then_disarms() {
    let mut t = TimerFd::new(CLOCK_MONOTONIC);
    t.settle(100, 50, 0, false);
    assert!(!t.poll(149));
    assert_eq!(t.read_check(8, 120), TimerReadStep::Sleep(30));
    assert!(t.poll(150));
    assert_eq!(t.read_check(8, 150), TimerReadStep::Ready);
    assert_eq!(t.read_expirations(400), Ok(1));
    assert_eq!(t.value, 0);
    assert_eq!(t.start_time, 400);
    assert!(!t.poll(1000));
    assert_eq!(t.read_expirations(1000), Err(SysError::WouldBlock));
}

#[test]
fn periodic_timer_counts_every_interval_and_advances() {
    let mut t = TimerFd::new(CLOCK_MONOTONIC);
    t.settle(0, 10, 5, false);
    assert_eq!(TimerFd::count_expirations(10, 5, 0, 9, false), 0);
    assert_eq!(TimerFd::count_expirations(10, 5, 0, 10, false), 1);
    assert_eq!(TimerFd::count_expirations(10, 5, 0, 24, false), 3);
    assert_eq!(t.read_expirations(24), Ok(3));
    // The start moves on by three intervals.
    assert_eq!(t.start_time, 15);
    assert_eq!(t.value, 10);
    assert_eq!(t.read_expirations(24), Err(SysError::WouldBlock));
    assert_eq!(t.read_expirations(25), Ok(1));
    assert_eq!(t.start_time, 20);
}

#[test]
fn absolute_periodic_timer_counts_from_the_deadline() {
    assert_eq!(TimerFd::count_expirations(100, 10, 0, 99, true), 0);
    assert_eq!(TimerFd::count_expirations(100, 0, 0, 500, true), 1);
    assert_eq!(TimerFd::count_expirations(100, 10, 0, 135, true), 4);
    // Before its start a relative timer has not run at all.
    assert_eq!(TimerFd::count_expirations(1, 1, 50, 10, false), 0);
}

#[test]
fn nonblocking_read_of_a_pending_timer_would_block() {
    let mut t = TimerFd::new(CLOCK_MONOTONIC);
    t.settle(0, 100, 0, false);
    assert_eq!(t.set_nonblocking(true), Ok(()));
    assert_eq!(t.read_check(8, 10), TimerReadStep::Fail(SysError::WouldBlock));
    assert_eq!(t.read_check(8, 100), TimerReadStep::Ready);
}

#[test]
fn poll_agrees_with_read() {
    let mut t = TimerFd::new(CLOCK_MONOTONIC);
    t.settle(0, 7, 3, false);
    for now in 0..30u128 {
        let readable = t.poll(now);
        let mut copy = t;
        assert_eq!(readable, copy.read_expirations(now).is_ok());
    }
}

#[test]
fn expirations_never_go_down_over_time() {
    let mut last = 0;
    for now in 0..100u128 {
        let n = TimerFd::count_expirations(10, 7, 3, now, false);
        assert!(n >= last);
        last = n;
    }
}

#[test]
fn gettime_right_after_settime_gives_the_setting_back() {
    let mut t = TimerFd::new(CLOCK_BOOTTIME);
    sys_timerfd_settime(&mut t, 42 * SEC, 0, Ok(spec(ts(3, 250), ts(1, 5)))).unwrap();
    assert_eq!(sys_timerfd_gettime(&t, 42 * SEC), spec(ts(3, 250), ts(1, 5)));
}

#[test]
fn timespec_survives_the_trip_through_nanoseconds() {
    for v in [ts(0, 0), ts(1, 999_999_999), ts(i64::MAX, 5)] {
        let t = try_into_time_value(v).unwrap();
        assert_eq!(from_time_value(t), v);
    }
}

#[test]
fn absolute_periodic_read_consumes_its_expirations() {
    let mut t = TimerFd::new(CLOCK_REALTIME);
    sys_timerfd_settime(&mut t, 0, TFD_TIMER_ABSTIME, Ok(spec(ts(0, 100), ts(0, 10)))).unwrap();
    assert_eq!(t.read_expirations(135), Ok(4));
    // The next deadline is the one after the last reported expiration.
    assert_eq!(t.value, 140);
    assert_eq!(t.read_expirations(135), Err(SysError::WouldBlock));
    assert!(!t.poll(135));
    assert_eq!(t.get_time(135), (5, 10));
    assert_eq!(t.read_expirations(150), Ok(2));
    assert_eq!(t.read_expirations(150), Err(SysError::WouldBlock));
}

#[test]
fn settle_returns_the_previous_setting() {
    let mut t = TimerFd::new(CLOCK_MONOTONIC);
    assert_eq!(t.settle(5, 100, 10, true), (0, 0, false));
    assert_eq!(t.settle(6, 7, 0, false), (100, 10, true));
}
