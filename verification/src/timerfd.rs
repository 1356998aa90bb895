//! Timer file descriptors (`timerfd_create`, `timerfd_settime`,
//! `timerfd_gettime`, and reading or polling the descriptor).
//!
//! Times are nanosecond counts. A timer holds its initial expiration
//! `value` (zero: disarmed), its `interval` (zero: one-shot), whether `value`
//! is an absolute time, and the time `start` it was last set or advanced.
use vstd::prelude::*;

use crate::error::SysError;

verus! {

pub const NANOS_PER_SEC: u128 = 1_000_000_000;
/// The largest time, in nanoseconds: `u64::MAX` seconds plus a second less
/// one nanosecond.
pub const MAX_NANOS: u128 = 18_446_744_073_709_551_615_999_999_999;

pub const CLOCK_REALTIME: i32 = 0;
pub const CLOCK_MONOTONIC: i32 = 1;
pub const CLOCK_BOOTTIME: i32 = 7;

pub const TFD_TIMER_ABSTIME: u32 = 1;
pub const TFD_NONBLOCK: u32 = 0o4000;
pub const TFD_CLOEXEC: u32 = 0o2000000;

/// A `struct timespec`.
#[derive(Clone, Copy, Debug, PartialEq, Eq)]
pub struct Timespec {
    pub tv_sec: i64,
    pub tv_nsec: i64,
}

/// A `struct itimerspec`.
#[derive(Clone, Copy, Debug, PartialEq, Eq)]
pub struct Itimerspec {
    pub it_interval: Timespec,
    pub it_value: Timespec,
}

/// `a - b`, or zero when `b` is later.
pub open spec fn sat_sub(a: u128, b: u128) -> u128 {
    if a >= b {
        (a - b) as u128
    } else {
        0
    }
}

/// `q + 1` in 64-bit wrapping arithmetic.
pub open spec fn wrap_succ(q: u64) -> u64 {
    if q == u64::MAX {
        0
    } else {
        (q + 1) as u64
    }
}

/// How many times a timer has expired by `now`.
pub open spec fn expirations(value: u128, interval: u128, start: u128, now: u128, abstime: bool) -> u64 {
    if abstime {
        if now < value {
            0
        } else if interval == 0 {
            1
        } else {
            wrap_succ((((now - value) as u128) / interval) as u64)
        }
    } else {
        let elapsed = sat_sub(now, start);
        if elapsed < value {
            0
        } else if interval == 0 {
            1
        } else {
            wrap_succ((((elapsed - value) as u128) / interval) as u64)
        }
    }
}

/// The time left until an armed timer first expires.
pub open spec fn remaining_of(value: u128, start: u128, now: u128, abstime: bool) -> u128 {
    if abstime {
        sat_sub(value, now)
    } else {
        sat_sub(value, sat_sub(now, start))
    }
}

/// A timerfd's settings.
#[derive(Clone, Copy, Debug, PartialEq, Eq)]
pub struct TimerFd {
    pub clock_id: i32,
    pub value: u128,
    pub interval: u128,
    pub abstime: bool,
    pub start_time: u128,
    pub non_blocking: bool,
}

/// What a read of a timerfd does next.
#[derive(Clone, Copy, Debug, PartialEq, Eq)]
pub enum TimerReadStep {
    /// The read fails.
    Fail(SysError),
    /// The timer has not expired: sleep this long, then finish the read.
    Sleep(u128),
    /// The timer has expired: finish the read.
    Ready,
}

fn sub_or_zero(a: u128, b: u128) -> (r: u128)
    ensures
        r == sat_sub(a, b),
{
    if a >= b {
        a - b
    } else {
        0
    }
}

/// `clock_id` names a clock a timerfd can use: `CLOCK_REALTIME`,
/// `CLOCK_MONOTONIC` or `CLOCK_BOOTTIME`.
pub fn check_clock_id(clock_id: i32) -> (r: Result<(), SysError>)
    ensures
        r == if clock_id == CLOCK_REALTIME || clock_id == CLOCK_MONOTONIC || clock_id == CLOCK_BOOTTIME {
            Ok(())
        } else {
            Err::<(), SysError>(SysError::InvalidInput)
        },
{
    if clock_id == CLOCK_REALTIME || clock_id == CLOCK_MONOTONIC || clock_id == CLOCK_BOOTTIME {
        Ok(())
    } else {
        Err(SysError::InvalidInput)
    }
}

/// A `timespec` as nanoseconds: seconds must not be negative and nanoseconds
/// must lie in `[0, 1e9)`.
pub open spec fn timespec_nanos(ts: Timespec) -> Result<u128, SysError> {
    if ts.tv_sec < 0 || ts.tv_nsec < 0 || ts.tv_nsec >= 1_000_000_000 {
        Err(SysError::InvalidInput)
    } else {
        Ok((ts.tv_sec * 1_000_000_000 + ts.tv_nsec) as u128)
    }
}

/// Converts a `timespec` into a time.
pub fn try_into_time_value(ts: Timespec) -> (r: Result<u128, SysError>)
    ensures
        r == timespec_nanos(ts),
        r matches Ok(t) ==> t <= MAX_NANOS,
{
    if ts.tv_sec < 0 || ts.tv_nsec < 0 || ts.tv_nsec >= 1_000_000_000 {
        return Err(SysError::InvalidInput);
    }
    let secs = ts.tv_sec as u128;
    let nanos = ts.tv_nsec as u128;
    proof {
        assert(secs * 1_000_000_000 <= 0x7fff_ffff_ffff_ffff * 1_000_000_000) by (nonlinear_arith)
            requires
                secs <= 0x7fff_ffff_ffff_ffff,
        ;
    }
    Ok(secs * NANOS_PER_SEC + nanos)
}

/// A time as a `timespec`: whole seconds (as a 64-bit signed count) and the
/// nanoseconds left over.
pub open spec fn timespec_of(t: u128) -> Timespec {
    Timespec { tv_sec: (t / 1_000_000_000) as u64 as i64, tv_nsec: (t % 1_000_000_000) as i64 }
}

/// Converts a time into a `timespec`.
pub fn from_time_value(t: u128) -> (r: Timespec)
    requires
        t <= MAX_NANOS,
    ensures
        r == timespec_of(t),
{
    let secs = (t / NANOS_PER_SEC) as u64;
    Timespec { tv_sec: secs as i64, tv_nsec: (t % NANOS_PER_SEC) as i64 }
}

/// The timer after a read at `now` that found expirations: a periodic timer
/// moves on by the reported count of intervals (taken in 64-bit wrapping
/// arithmetic), the start for a relative timer and the deadline for an
/// absolute one, as far as the largest time allows; a one-shot timer is
/// disarmed.
pub open spec fn after_read(t: TimerFd, now: u128) -> TimerFd {
    let count = expirations(t.value, t.interval, t.start_time, now, t.abstime);
    if t.interval != 0 {
        let advance = ((t.interval as u64) as nat * count as nat) % 0x1_0000_0000_0000_0000;
        if t.abstime {
            if t.value + advance <= MAX_NANOS {
                TimerFd { value: (t.value + advance) as u128, ..t }
            } else {
                t
            }
        } else {
            TimerFd {
                start_time: if t.start_time + advance <= MAX_NANOS {
                    (t.start_time + advance) as u128
                } else {
                    now
                },
                ..t
            }
        }
    } else {
        TimerFd { value: 0, start_time: now, ..t }
    }
}

/// How long past its first deadline the timer is at `now` (negative before it).
pub open spec fn overdue(t: TimerFd, now: u128) -> int {
    if t.abstime {
        now - t.value
    } else {
        sat_sub(now, t.start_time) - t.value
    }
}

/// Whether timer `t` is readable at time `now`: armed, with an expiration
/// to report.
pub open spec fn readable(t: TimerFd, now: u128) -> bool {
    t.value != 0 && expirations(t.value, t.interval, t.start_time, now, t.abstime) > 0
}

/// What the first part of a read into `dst_len` bytes at time `now` does.
pub open spec fn read_step(t: TimerFd, dst_len: usize, now: u128) -> TimerReadStep {
    if dst_len < 8 {
        TimerReadStep::Fail(SysError::InvalidInput)
    } else if t.value == 0 {
        TimerReadStep::Fail(SysError::WouldBlock)
    } else if (if t.abstime {
        now >= t.value
    } else {
        sat_sub(now, t.start_time) >= t.value
    }) {
        TimerReadStep::Ready
    } else if t.non_blocking {
        TimerReadStep::Fail(SysError::WouldBlock)
    } else {
        TimerReadStep::Sleep(remaining_of(t.value, t.start_time, now, t.abstime))
    }
}

/// What reading the expiration count of `t` at time `now` returns.
pub open spec fn read_outcome(t: TimerFd, now: u128) -> Result<u64, SysError> {
    let count = expirations(t.value, t.interval, t.start_time, now, t.abstime);
    if t.value == 0 || count == 0 {
        Err(SysError::WouldBlock)
    } else {
        Ok(count)
    }
}

impl TimerFd {
    pub open spec fn wf(&self) -> bool {
        self.value <= MAX_NANOS && self.interval <= MAX_NANOS && self.start_time <= MAX_NANOS
    }

    /// A disarmed, blocking timer on clock `clock_id`.
    pub fn new(clock_id: i32) -> (r: Self)
        ensures
            r.wf(),
            r == (TimerFd {
                clock_id,
                value: 0,
                interval: 0,
                abstime: false,
                start_time: 0,
                non_blocking: false,
            }),
    {
        TimerFd { clock_id, value: 0, interval: 0, abstime: false, start_time: 0, non_blocking: false }
    }

    /// Whether the timer reads the wall clock (`CLOCK_REALTIME`) rather than
    /// the monotonic clock.
    pub fn uses_wall_clock(&self) -> (r: bool)
        ensures
            r == (self.clock_id == CLOCK_REALTIME),
    {
        self.clock_id == CLOCK_REALTIME
    }

    /// Arms (or, with a zero value, disarms) the timer at time `now`,
    /// returning the previous value, interval and absolute-time flag.
    pub fn settle(&mut self, now: u128, new_value: u128, new_interval: u128, abstime: bool) -> (r: (
        u128,
        u128,
        bool,
    ))
        ensures
            r == (old(self).value, old(self).interval, old(self).abstime),
            *final(self) == (TimerFd {
                value: new_value,
                interval: new_interval,
                abstime,
                start_time: now,
                ..*old(self)
            }),
    {
        let old_value = self.value;
        let old_interval = self.interval;
        let old_abstime = self.abstime;
        self.value = new_value;
        self.interval = new_interval;
        self.abstime = abstime;
        self.start_time = now;
        (old_value, old_interval, old_abstime)
    }

    /// The time until the next expiration and the interval, at time `now`.
    pub fn get_time(&self, now: u128) -> (r: (u128, u128))
        ensures
            r == if self.value == 0 {
                (self.value, self.interval)
            } else {
                (remaining_of(self.value, self.start_time, now, self.abstime), self.interval)
            },
    {
        if self.value == 0 {
            return (self.value, self.interval);
        }
        let elapsed = sub_or_zero(now, self.start_time);
        let remaining = if self.abstime {
            sub_or_zero(self.value, now)
        } else {
            sub_or_zero(self.value, elapsed)
        };
        (remaining, self.interval)
    }

    /// How many times a timer set as given has expired by `now`.
    pub fn count_expirations(value: u128, interval: u128, start: u128, now: u128, abstime: bool) -> (r: u64)
        ensures
            r == expirations(value, interval, start, now, abstime),
    {
        let elapsed = sub_or_zero(now, start);
        if abstime {
            if now < value {
                return 0;
            }
            let since_deadline = now - value;
            if interval == 0 {
                return 1;
            }
            let q = (since_deadline / interval) as u64;
            q.wrapping_add(1)
        } else {
            if elapsed < value {
                return 0;
            }
            if interval == 0 {
                return 1;
            }
            let since_first = elapsed - value;
            let q = (since_first / interval) as u64;
            q.wrapping_add(1)
        }
    }

    /// Whether the timer is in non-blocking mode.
    pub fn nonblocking(&self) -> (r: bool)
        ensures
            r == self.non_blocking,
    {
        self.non_blocking
    }

    /// Sets non-blocking mode.
    pub fn set_nonblocking(&mut self, non_blocking: bool) -> (r: Result<(), SysError>)
        ensures
            r == Ok::<(), SysError>(()),
            *final(self) == (TimerFd { non_blocking, ..*old(self) }),
    {
        self.non_blocking = non_blocking;
        Ok(())
    }

    /// Writing to a timerfd is `EINVAL`.
    pub fn write(&self) -> (r: Result<usize, SysError>)
        ensures
            r == Err::<usize, SysError>(SysError::InvalidInput),
    {
        Err(SysError::InvalidInput)
    }

    /// Whether the timer is readable at time `now`: armed and expired.
    pub fn poll(&self, now: u128) -> (r: bool)
        ensures
            r == readable(*self, now),
    {
        if self.value == 0 {
            return false;
        }
        Self::count_expirations(self.value, self.interval, self.start_time, now, self.abstime) > 0
    }

    /// The first part of a read into a buffer of `dst_len` bytes at time `now`.
    pub fn read_check(&self, dst_len: usize, now: u128) -> (r: TimerReadStep)
        ensures
            r == read_step(*self, dst_len, now),
    {
        if dst_len < 8 {
            return TimerReadStep::Fail(SysError::InvalidInput);
        }
        if self.value == 0 {
            return TimerReadStep::Fail(SysError::WouldBlock);
        }
        let elapsed = sub_or_zero(now, self.start_time);
        let expired = if self.abstime {
            now >= self.value
        } else {
            elapsed >= self.value
        };
        if expired {
            return TimerReadStep::Ready;
        }
        if self.non_blocking {
            return TimerReadStep::Fail(SysError::WouldBlock);
        }
        let remaining = if self.abstime {
            sub_or_zero(self.value, now)
        } else {
            sub_or_zero(self.value, elapsed)
        };
        TimerReadStep::Sleep(remaining)
    }

    /// The second part of a read at time `now`: the number of expirations,
    /// which the read consumes. A periodic timer moves on past the last of
    /// them: a relative one by starting over from it, an absolute one by
    /// taking the next deadline after it. A one-shot timer is disarmed.
    pub fn read_expirations(&mut self, now: u128) -> (r: Result<u64, SysError>)
        requires
            old(self).wf(),
            now <= MAX_NANOS,
        ensures
            final(self).wf(),
            r == read_outcome(*old(self), now),
            *final(self) == if r is Ok {
                after_read(*old(self), now)
            } else {
                *old(self)
            },
    {
        if self.value == 0 {
            return Err(SysError::WouldBlock);
        }
        let count = Self::count_expirations(self.value, self.interval, self.start_time, now, self.abstime);
        if count == 0 {
            return Err(SysError::WouldBlock);
        }
        if self.interval != 0 {
            let nanos: u64 = (self.interval as u64).wrapping_mul(count);
            let advance = nanos as u128;
            if self.abstime {
                if self.value <= MAX_NANOS - advance {
                    self.value = self.value + advance;
                }
            } else if self.start_time <= MAX_NANOS - advance {
                self.start_time = self.start_time + advance;
            } else {
                self.start_time = now;
            }
        } else {
            self.value = 0;
            self.start_time = now;
        }
        Ok(count)
    }
}

/// The non-blocking and close-on-exec choices of `timerfd_create` flags.
pub fn timerfd_flags(flags: u32) -> (r: (bool, bool))
    ensures
        r == (flags & TFD_NONBLOCK != 0, flags & TFD_CLOEXEC != 0),
{
    (flags & TFD_NONBLOCK != 0, flags & TFD_CLOEXEC != 0)
}

/// `timerfd_create(clock_id, flags)`: a new timer, and whether its
/// descriptor is close-on-exec.
pub fn sys_timerfd_create(clock_id: i32, flags: u32) -> (r: Result<(TimerFd, bool), SysError>)
    ensures
        match check_clock_id_spec(clock_id) {
            Err(e) => r == Err::<(TimerFd, bool), SysError>(e),
            Ok(_) => r == Ok::<(TimerFd, bool), SysError>(
                (
                    TimerFd {
                        clock_id,
                        value: 0,
                        interval: 0,
                        abstime: false,
                        start_time: 0,
                        non_blocking: flags & TFD_NONBLOCK != 0,
                    },
                    flags & TFD_CLOEXEC != 0,
                ),
            ),
        },
        r matches Ok((t, _)) ==> t.wf(),
{
    if let Err(e) = check_clock_id(clock_id) {
        return Err(e);
    }
    let (nonblock, cloexec) = timerfd_flags(flags);
    let mut timer = TimerFd::new(clock_id);
    let _ = timer.set_nonblocking(nonblock);
    Ok((timer, cloexec))
}

pub open spec fn check_clock_id_spec(clock_id: i32) -> Result<(), SysError> {
    if clock_id == CLOCK_REALTIME || clock_id == CLOCK_MONOTONIC || clock_id == CLOCK_BOOTTIME {
        Ok(())
    } else {
        Err(SysError::InvalidInput)
    }
}

/// `timerfd_settime` at time `now` with the new setting `new_value` read from
/// user memory: arms or disarms the timer and returns the old setting.
pub fn sys_timerfd_settime(timer: &mut TimerFd, now: u128, flags: u32, new_value: Result<Itimerspec, SysError>) -> (r:
    Result<Itimerspec, SysError>)
    requires
        old(timer).wf(),
        now <= MAX_NANOS,
    ensures
        final(timer).wf(),
        match new_value {
            Err(e) => r == Err::<Itimerspec, SysError>(e) && *final(timer) == *old(timer),
            Ok(spec) => match (timespec_nanos(spec.it_value), timespec_nanos(spec.it_interval)) {
                (Err(e), _) => r == Err::<Itimerspec, SysError>(e) && *final(timer) == *old(timer),
                (Ok(_), Err(e)) => r == Err::<Itimerspec, SysError>(e) && *final(timer) == *old(timer),
                (Ok(v), Ok(i)) => {
                    &&& r == Ok::<Itimerspec, SysError>(
                        Itimerspec {
                            it_interval: timespec_of(old(timer).interval),
                            it_value: timespec_of(old(timer).value),
                        },
                    )
                    &&& *final(timer) == (TimerFd {
                        value: v,
                        interval: i,
                        abstime: flags & TFD_TIMER_ABSTIME != 0,
                        start_time: now,
                        ..*old(timer)
                    })
                },
            },
        },
{
    let spec = match new_value {
        Ok(s) => s,
        Err(e) => return Err(e),
    };
    let value = match try_into_time_value(spec.it_value) {
        Ok(v) => v,
        Err(e) => return Err(e),
    };
    let interval = match try_into_time_value(spec.it_interval) {
        Ok(v) => v,
        Err(e) => return Err(e),
    };
    let abstime = flags & TFD_TIMER_ABSTIME != 0;
    let (old_val, old_int, _) = timer.settle(now, value, interval, abstime);
    Ok(Itimerspec { it_interval: from_time_value(old_int), it_value: from_time_value(old_val) })
}

/// `timerfd_gettime` at time `now`: the time to the next expiration and the
/// interval.
pub fn sys_timerfd_gettime(timer: &TimerFd, now: u128) -> (r: Itimerspec)
    requires
        timer.wf(),
    ensures
        r == (Itimerspec {
            it_interval: timespec_of(timer.interval),
            it_value: timespec_of(
                if timer.value == 0 {
                    timer.value
                } else {
                    remaining_of(timer.value, timer.start_time, now, timer.abstime)
                },
            ),
        }),
{
    let (value, interval) = timer.get_time(now);
    Itimerspec { it_interval: from_time_value(interval), it_value: from_time_value(value) }
}

// ----------------------------------------------------------------------------
// Laws
// ----------------------------------------------------------------------------

/// What `poll` reports agrees with what a read at the same instant does: a
/// timer polls readable exactly when reading its count succeeds, and then a
/// read into a buffer of at least eight bytes goes ahead without sleeping,
/// and hands back at least one expiration.
pub proof fn law_poll_agrees_with_read(t: TimerFd, dst_len: usize, now: u128)
    requires
        dst_len >= 8,
    ensures
        readable(t, now) <==> read_outcome(t, now) is Ok,
        readable(t, now) ==> read_step(t, dst_len, now) == TimerReadStep::Ready,
        readable(t, now) ==> read_outcome(t, now)->Ok_0 >= 1,
{
}

/// Expirations only accumulate: a later reading of the same setting counts
/// at least as many (while the count stays below the 64-bit limit).
pub proof fn law_expirations_monotonic(value: u128, interval: u128, start: u128, now1: u128, now2: u128, abstime: bool)
    requires
        now1 <= now2,
        interval > 0 ==> (if abstime {
            now2 >= value ==> ((now2 - value) as u128) / interval < u64::MAX
        } else {
            sat_sub(now2, start) >= value ==> ((sat_sub(now2, start) - value) as u128) / interval < u64::MAX
        }),
    ensures
        expirations(value, interval, start, now1, abstime) <= expirations(value, interval, start, now2, abstime),
{
    if interval > 0 {
        if abstime {
            if now1 >= value {
                lemma_div_monotonic((now1 - value) as int, (now2 - value) as int, interval as int);
            }
        } else {
            let e1 = sat_sub(now1, start);
            let e2 = sat_sub(now2, start);
            if e1 >= value {
                lemma_div_monotonic((e1 - value) as int, (e2 - value) as int, interval as int);
            }
        }
    }
}

proof fn lemma_div_monotonic(a: int, b: int, d: int)
    requires
        0 <= a <= b,
        d > 0,
    ensures
        a / d <= b / d,
{
    vstd::arithmetic::div_mod::lemma_div_is_ordered(a, b, d);
}

/// Right after a relative timer is set to `v` (not zero) and `i` at `now`,
/// reading its setting at that same instant gives back `v` and `i`.
pub proof fn law_gettime_after_settime(t: TimerFd, set: TimerFd, now: u128, v: u128, i: u128)
    requires
        v != 0,
        set == (TimerFd { value: v, interval: i, abstime: false, start_time: now, ..t }),
    ensures
        (if set.value == 0 {
            (set.value, set.interval)
        } else {
            (remaining_of(set.value, set.start_time, now, set.abstime), set.interval)
        }) == (v, i),
{
}

/// A time read from a valid `timespec` converts back to that same `timespec`:
/// what `timerfd_gettime` reports of a setting is what `timerfd_settime` was given.
pub proof fn law_timespec_round_trip(ts: Timespec, t: u128)
    requires
        timespec_nanos(ts) == Ok::<u128, SysError>(t),
    ensures
        timespec_of(t) == ts,
{
    let sec = ts.tv_sec as int;
    let nsec = ts.tv_nsec as int;
    assert(t == sec * 1_000_000_000 + nsec);
    vstd::arithmetic::div_mod::lemma_fundamental_div_mod_converse(t as int, 1_000_000_000, sec, nsec);
    assert(t / 1_000_000_000 == sec);
    assert(t % 1_000_000_000 == nsec);
    assert((t / 1_000_000_000) as u64 == sec);
    assert(((t / 1_000_000_000) as u64) as i64 == sec);
}

/// A read consumes the expirations it reports: right after a read at `now`
/// that returned a count, a read at the same instant finds nothing, for
/// relative and absolute timers alike. This holds while the intervals to
/// move on by fit in 64 bits and the new start or deadline within the
/// largest time.
pub proof fn law_read_consumes_expirations(t: TimerFd, now: u128)
    requires
        t.wf(),
        now <= MAX_NANOS,
        t.value != 0,
        overdue(t, now) >= 0,
        t.interval != 0 ==> (overdue(t, now) / t.interval as int + 1) * t.interval <= u64::MAX,
        t.interval != 0 ==> (if t.abstime {
            t.value as int
        } else {
            t.start_time as int
        }) + (overdue(t, now) / t.interval as int + 1) * t.interval <= MAX_NANOS,
    ensures
        after_read(t, now).value == 0 || expirations(
            after_read(t, now).value,
            after_read(t, now).interval,
            after_read(t, now).start_time,
            now,
            after_read(t, now).abstime,
        ) == 0,
{
    if t.interval != 0 {
        let i = t.interval as int;
        let d = overdue(t, now);
        let q = d / i;
        vstd::arithmetic::div_mod::lemma_fundamental_div_mod(d, i);
        vstd::arithmetic::div_mod::lemma_mod_pos_bound(d, i);
        assert(d < (q + 1) * i) by (nonlinear_arith)
            requires
                d == i * q + d % i,
                d % i < i,
        ;
        assert(q >= 0) by (nonlinear_arith)
            requires
                d >= 0,
                i > 0,
                q == d / i,
        ;
        assert((q + 1) * i >= q + 1) by (nonlinear_arith)
            requires
                i >= 1,
                q >= 0,
        ;
        assert(q < u64::MAX);
        assert(t.interval <= u64::MAX) by (nonlinear_arith)
            requires
                (q + 1) * i <= u64::MAX,
                q >= 0,
                i == t.interval,
        ;
        let count = expirations(t.value, t.interval, t.start_time, now, t.abstime);
        if t.abstime {
            assert(((now - t.value) as u128) / t.interval == q);
        } else {
            assert(((sat_sub(now, t.start_time) - t.value) as u128) / t.interval == q);
        }
        assert(count == q + 1);
        assert((t.interval as u64) as nat * count as nat == (q + 1) * i) by (nonlinear_arith)
            requires
                (t.interval as u64) == i,
                count == q + 1,
        ;
    }
}

/// A blocking read that has to wait sleeps exactly until the timer first
/// expires: the time it sleeps is the deadline minus the current time (for
/// an absolute timer, `value - now`; for a relative one, what is left of
/// `value` since the timer was armed), which is also what `timerfd_gettime`
/// reports as the time left; the timer has not expired one nanosecond
/// before the wake-up and has expired once at it. A relative timer is
/// assumed to have been armed no later than `now`.
pub proof fn law_sleep_ends_at_first_expiration(t: TimerFd, dst_len: usize, now: u128, d: u128)
    requires
        t.wf(),
        now <= MAX_NANOS,
        !t.abstime ==> t.start_time <= now,
        read_step(t, dst_len, now) == TimerReadStep::Sleep(d),
    ensures
        t.abstime ==> d + now == t.value,
        !t.abstime ==> d + (now - t.start_time) == t.value,
        d > 0,
        d == remaining_of(t.value, t.start_time, now, t.abstime),
        expirations(t.value, t.interval, t.start_time, (now + d - 1) as u128, t.abstime) == 0,
        expirations(t.value, t.interval, t.start_time, (now + d) as u128, t.abstime) == 1,
{
    if t.interval > 0 {
        if t.abstime {
            assert(((now + d) - t.value) as u128 / t.interval == 0);
        } else {
            assert(((sat_sub((now + d) as u128, t.start_time) - t.value) as u128) / t.interval == 0);
        }
    }
}

} // verus!
