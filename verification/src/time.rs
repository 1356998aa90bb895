//! Clock calls: `clock_adjtime`/`adjtimex`, `clock_gettime`,
//! `clock_getres`, `gettimeofday`, `times`, `getitimer`/`setitimer`.
//!
//! The clock readings themselves are taken by the caller and handed in as
//! nanosecond counts.
use vstd::prelude::*;

use crate::error::SysError;
use crate::timerfd::{MAX_NANOS, Timespec, from_time_value, timespec_of};

verus! {

pub const ADJ_OFFSET: u32 = 0x0001;
pub const ADJ_FREQUENCY: u32 = 0x0002;
pub const ADJ_MAXERROR: u32 = 0x0004;
pub const ADJ_ESTERROR: u32 = 0x0008;
pub const ADJ_STATUS: u32 = 0x0010;
pub const ADJ_TIMECONST: u32 = 0x0020;
pub const ADJ_TICK: u32 = 0x4000;
pub const ADJ_OFFSET_SINGLESHOT: u32 = 0x8001;
pub const ADJ_OFFSET_SS_READ: u32 = 0xa001;
pub const ADJ_VALID_MODE_BITS: u32 = 0x403f;
pub const ADJ_MUTATING_MODES: u32 = 0xc03f;
pub const MIN_TICK: isize = 9_000;
pub const MAX_TICK: isize = 11_000;

pub const CLOCK_REALTIME: i32 = 0;
pub const CLOCK_MONOTONIC: i32 = 1;
pub const CLOCK_PROCESS_CPUTIME_ID: i32 = 2;
pub const CLOCK_THREAD_CPUTIME_ID: i32 = 3;
pub const CLOCK_MONOTONIC_RAW: i32 = 4;
pub const CLOCK_REALTIME_COARSE: i32 = 5;
pub const CLOCK_MONOTONIC_COARSE: i32 = 6;
pub const CLOCK_BOOTTIME: i32 = 7;

/// A `struct timeval`.
#[derive(Clone, Copy, Debug, PartialEq, Eq)]
pub struct Timeval {
    pub tv_sec: i64,
    pub tv_usec: i64,
}

/// A `struct itimerval`.
#[derive(Clone, Copy, Debug, PartialEq, Eq)]
pub struct Itimerval {
    pub it_interval: Timeval,
    pub it_value: Timeval,
}

/// A `struct timex`, as `adjtimex` reads and writes it.
#[derive(Clone, Copy, Debug, PartialEq, Eq)]
pub struct Timex {
    pub modes: u32,
    pub offset: isize,
    pub freq: isize,
    pub maxerror: isize,
    pub esterror: isize,
    pub status: i32,
    pub constant: isize,
    pub precision: isize,
    pub tolerance: isize,
    pub time: Timeval,
    pub tick: isize,
    pub ppsfreq: isize,
    pub jitter: isize,
    pub shift: i32,
    pub stabil: isize,
    pub jitcnt: isize,
    pub calcnt: isize,
    pub errcnt: isize,
    pub stbcnt: isize,
    pub tai: i32,
    pub padding: [i32; 11],
}

/// A `struct tms`: user and system time of the process and of its children,
/// in microseconds.
#[derive(Clone, Copy, Debug, PartialEq, Eq)]
pub struct Tms {
    pub tms_utime: usize,
    pub tms_stime: usize,
    pub tms_cutime: usize,
    pub tms_cstime: usize,
}

/// A time as a `timeval`.
pub open spec fn timeval_of(t: u128) -> Timeval {
    Timeval { tv_sec: (t / 1_000_000_000) as u64 as i64, tv_usec: ((t % 1_000_000_000) / 1000) as i64 }
}

/// Converts a time into a `timeval`.
pub fn timeval_from_time_value(t: u128) -> (r: Timeval)
    requires
        t <= MAX_NANOS,
    ensures
        r == timeval_of(t),
{
    let secs = (t / 1_000_000_000) as u64;
    Timeval { tv_sec: secs as i64, tv_usec: ((t % 1_000_000_000) / 1000) as i64 }
}

/// A `timeval` as nanoseconds: seconds must not be negative and microseconds
/// must lie in `[0, 1e6)`.
pub open spec fn timeval_nanos(tv: Timeval) -> Result<u128, SysError> {
    if tv.tv_sec < 0 || tv.tv_usec < 0 || tv.tv_usec >= 1_000_000 {
        Err(SysError::InvalidInput)
    } else {
        Ok((tv.tv_sec * 1_000_000_000 + tv.tv_usec * 1000) as u128)
    }
}

/// Converts a `timeval` into a time.
pub fn timeval_into_time_value(tv: Timeval) -> (r: Result<u128, SysError>)
    ensures
        r == timeval_nanos(tv),
        r matches Ok(t) ==> t <= MAX_NANOS,
{
    if tv.tv_sec < 0 || tv.tv_usec < 0 || tv.tv_usec >= 1_000_000 {
        return Err(SysError::InvalidInput);
    }
    let secs = tv.tv_sec as u128;
    let micros = tv.tv_usec as u128;
    proof {
        assert(secs * 1_000_000_000 <= 0x7fff_ffff_ffff_ffff * 1_000_000_000) by (nonlinear_arith)
            requires
                secs <= 0x7fff_ffff_ffff_ffff,
        ;
    }
    Ok(secs * 1_000_000_000 + micros * 1000)
}

impl Timex {
    /// A `timex` with every field zero.
    pub fn zeroed() -> (r: Self)
        ensures
            r.is_report(0, Timeval { tv_sec: 0, tv_usec: 0 }, 0),
    {
        let r = Timex {
            modes: 0,
            offset: 0,
            freq: 0,
            maxerror: 0,
            esterror: 0,
            status: 0,
            constant: 0,
            precision: 0,
            tolerance: 0,
            time: Timeval { tv_sec: 0, tv_usec: 0 },
            tick: 0,
            ppsfreq: 0,
            jitter: 0,
            shift: 0,
            stabil: 0,
            jitcnt: 0,
            calcnt: 0,
            errcnt: 0,
            stbcnt: 0,
            tai: 0,
            padding: [0; 11],
        };
        proof {
            assert(r.padding@ =~= Seq::new(11, |i: int| 0i32));
        }
        r
    }

    /// Every field is zero but `modes`, `time` and `tick`, which are as given.
    pub open spec fn is_report(self, modes: u32, time: Timeval, tick: isize) -> bool {
        &&& self.modes == modes && self.time == time && self.tick == tick
        &&& self.offset == 0 && self.freq == 0 && self.maxerror == 0 && self.esterror == 0
        &&& self.status == 0 && self.constant == 0 && self.precision == 0 && self.tolerance == 0
        &&& self.ppsfreq == 0 && self.jitter == 0 && self.shift == 0 && self.stabil == 0
        &&& self.jitcnt == 0 && self.calcnt == 0 && self.errcnt == 0 && self.stbcnt == 0 && self.tai == 0
        &&& self.padding@ == Seq::new(11, |i: int| 0i32)
    }
}

pub open spec fn adjtimex_modes_ok(modes: u32) -> bool {
    modes & !ADJ_VALID_MODE_BITS == 0 || modes == ADJ_OFFSET_SINGLESHOT || modes == ADJ_OFFSET_SS_READ
}

/// Whether `modes` asks only for known adjustments: any combination of the
/// single adjustment bits, or one of the two single-shot offset modes.
pub fn valid_adjtimex_modes(modes: u32) -> (r: bool)
    ensures
        r == adjtimex_modes_ok(modes),
{
    modes & !ADJ_VALID_MODE_BITS == 0 || modes == ADJ_OFFSET_SINGLESHOT || modes == ADJ_OFFSET_SS_READ
}

/// Whether `clock_adjtime` accepts a request on `clock_id` by user `uid`;
/// on success, the modes it reports back.
pub open spec fn adjtime_check(clock_id: i32, timex: Result<Timex, SysError>, uid: u32) -> Result<u32, SysError> {
    if clock_id != CLOCK_REALTIME {
        Err(SysError::InvalidInput)
    } else {
        match timex {
            Err(e) => Err(e),
            Ok(t) => if !adjtimex_modes_ok(t.modes) {
                Err(SysError::InvalidInput)
            } else if t.modes & ADJ_TICK != 0 && (t.tick < MIN_TICK || t.tick > MAX_TICK) {
                Err(SysError::InvalidInput)
            } else if t.modes & ADJ_MUTATING_MODES != 0 && uid != 0 {
                Err(SysError::OperationNotPermitted)
            } else {
                Ok(t.modes)
            },
        }
    }
}

/// `r` is what `clock_adjtime` answers, with the wall clock at `wall`: the
/// `timex` to copy back to user memory, or the error.
pub open spec fn adjtime_answer(clock_id: i32, timex: Result<Timex, SysError>, uid: u32, wall: u128, r: Result<
    Timex,
    SysError,
>) -> bool {
    match adjtime_check(clock_id, timex, uid) {
        Err(e) => r == Err::<Timex, SysError>(e),
        Ok(modes) => r matches Ok(t) && t.is_report(modes, timeval_of(wall), 10_000),
    }
}

/// `clock_adjtime(clock_id, buf)`: checks the request read from `buf` and
/// reports the clock without adjusting it.
pub fn sys_clock_adjtime(clock_id: i32, timex: Result<Timex, SysError>, uid: u32, wall: u128) -> (r: Result<
    Timex,
    SysError,
>)
    requires
        wall <= MAX_NANOS,
    ensures
        adjtime_answer(clock_id, timex, uid, wall, r),
{
    if clock_id != CLOCK_REALTIME {
        return Err(SysError::InvalidInput);
    }
    let t = match timex {
        Ok(t) => t,
        Err(e) => return Err(e),
    };
    if !valid_adjtimex_modes(t.modes) {
        return Err(SysError::InvalidInput);
    }
    if t.modes & ADJ_TICK != 0 && (t.tick < MIN_TICK || t.tick > MAX_TICK) {
        return Err(SysError::InvalidInput);
    }
    if t.modes & ADJ_MUTATING_MODES != 0 && uid != 0 {
        return Err(SysError::OperationNotPermitted);
    }
    Ok(Timex { modes: t.modes, time: timeval_from_time_value(wall), tick: 10_000, ..Timex::zeroed() })
}

/// `adjtimex(buf)`: `clock_adjtime` on the real-time clock.
pub fn sys_adjtimex(timex: Result<Timex, SysError>, uid: u32, wall: u128) -> (r: Result<Timex, SysError>)
    requires
        wall <= MAX_NANOS,
    ensures
        adjtime_answer(CLOCK_REALTIME, timex, uid, wall, r),
{
    sys_clock_adjtime(CLOCK_REALTIME, timex, uid, wall)
}

/// `clock_gettime(clock_id)` given the clock readings: the wall clock, the
/// monotonic clock, and the calling thread's user and system time.
pub fn sys_clock_gettime(clock_id: i32, wall: u128, monotonic: u128, utime: u128, stime: u128) -> (r: Result<
    Timespec,
    SysError,
>)
    requires
        wall <= MAX_NANOS,
        monotonic <= MAX_NANOS,
        utime + stime <= MAX_NANOS,
    ensures
        r == if clock_id == CLOCK_REALTIME || clock_id == CLOCK_REALTIME_COARSE {
            Ok(timespec_of(wall))
        } else if clock_id == CLOCK_MONOTONIC || clock_id == CLOCK_MONOTONIC_RAW || clock_id
            == CLOCK_MONOTONIC_COARSE || clock_id == CLOCK_BOOTTIME {
            Ok(timespec_of(monotonic))
        } else if clock_id == CLOCK_PROCESS_CPUTIME_ID || clock_id == CLOCK_THREAD_CPUTIME_ID {
            Ok(timespec_of((utime + stime) as u128))
        } else {
            Err::<Timespec, SysError>(SysError::InvalidInput)
        },
{
    let now = if clock_id == CLOCK_REALTIME || clock_id == CLOCK_REALTIME_COARSE {
        wall
    } else if clock_id == CLOCK_MONOTONIC || clock_id == CLOCK_MONOTONIC_RAW || clock_id == CLOCK_MONOTONIC_COARSE
        || clock_id == CLOCK_BOOTTIME {
        monotonic
    } else if clock_id == CLOCK_PROCESS_CPUTIME_ID || clock_id == CLOCK_THREAD_CPUTIME_ID {
        utime + stime
    } else {
        return Err(SysError::InvalidInput);
    };
    Ok(from_time_value(now))
}

/// `gettimeofday` with the wall clock at `wall`.
pub fn sys_gettimeofday(wall: u128) -> (r: Timeval)
    requires
        wall <= MAX_NANOS,
    ensures
        r == timeval_of(wall),
{
    timeval_from_time_value(wall)
}

/// `clock_getres(clock_id, res)`: every supported clock has a resolution of
/// one microsecond, copied to `res` when it is not null.
pub fn sys_clock_getres(clock_id: i32, res_non_null: bool) -> (r: Result<Option<Timespec>, SysError>)
    ensures
        r == if 0 <= clock_id <= 7 {
            Ok(if res_non_null {
                Some(Timespec { tv_sec: 0, tv_nsec: 1000 })
            } else {
                None
            })
        } else {
            Err::<Option<Timespec>, SysError>(SysError::InvalidInput)
        },
{
    if clock_id == CLOCK_REALTIME || clock_id == CLOCK_REALTIME_COARSE || clock_id == CLOCK_MONOTONIC || clock_id
        == CLOCK_MONOTONIC_RAW || clock_id == CLOCK_MONOTONIC_COARSE || clock_id == CLOCK_BOOTTIME || clock_id
        == CLOCK_PROCESS_CPUTIME_ID || clock_id == CLOCK_THREAD_CPUTIME_ID {
        if res_non_null {
            Ok(Some(from_time_value(1000)))
        } else {
            Ok(None)
        }
    } else {
        Err(SysError::InvalidInput)
    }
}

/// `times(buf)`: the user and system time of the calling thread and of its
/// waited-for children, in microseconds.
pub fn sys_times(utime: u128, stime: u128, cutime: u128, cstime: u128) -> (r: Tms)
    ensures
        r == (Tms {
            tms_utime: (utime / 1000) as usize,
            tms_stime: (stime / 1000) as usize,
            tms_cutime: (cutime / 1000) as usize,
            tms_cstime: (cstime / 1000) as usize,
        }),
{
    Tms {
        tms_utime: (utime / 1000) as usize,
        tms_stime: (stime / 1000) as usize,
        tms_cutime: (cutime / 1000) as usize,
        tms_cstime: (cstime / 1000) as usize,
    }
}

/// The interval timers: real time, process virtual time, and profiling time.
#[derive(Clone, Copy, Debug, PartialEq, Eq)]
pub enum ITimerType {
    Real,
    Virtual,
    Prof,
}

/// The interval timer that `which` names.
pub fn itimer_type(which: i32) -> (r: Result<ITimerType, SysError>)
    ensures
        r == if which == 0 {
            Ok(ITimerType::Real)
        } else if which == 1 {
            Ok(ITimerType::Virtual)
        } else if which == 2 {
            Ok(ITimerType::Prof)
        } else {
            Err::<ITimerType, SysError>(SysError::InvalidInput)
        },
{
    if which == 0 {
        Ok(ITimerType::Real)
    } else if which == 1 {
        Ok(ITimerType::Virtual)
    } else if which == 2 {
        Ok(ITimerType::Prof)
    } else {
        Err(SysError::InvalidInput)
    }
}

/// `getitimer(which)` given the timer's interval and remaining time.
pub fn sys_getitimer(which: i32, interval: u128, remaining: u128) -> (r: Result<Itimerval, SysError>)
    requires
        interval <= MAX_NANOS,
        remaining <= MAX_NANOS,
    ensures
        r == match itimer_type_spec(which) {
            Err(e) => Err(e),
            Ok(_) => Ok(Itimerval { it_interval: timeval_of(interval), it_value: timeval_of(remaining) }),
        },
{
    match itimer_type(which) {
        Err(e) => Err(e),
        Ok(_) => Ok(
            Itimerval {
                it_interval: timeval_from_time_value(interval),
                it_value: timeval_from_time_value(remaining),
            },
        ),
    }
}

pub open spec fn itimer_type_spec(which: i32) -> Result<ITimerType, SysError> {
    if which == 0 {
        Ok(ITimerType::Real)
    } else if which == 1 {
        Ok(ITimerType::Virtual)
    } else if which == 2 {
        Ok(ITimerType::Prof)
    } else {
        Err(SysError::InvalidInput)
    }
}

/// The first part of `setitimer(which, new_value)`: the timer, and its new
/// interval and value in nanoseconds (zero for a null `new_value`).
pub fn sys_setitimer(which: i32, new_value: Option<Result<Itimerval, SysError>>) -> (r: Result<
    (ITimerType, usize, usize),
    SysError,
>)
    ensures
        match itimer_type_spec(which) {
            Err(e) => r == Err::<(ITimerType, usize, usize), SysError>(e),
            Ok(ty) => match new_value {
                None => r == Ok::<(ITimerType, usize, usize), SysError>((ty, 0, 0)),
                Some(Err(e)) => r == Err::<(ITimerType, usize, usize), SysError>(e),
                Some(Ok(v)) => match (timeval_nanos(v.it_interval), timeval_nanos(v.it_value)) {
                    (Err(e), _) => r == Err::<(ITimerType, usize, usize), SysError>(e),
                    (Ok(_), Err(e)) => r == Err::<(ITimerType, usize, usize), SysError>(e),
                    (Ok(i), Ok(x)) => r == Ok::<(ITimerType, usize, usize), SysError>(
                        (ty, i as usize, x as usize),
                    ),
                },
            },
        },
{
    let ty = match itimer_type(which) {
        Ok(ty) => ty,
        Err(e) => return Err(e),
    };
    match new_value {
        None => Ok((ty, 0, 0)),
        Some(Err(e)) => Err(e),
        Some(Ok(v)) => {
            let i = match timeval_into_time_value(v.it_interval) {
                Ok(i) => i,
                Err(e) => return Err(e),
            };
            let x = match timeval_into_time_value(v.it_value) {
                Ok(x) => x,
                Err(e) => return Err(e),
            };
            Ok((ty, i as usize, x as usize))
        },
    }
}

/// A time read from a valid `timeval` converts back to that same `timeval`:
/// microseconds survive the trip through nanoseconds.
pub proof fn law_timeval_round_trip(tv: Timeval, t: u128)
    requires
        timeval_nanos(tv) == Ok::<u128, SysError>(t),
    ensures
        timeval_of(t) == tv,
{
    let sec = tv.tv_sec as int;
    let usec = tv.tv_usec as int;
    assert(t == sec * 1_000_000_000 + usec * 1000);
    vstd::arithmetic::div_mod::lemma_fundamental_div_mod_converse(t as int, 1_000_000_000, sec, usec * 1000);
    assert(t / 1_000_000_000 == sec);
    assert(t % 1_000_000_000 == usec * 1000);
    assert((usec * 1000) / 1000 == usec);
    assert(((t / 1_000_000_000) as u64) as i64 == sec);
}

/// `gettimeofday` and `clock_gettime(CLOCK_REALTIME)` read the same clock:
/// the seconds agree, and the microseconds are the nanoseconds cut down.
pub proof fn law_gettimeofday_agrees_with_clock_gettime(wall: u128)
    requires
        wall <= MAX_NANOS,
    ensures
        timeval_of(wall).tv_sec == timespec_of(wall).tv_sec,
        timeval_of(wall).tv_usec == timespec_of(wall).tv_nsec / 1000,
{
}

} // verus!
