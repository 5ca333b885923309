//! Sonyflake: a distributed unique ID generator.
//!
//! Worker/machine IDs must be assigned by hand.
//!
//! An ID is laid out as
//! - 39 bits of time in units of 10 msec since the start time,
//! - 8 bits of sequence number,
//! - 16 bits of worker (machine) id.
//!
//! Times are handled as nanoseconds since the UNIX epoch (UTC).
use vstd::prelude::*;
#[allow(unused_imports)]
use chrono::TimeZone;

verus! {

/// Bit length of time.
pub const BIT_LEN_TIME: u64 = 39;

/// Bit length of the sequence number.
pub const BIT_LEN_SEQUENCE: u64 = 8;

/// Bit length of the worker (machine) id.
pub const BIT_LEN_MACHINE_ID: u64 = 63 - BIT_LEN_TIME - BIT_LEN_SEQUENCE;

/// One sonyflake time unit in nanoseconds (10 msec).
pub const SONYFLAKE_TIME_UNIT: i64 = 10_000_000;

/// Nanoseconds since the epoch of 2014-09-01 00:00:00 UTC, the default start time.
pub const DEFAULT_START_TIME_NANOS: i64 = 1_409_529_600_000_000_000;

/// Number of time units that the time bits can hold (`2^39`).
pub const TIME_LIMIT: i64 = 549_755_813_888;

/// The initial sequence number of a fresh generator (`2^7`).
pub const INITIAL_SEQUENCE: u16 = 128;

/// The error type of the generator.
#[derive(Debug, PartialEq, Eq, Structural)]
pub enum Error {
    /// The start time (nanoseconds since the epoch) is ahead of the current time.
    StartTimeAheadOfCurrentTime(i64),
    /// The time bits of the ID are exhausted.
    OverTimeLimit,
    /// The lock around a shared generator was poisoned.
    MutexPoisoned,
    /// The system clock could not be read as nanoseconds since the epoch
    /// (it reads before 1970, or past what an `i64` of nanoseconds holds).
    ClockUnavailable,
}

/// Mutable part of a generator.
#[derive(Debug, Clone, Copy, PartialEq, Eq, Structural)]
pub struct WorkerState {
    pub elapsed_time: i64,
    pub sequence: u16,
}

/// Rust's truncating division, as `i64 / i64` computes it.
pub open spec fn trunc_div(a: int, b: int) -> int {
    if a >= 0 { a / b } else { -((-a) / b) }
}

/// Convert nanoseconds since the epoch into sonyflake time units.
pub open spec fn spec_to_sonyflake_time(nanos: int) -> int {
    trunc_div(nanos, SONYFLAKE_TIME_UNIT as int)
}

/// The ID that a state encodes: time, sequence and worker bits side by side.
pub open spec fn spec_id(elapsed: int, sequence: int, worker_id: int) -> int {
    elapsed * 16_777_216 + sequence * 65_536 + worker_id
}

/// Time and sequence after one generation step at time `current`.
pub open spec fn spec_next_state(elapsed: int, sequence: int, current: int) -> (int, int) {
    if elapsed < current {
        (current, 0)
    } else if (sequence + 1) % 256 == 0 {
        (elapsed + 1, 0)
    } else {
        (elapsed, (sequence + 1) % 256)
    }
}

/// How many time units a step at time `current` ran ahead of the clock: the
/// generator must wait that long before the ID may be handed out.
pub open spec fn spec_overtime(elapsed: int, sequence: int, current: int) -> int {
    if elapsed < current {
        0
    } else if (sequence + 1) % 256 == 0 {
        elapsed + 1 - current
    } else {
        0
    }
}

/// Outcome of one generation step.
#[derive(Debug, Clone, Copy, PartialEq, Eq, Structural)]
pub struct Step {
    /// The generated id.
    pub id: u64,
    /// Time units by which the generator ran ahead of the clock (0 when it did not).
    pub overtime: i64,
}

/// An id together with how long the caller must wait before handing it out.
#[derive(Debug, Clone, Copy, PartialEq, Eq, Structural)]
pub struct NextId {
    pub id: u64,
    /// Time units by which the generator ran ahead of the clock (0 when it did not).
    pub overtime: i64,
    /// Nanoseconds to sleep before the id may be used.
    pub sleep_nanos: u128,
}

/// State of a generator, shared by every handle of it.
pub struct SharedSonyflake {
    worker_id: u16,
    start_time: i64,
    worker_state: WorkerState,
}

impl SharedSonyflake {
    #[verifier::type_invariant]
    spec fn inv(self) -> bool {
        &&& 0 <= self.worker_state.elapsed_time
        &&& self.worker_state.sequence < 256
        &&& -922_337_203_685 <= self.start_time <= 922_337_203_685
    }

    pub closed spec fn spec_worker_id(self) -> u16 {
        self.worker_id
    }

    /// Start time in sonyflake time units.
    pub closed spec fn spec_start_time(self) -> i64 {
        self.start_time
    }

    pub closed spec fn spec_elapsed(self) -> i64 {
        self.worker_state.elapsed_time
    }

    pub closed spec fn spec_sequence(self) -> u16 {
        self.worker_state.sequence
    }

    /// The id that the current state encodes.
    pub open spec fn spec_state_id(self) -> int {
        spec_id(self.spec_elapsed() as int, self.spec_sequence() as int, self.spec_worker_id() as int)
    }

    pub fn worker_id(&self) -> (r: u16)
        ensures
            r == self.spec_worker_id(),
    {
        self.worker_id
    }

    pub fn start_time(&self) -> (r: i64)
        ensures
            r == self.spec_start_time(),
    {
        self.start_time
    }

    pub fn worker_state(&self) -> (r: WorkerState)
        ensures
            r.elapsed_time == self.spec_elapsed(),
            r.sequence == self.spec_sequence(),
    {
        self.worker_state
    }

    /// A fresh generator state for `worker_id` whose time starts at `start_time`
    /// (sonyflake time units).
    fn fresh(worker_id: u16, start_time: i64) -> (r: SharedSonyflake)
        requires
            -922_337_203_685 <= start_time <= 922_337_203_685,
        ensures
            r.spec_worker_id() == worker_id,
            r.spec_start_time() == start_time,
            r.spec_elapsed() == 0,
            r.spec_sequence() == INITIAL_SEQUENCE,
    {
        SharedSonyflake {
            worker_id,
            start_time,
            worker_state: WorkerState { elapsed_time: 0, sequence: INITIAL_SEQUENCE },
        }
    }

    /// One generation step at time `current` (sonyflake units since the start time).
    ///
    /// If the time is ahead of the last step the sequence restarts at 0;
    /// otherwise the sequence advances, and when it wraps the time moves one
    /// unit ahead of the clock. Once the time no longer fits in its bits the
    /// step fails, and a generator in that state stays there.
    pub fn next_id_at(&mut self, current: i64) -> (r: Result<Step, Error>)
        requires
            current >= -1_125_899_906_842_624,
        ensures
            final(self).spec_worker_id() == old(self).spec_worker_id(),
            final(self).spec_start_time() == old(self).spec_start_time(),
            old(self).spec_elapsed() >= TIME_LIMIT ==> {
                &&& r == Err::<Step, Error>(Error::OverTimeLimit)
                &&& final(self).spec_elapsed() == old(self).spec_elapsed()
                &&& final(self).spec_sequence() == old(self).spec_sequence()
            },
            old(self).spec_elapsed() < TIME_LIMIT ==> {
                let (e, s) = spec_next_state(
                    old(self).spec_elapsed() as int,
                    old(self).spec_sequence() as int,
                    current as int,
                );
                &&& final(self).spec_elapsed() == e
                &&& final(self).spec_sequence() == s
                &&& (e >= TIME_LIMIT ==> r == Err::<Step, Error>(Error::OverTimeLimit))
                &&& (e < TIME_LIMIT ==> r == Ok::<Step, Error>(Step {
                    id: spec_id(e, s, old(self).spec_worker_id() as int) as u64,
                    overtime: spec_overtime(
                        old(self).spec_elapsed() as int,
                        old(self).spec_sequence() as int,
                        current as int,
                    ) as i64,
                }))
            },
    {
        proof {
            use_type_invariant(&*self);
        }
        let elapsed = self.worker_state.elapsed_time;
        let sequence = self.worker_state.sequence;
        if elapsed >= TIME_LIMIT {
            return Err(Error::OverTimeLimit);
        }
        let mut new_elapsed = elapsed;
        let mut new_sequence: u16;
        let mut overtime: i64 = 0;
        if elapsed < current {
            new_elapsed = current;
            new_sequence = 0;
        } else {
            let bumped: u16 = sequence + 1;
            new_sequence = bumped & 255;
            assert(bumped & 255 == bumped % 256) by (bit_vector);
            if new_sequence == 0 {
                new_elapsed = elapsed + 1;
                overtime = new_elapsed - current;
            }
        }
        self.worker_state = WorkerState { elapsed_time: new_elapsed, sequence: new_sequence };
        if new_elapsed >= TIME_LIMIT {
            return Err(Error::OverTimeLimit);
        }
        let id = encode_id(new_elapsed, new_sequence, self.worker_id);
        Ok(Step { id, overtime })
    }
}

/// `elapsed << 24 | sequence << 16 | worker_id`.
pub fn encode_id(elapsed: i64, sequence: u16, worker_id: u16) -> (r: u64)
    requires
        0 <= elapsed < TIME_LIMIT,
        sequence < 256,
    ensures
        r == spec_id(elapsed as int, sequence as int, worker_id as int),
        r < 0x8000_0000_0000_0000,
{
    let e: u64 = elapsed as u64;
    let s: u64 = sequence as u64;
    let w: u64 = worker_id as u64;
    let r: u64 = (e << 24u64) | (s << 16u64) | w;
    assert(r == e * 16_777_216 + s * 65_536 + w && r < 0x8000_0000_0000_0000) by (bit_vector)
        requires
            e < 549_755_813_888,
            s < 256,
            w < 65_536,
            r == (e << 24u64) | (s << 16u64) | w,
    ;
    r
}

/// Convert nanoseconds since the epoch into sonyflake time units.
pub fn to_sonyflake_time(nanos: i64) -> (r: i64)
    ensures
        r == spec_to_sonyflake_time(nanos as int),
        -922_337_203_685 <= r <= 922_337_203_685,
{
    nanos / SONYFLAKE_TIME_UNIT
}

/// Nanoseconds to sleep for an overtime of `overtime` time units when the
/// clock reads `now_nanos`: the overtime less the part of the current unit
/// that has already passed.
pub open spec fn spec_sleep_time(overtime: int, now_nanos: int) -> int {
    if now_nanos >= 0 {
        overtime * SONYFLAKE_TIME_UNIT - now_nanos % (SONYFLAKE_TIME_UNIT as int)
    } else {
        overtime * SONYFLAKE_TIME_UNIT
    }
}

/// Nanoseconds to sleep for an overtime of `overtime` time units when the clock
/// reads `now_nanos` (see [`spec_sleep_time`]).
pub fn sleep_time(overtime: i64, now_nanos: i64) -> (r: u128)
    requires
        1 <= overtime <= 1_800_000_000_000_000,
    ensures
        r == spec_sleep_time(overtime as int, now_nanos as int),
{
    let total: u128 = (overtime as u128) * 10_000_000u128;
    if now_nanos >= 0 {
        let passed: u128 = (now_nanos % SONYFLAKE_TIME_UNIT) as u128;
        total - passed
    } else {
        total
    }
}

#[verifier::external_type_specification]
#[verifier::external_body]
pub struct ExSystemTime(std::time::SystemTime);

/// Reads the system clock (`SystemTime::now`). Nothing is stated of the value:
/// it is whatever the clock reads.
#[verifier::external_body]
fn system_now() -> std::time::SystemTime {
    std::time::SystemTime::now()
}

/// The time from the UNIX epoch to `t` as whole seconds and the nanoseconds
/// past them (`SystemTime::duration_since(UNIX_EPOCH)`, which is an error for
/// a time before the epoch, here `None`; `Duration::as_secs` and
/// `Duration::subsec_nanos`, which std documents to be below one second).
#[verifier::external_body]
fn since_unix_epoch(t: &std::time::SystemTime) -> (r: Option<(u64, u32)>)
    ensures
        r matches Some(p) ==> p.1 < 1_000_000_000,
{
    match t.duration_since(std::time::UNIX_EPOCH) {
        Ok(d) => Some((d.as_secs(), d.subsec_nanos())),
        Err(_) => None,
    }
}

/// Nanoseconds since the epoch of the UTC time `secs` seconds and `nsecs`
/// nanoseconds after it.
///
/// Calls `chrono::DateTime::from_timestamp` (no result for seconds out of
/// chrono's range or invalid nanoseconds) and `DateTime::timestamp_nanos_opt`
/// (the non-leap nanoseconds since the epoch, none when they do not fit an
/// `i64`). Neither panics.
#[verifier::external_body]
fn utc_timestamp_nanos_of(secs: i64, nsecs: u32) -> (r: Option<i64>)
    ensures
        r matches Some(n) ==> n == secs * 1_000_000_000 + nsecs,
{
    chrono::DateTime::from_timestamp(secs, nsecs)?.timestamp_nanos_opt()
}

/// Reads the system clock: nanoseconds since the UNIX epoch, when the clock
/// can be read as such (not before 1970, not past 2262). Nothing is stated of
/// the value: it is whatever the clock reads.
fn utc_now_nanos() -> (r: Option<i64>)
    ensures
        r matches Some(n) ==> n >= 0,
{
    let now = system_now();
    match since_unix_epoch(&now) {
        Some((secs, nsecs)) => {
            if secs > 9_223_372_036_854_775_807u64 {
                None
            } else {
                utc_timestamp_nanos_of(secs as i64, nsecs)
            }
        },
        None => None,
    }
}

/// Whether `y` is a leap year of the Gregorian calendar.
pub open spec fn is_leap_year(y: int) -> bool {
    (y % 4 == 0 && y % 100 != 0) || y % 400 == 0
}

/// Number of days of month `m` (1 to 12) of year `y`.
pub open spec fn days_in_month(y: int, m: int) -> int {
    if m == 2 {
        if is_leap_year(y) { 29 } else { 28 }
    } else if m == 4 || m == 6 || m == 9 || m == 11 {
        30
    } else {
        31
    }
}

/// Whether year, month, day, hour, minute and second name a time of the
/// proleptic Gregorian calendar (no leap second).
pub open spec fn is_valid_utc_time(y: int, m: int, d: int, h: int, mi: int, s: int) -> bool {
    &&& 1 <= m <= 12
    &&& 1 <= d <= days_in_month(y, m)
    &&& 0 <= h < 24
    &&& 0 <= mi < 60
    &&& 0 <= s < 60
}

/// Days from 1970-01-01 to the date `y-m-d` of the proleptic Gregorian
/// calendar (negative before it).
pub open spec fn days_from_civil(y: int, m: int, d: int) -> int {
    let yy = if m <= 2 { y - 1 } else { y };
    let era = yy / 400;
    let yoe = yy - era * 400;
    let mp = if m > 2 { m - 3 } else { m + 9 };
    let doy = (153 * mp + 2) / 5 + d - 1;
    let doe = yoe * 365 + yoe / 4 - yoe / 100 + doy;
    era * 146_097 + doe - 719_468
}

/// Non-leap nanoseconds from 1970-01-01 00:00:00 UTC to the given UTC time.
pub open spec fn utc_timestamp_nanos(y: int, m: int, d: int, h: int, mi: int, s: int) -> int {
    (days_from_civil(y, m, d) * 86_400 + h * 3_600 + mi * 60 + s) * 1_000_000_000
}

/// Nanoseconds since the epoch of a UTC time given by its parts.
///
/// Calls `chrono::Utc.with_ymd_and_hms` (no result for an invalid date or
/// time; chrono documents the proleptic Gregorian calendar) and
/// `DateTime::timestamp_nanos_opt` (the non-leap nanoseconds since
/// 1970-01-01 UTC, none when they do not fit an `i64`). Neither panics.
/// Every time of the years 1700 to 2200 fits.
#[verifier::external_body]
fn utc_time_nanos(year: i32, month: u32, day: u32, hour: u32, min: u32, sec: u32) -> (r: Option<i64>)
    ensures
        r matches Some(n) ==> n == utc_timestamp_nanos(
            year as int,
            month as int,
            day as int,
            hour as int,
            min as int,
            sec as int,
        ),
        (1700 <= year <= 2200 && is_valid_utc_time(
            year as int,
            month as int,
            day as int,
            hour as int,
            min as int,
            sec as int,
        )) ==> r is Some,
{
    chrono::Utc.with_ymd_and_hms(year, month, day, hour, min, sec).single()?.timestamp_nanos_opt()
}

/// The default start time: 2014-09-01 00:00:00 UTC, in nanoseconds since the
/// epoch.
fn default_start_nanos() -> (r: i64)
    ensures
        r == DEFAULT_START_TIME_NANOS,
{
    proof {
        assert(days_from_civil(2014, 9, 1) == 16_314);
        assert(utc_timestamp_nanos(2014, 9, 1, 0, 0, 0) == DEFAULT_START_TIME_NANOS);
        assert(is_valid_utc_time(2014, 9, 1, 0, 0, 0));
    }
    match utc_time_nanos(2014, 9, 1, 0, 0, 0) {
        Some(n) => n,
        None => DEFAULT_START_TIME_NANOS,
    }
}

/// Distributed unique ID generator.
///
/// Sharing it between threads is the caller's business: wrap it in a lock, and
/// sleep for `sleep_nanos` before releasing the lock.
pub struct Sonyflake(SharedSonyflake);

impl Sonyflake {
    pub open spec fn state(self) -> SharedSonyflake {
        self.spec_state()
    }

    pub closed spec fn spec_state(self) -> SharedSonyflake {
        self.0
    }

    pub fn shared(&self) -> (r: &SharedSonyflake)
        ensures
            *r == self.state(),
    {
        &self.0
    }

    /// One generation step when the time is `current` units past the start
    /// time (see [`SharedSonyflake::next_id_at`]).
    pub fn next_id_at(&mut self, current: i64) -> (r: Result<Step, Error>)
        requires
            current >= -1_125_899_906_842_624,
        ensures
            final(self).state().spec_worker_id() == old(self).state().spec_worker_id(),
            final(self).state().spec_start_time() == old(self).state().spec_start_time(),
            old(self).state().spec_elapsed() >= TIME_LIMIT ==> {
                &&& r == Err::<Step, Error>(Error::OverTimeLimit)
                &&& final(self).state().spec_elapsed() == old(self).state().spec_elapsed()
                &&& final(self).state().spec_sequence() == old(self).state().spec_sequence()
            },
            old(self).state().spec_elapsed() < TIME_LIMIT ==> {
                let (e, s) = spec_next_state(
                    old(self).state().spec_elapsed() as int,
                    old(self).state().spec_sequence() as int,
                    current as int,
                );
                &&& final(self).state().spec_elapsed() == e
                &&& final(self).state().spec_sequence() == s
                &&& (e >= TIME_LIMIT ==> r == Err::<Step, Error>(Error::OverTimeLimit))
                &&& (e < TIME_LIMIT ==> r == Ok::<Step, Error>(Step {
                    id: spec_id(e, s, old(self).state().spec_worker_id() as int) as u64,
                    overtime: spec_overtime(
                        old(self).state().spec_elapsed() as int,
                        old(self).state().spec_sequence() as int,
                        current as int,
                    ) as i64,
                }))
            },
    {
        self.0.next_id_at(current)
    }

    /// Create a new generator when the clock reads `now_nanos`.
    ///
    /// * `worker_id` - unique identifier of the machine; no two machines may share one.
    /// * `start_time` - optional start time in nanoseconds since the epoch; when
    ///   absent it is 2014-09-01 00:00:00 UTC. A start time ahead of the clock is
    ///   refused.
    pub fn new_at(worker_id: u16, start_time: Option<i64>, now_nanos: i64) -> (r: Result<
        Sonyflake,
        Error,
    >)
        ensures
            match start_time {
                Some(t) => if t > now_nanos {
                    r == Err::<Sonyflake, Error>(Error::StartTimeAheadOfCurrentTime(t))
                } else {
                    r matches Ok(g) && g.fresh_with(worker_id, spec_to_sonyflake_time(t as int))
                },
                None => (r matches Ok(g) && g.fresh_with(
                    worker_id,
                    spec_to_sonyflake_time(DEFAULT_START_TIME_NANOS as int),
                )),
            },
            Sonyflake::created_at(worker_id, start_time, now_nanos as int, r),
    {
        let start = match start_time {
            Some(time) => {
                if time > now_nanos {
                    return Err(Error::StartTimeAheadOfCurrentTime(time));
                }
                to_sonyflake_time(time)
            },
            None => to_sonyflake_time(default_start_nanos()),
        };
        Ok(Sonyflake(SharedSonyflake::fresh(worker_id, start)))
    }

    /// What creating a generator gives when the clock reads `now_nanos`
    /// (nanoseconds since the epoch): a start time after that reading is
    /// refused; otherwise, and without a start time, a fresh generator whose
    /// start is the given time (or 2014-09-01 00:00:00 UTC) in sonyflake units.
    pub open spec fn created_at(
        worker_id: u16,
        start_time: Option<i64>,
        now_nanos: int,
        r: Result<Sonyflake, Error>,
    ) -> bool {
        match start_time {
            Some(t) => if t > now_nanos {
                r == Err::<Sonyflake, Error>(Error::StartTimeAheadOfCurrentTime(t))
            } else {
                r matches Ok(g) && g.fresh_with(worker_id, spec_to_sonyflake_time(t as int))
            },
            None => (r matches Ok(g) && g.fresh_with(
                worker_id,
                spec_to_sonyflake_time(DEFAULT_START_TIME_NANOS as int),
            )),
        }
    }

    /// A generator that has not generated yet: its worker id and start time
    /// as given, time 0 and the initial sequence number.
    pub open spec fn fresh_with(self, worker_id: u16, start_time: int) -> bool {
        &&& self.state().spec_worker_id() == worker_id
        &&& self.state().spec_start_time() == start_time
        &&& self.state().spec_elapsed() == 0
        &&& self.state().spec_sequence() == INITIAL_SEQUENCE
    }

    /// Create a new generator, reading the clock (see [`Sonyflake::new_at`]).
    ///
    /// The clock is read only to check a given start time; when it cannot be
    /// read the result is `ClockUnavailable`.
    pub fn new(worker_id: u16, start_time: Option<i64>) -> (r: Result<Sonyflake, Error>)
        ensures
            r matches Ok(g) ==> g.fresh_with(
                worker_id,
                spec_to_sonyflake_time(match start_time {
                    Some(t) => t as int,
                    None => DEFAULT_START_TIME_NANOS as int,
                }),
            ),
            r matches Err(e) ==> start_time matches Some(t) && (e == Error::StartTimeAheadOfCurrentTime(t)
                || e == Error::ClockUnavailable),
            start_time is None ==> r is Ok,
            r != Err::<Sonyflake, Error>(Error::ClockUnavailable) ==> exists|now: i64|
                0 <= now && #[trigger] Sonyflake::created_at(worker_id, start_time, now as int, r),
    {
        let now = match start_time {
            Some(_) => match utc_now_nanos() {
                Some(n) => n,
                None => return Err(Error::ClockUnavailable),
            },
            None => 0,
        };
        Sonyflake::new_at(worker_id, start_time, now)
    }

    /// One generation step when the clock reads `now_nanos` (nanoseconds since
    /// the epoch): the time since the start is `now_nanos` in sonyflake units
    /// less the start time (see [`spec_step`]).
    pub fn next_id_from_clock(&mut self, now_nanos: i64) -> (r: Result<Step, Error>)
        ensures
            spec_step(
                old(self).state(),
                final(self).state(),
                elapsed_at(old(self).state(), now_nanos as int),
                r,
            ),
            final(self).state().spec_state_id() >= old(self).state().spec_state_id(),
            r is Ok ==> final(self).state().spec_state_id() > old(self).state().spec_state_id(),
            r matches Ok(s) ==> 0 <= s.overtime <= 1_800_000_000_000_000,
            r matches Ok(s) ==> s.id == final(self).state().spec_state_id(),
    {
        proof {
            use_type_invariant(&self.0);
        }
        let current = to_sonyflake_time(now_nanos) - self.0.start_time();
        proof {
            lemma_next_state_increases(
                self.0.spec_elapsed() as int,
                self.0.spec_sequence() as int,
                self.0.spec_worker_id() as int,
                current as int,
            );
            if self.0.spec_elapsed() < TIME_LIMIT {
                lemma_overtime_bounds(
                    self.0.spec_elapsed() as int,
                    self.0.spec_sequence() as int,
                    current as int,
                );
            }
        }
        self.0.next_id_at(current)
    }

    /// Generate the next unique id, reading the clock.
    ///
    /// The step is [`Sonyflake::next_id_from_clock`] at a reading of the clock.
    /// After the time bits overflow this returns `OverTimeLimit`; when the
    /// clock cannot be read it returns `ClockUnavailable` and leaves the
    /// generator as it was. The id the state encodes never goes down, and every
    /// id returned is larger than it was before the call, so the ids of one
    /// generator strictly increase, failures in between or not. When the step
    /// ran ahead of the clock, the caller must sleep for `sleep_nanos`, the
    /// remaining overtime at a later reading of the clock.
    pub fn next_id(&mut self) -> (r: Result<NextId, Error>)
        ensures
            final(self).state().spec_worker_id() == old(self).state().spec_worker_id(),
            final(self).state().spec_start_time() == old(self).state().spec_start_time(),
            final(self).state().spec_state_id() >= old(self).state().spec_state_id(),
            r matches Ok(n) ==> {
                &&& exists|now: i64| #[trigger]
                    spec_step(
                        old(self).state(),
                        final(self).state(),
                        elapsed_at(old(self).state(), now as int),
                        Ok::<Step, Error>(Step { id: n.id, overtime: n.overtime }),
                    )
                &&& n.id == final(self).state().spec_state_id()
                &&& n.id > old(self).state().spec_state_id()
                &&& n.overtime >= 0
                &&& (n.overtime == 0 ==> n.sleep_nanos == 0)
                &&& (n.overtime > 0 ==> exists|now: i64|
                    n.sleep_nanos == #[trigger] spec_sleep_time(n.overtime as int, now as int))
            },
            r == Err::<NextId, Error>(Error::OverTimeLimit) ==> {
                &&& exists|now: i64| #[trigger]
                    spec_step(
                        old(self).state(),
                        final(self).state(),
                        elapsed_at(old(self).state(), now as int),
                        Err::<Step, Error>(Error::OverTimeLimit),
                    )
                &&& final(self).state().spec_elapsed() >= TIME_LIMIT
            },
            r matches Err(e) ==> e == Error::OverTimeLimit || e == Error::ClockUnavailable,
            r == Err::<NextId, Error>(Error::ClockUnavailable) ==> final(self).state() == old(self).state(),
            old(self).state().spec_elapsed() >= TIME_LIMIT ==> r is Err,
    {
        let ghost before = self.state();
        let now = match utc_now_nanos() {
            Some(n) => n,
            None => return Err(Error::ClockUnavailable),
        };
        let step = self.next_id_from_clock(now);
        proof {
            assert(spec_step(before, self.state(), elapsed_at(before, now as int), step));
        }
        match step {
            Ok(s) => {
                let sleep_nanos: u128 = if s.overtime > 0 {
                    let later = match utc_now_nanos() {
                        Some(t) => t,
                        None => now,
                    };
                    let d = sleep_time(s.overtime, later);
                    assert(d == spec_sleep_time(s.overtime as int, later as int));
                    d
                } else {
                    0
                };
                proof {
                    assert(step == Ok::<Step, Error>(Step { id: s.id, overtime: s.overtime }));
                }
                Ok(NextId { id: s.id, overtime: s.overtime, sleep_nanos })
            },
            Err(e) => Err(e),
        }
    }
}

/// Time since the start of generator `g`, in sonyflake units, when the clock
/// reads `now_nanos`.
pub open spec fn elapsed_at(g: SharedSonyflake, now_nanos: int) -> int {
    spec_to_sonyflake_time(now_nanos) - g.spec_start_time()
}

/// One generation step from state `before` to state `after` at time `current`
/// (units since the start), with result `r`: worker and start time stay; a
/// generator whose time is used up stays as it is and fails; otherwise time
/// and sequence move as [`spec_next_state`] says, and the step fails if the
/// new time no longer fits its bits, else returns the id of the new state and
/// the overtime.
pub open spec fn spec_step(
    before: SharedSonyflake,
    after: SharedSonyflake,
    current: int,
    r: Result<Step, Error>,
) -> bool {
    &&& after.spec_worker_id() == before.spec_worker_id()
    &&& after.spec_start_time() == before.spec_start_time()
    &&& if before.spec_elapsed() >= TIME_LIMIT {
        &&& r == Err::<Step, Error>(Error::OverTimeLimit)
        &&& after.spec_elapsed() == before.spec_elapsed()
        &&& after.spec_sequence() == before.spec_sequence()
    } else {
        let (e, s) = spec_next_state(
            before.spec_elapsed() as int,
            before.spec_sequence() as int,
            current,
        );
        &&& after.spec_elapsed() == e
        &&& after.spec_sequence() == s
        &&& if e >= TIME_LIMIT {
            r == Err::<Step, Error>(Error::OverTimeLimit)
        } else {
            r == Ok::<Step, Error>(Step {
                id: spec_id(e, s, before.spec_worker_id() as int) as u64,
                overtime: spec_overtime(
                    before.spec_elapsed() as int,
                    before.spec_sequence() as int,
                    current,
                ) as i64,
            })
        }
    }
}

/// Width of the text column that holds an id.
pub const ID_TEXT_LEN: usize = 20;

/// The decimal text of any id fits the column it is stored in: a sonyflake is
/// at most 20 characters long.
pub proof fn lemma_id_text_fits(id: u64)
    ensures
        crate::text::decimal(id as nat).len() <= ID_TEXT_LEN,
{
    reveal_with_fuel(crate::text::pow10, 21);
    assert(crate::text::pow10(20) == 100_000_000_000_000_000_000nat);
    crate::text::lemma_decimal_len(id as nat, 20);
}

/// Bounds of a single step: the overtime of a step is small and positive when
/// the generator runs ahead of the clock.
pub proof fn lemma_overtime_bounds(elapsed: int, sequence: int, current: int)
    requires
        0 <= elapsed < TIME_LIMIT,
        0 <= sequence < 256,
        current >= -1_125_899_906_842_624,
    ensures
        0 <= spec_overtime(elapsed, sequence, current) <= 1_800_000_000_000_000,
        spec_overtime(elapsed, sequence, current) == 0 || spec_overtime(elapsed, sequence, current) >= 1,
{
}

/// A generation step moves the encoded id strictly forward, whatever the clock reads:
/// the time never goes back, and when it stays the sequence advances.
pub proof fn lemma_next_state_increases(elapsed: int, sequence: int, worker_id: int, current: int)
    requires
        0 <= sequence < 256,
        0 <= worker_id < 65_536,
    ensures
        ({
            let (e, s) = spec_next_state(elapsed, sequence, current);
            &&& spec_id(e, s, worker_id) > spec_id(elapsed, sequence, worker_id)
            &&& e >= elapsed
            &&& 0 <= s < 256
        }),
{
}

/// Two successful calls in a row return increasing ids: a generator never
/// hands out the same id twice.
pub proof fn lemma_ids_strictly_increase(
    elapsed: int,
    sequence: int,
    worker_id: int,
    current1: int,
    current2: int,
)
    requires
        0 <= sequence < 256,
        0 <= worker_id < 65_536,
    ensures
        ({
            let (e1, s1) = spec_next_state(elapsed, sequence, current1);
            let (e2, s2) = spec_next_state(e1, s1, current2);
            spec_id(e2, s2, worker_id) > spec_id(e1, s1, worker_id)
        }),
{
    let (e1, s1) = spec_next_state(elapsed, sequence, current1);
    lemma_next_state_increases(elapsed, sequence, worker_id, current1);
    lemma_next_state_increases(e1, s1, worker_id, current2);
}

/// The bits of an id read back as its parts: time above bit 24, sequence in
/// bits 16 to 23, worker id in the low 16 bits.
pub proof fn lemma_id_layout(elapsed: u64, sequence: u64, worker_id: u64)
    requires
        elapsed < 549_755_813_888,
        sequence < 256,
        worker_id < 65_536,
    ensures
        ({
            let id = (elapsed * 16_777_216 + sequence * 65_536 + worker_id) as u64;
            &&& id >> 24u64 == elapsed
            &&& (id >> 16u64) & 255u64 == sequence
            &&& id & 65_535u64 == worker_id
        }),
{
    let id = (elapsed * 16_777_216 + sequence * 65_536 + worker_id) as u64;
    assert(id == (elapsed << 24u64) | (sequence << 16u64) | worker_id) by (bit_vector)
        requires
            elapsed < 549_755_813_888,
            sequence < 256,
            worker_id < 65_536,
            id == (elapsed * 16_777_216 + sequence * 65_536 + worker_id) as u64,
    ;
    assert(id >> 24u64 == elapsed && (id >> 16u64) & 255u64 == sequence && id & 65_535u64
        == worker_id) by (bit_vector)
        requires
            elapsed < 549_755_813_888,
            sequence < 256,
            worker_id < 65_536,
            id == (elapsed << 24u64) | (sequence << 16u64) | worker_id,
    ;
}

} // verus!
