//! Spans of time, as `std::time::Duration` keeps them: whole seconds and
//! nanoseconds, with the helpers that build them from counts of seconds,
//! minutes and hours.
use vstd::prelude::*;

verus! {

/// Nanoseconds in a second.
pub const NANOS_PER_SEC: u64 = 1_000_000_000;

/// The largest span, in nanoseconds, that a `Duration` can hold plus one.
pub open spec fn duration_limit() -> int {
    (u64::MAX as int + 1) * NANOS_PER_SEC as int
}

/// A span of time: whole seconds and the nanoseconds below a second.
#[derive(Clone, Copy, Debug, PartialEq, Eq, Structural)]
pub struct Duration {
    secs: u64,
    nanos: u32,
}

impl Duration {
    #[verifier::type_invariant]
    spec fn wf(self) -> bool {
        self.nanos < NANOS_PER_SEC
    }

    /// The span in nanoseconds.
    pub closed spec fn total_nanos(self) -> int {
        self.secs as int * NANOS_PER_SEC as int + self.nanos as int
    }

    /// The span of `secs` whole seconds.
    pub closed spec fn of_secs(secs: u64) -> Duration {
        Duration { secs, nanos: 0 }
    }

    /// `of_secs(secs)` spans `secs` seconds.
    pub proof fn lemma_of_secs(secs: u64)
        ensures
            Duration::of_secs(secs)@ == secs as int * NANOS_PER_SEC as int,
    {
    }

    /// A span of `secs` whole seconds.
    pub fn from_secs(secs: u64) -> (res: Duration)
        ensures
            res == Duration::of_secs(secs),
            res@ == secs as int * NANOS_PER_SEC as int,
    {
        Duration { secs, nanos: 0 }
    }

    /// The whole seconds of the span.
    pub fn as_secs(&self) -> (res: u64)
        ensures
            res as int == self@ / NANOS_PER_SEC as int,
    {
        proof {
            use_type_invariant(self);
            lemma_split(self.secs as int, self.nanos as int);
        }
        self.secs
    }

    /// The nanoseconds of the span below its whole seconds.
    pub fn subsec_nanos(&self) -> (res: u32)
        ensures
            res as int == self@ % NANOS_PER_SEC as int,
    {
        proof {
            use_type_invariant(self);
            lemma_split(self.secs as int, self.nanos as int);
        }
        self.nanos
    }

    /// The span `rhs` times over, or `None` when it does not fit.
    pub fn checked_mul(self, rhs: u32) -> (res: Option<Duration>)
        ensures
            res is Some <==> self@ * rhs < duration_limit(),
            res matches Some(d) ==> d@ == self@ * rhs,
    {
        proof {
            use_type_invariant(self);
            assert((self.nanos as u64) * (rhs as u64) <= 0xFFFF_FFFF_FFFF_FFFF) by (nonlinear_arith)
                requires
                    self.nanos < 1_000_000_000,
                    rhs <= 0xFFFF_FFFF,
            ;
            assert((self.secs as u128) * (rhs as u128) <= 0xFFFF_FFFF_FFFF_FFFF * 0xFFFF_FFFF) by (nonlinear_arith)
                requires
                    self.secs <= 0xFFFF_FFFF_FFFF_FFFF,
                    rhs <= 0xFFFF_FFFF,
            ;
        }
        let total: u64 = (self.nanos as u64) * (rhs as u64);
        let extra: u64 = total / NANOS_PER_SEC;
        let nanos: u32 = (total % NANOS_PER_SEC) as u32;
        let secs: u128 = (self.secs as u128) * (rhs as u128) + (extra as u128);
        proof {
            lemma_mul_split(self.secs as int, self.nanos as int, rhs as int, total as int);
        }
        if secs > 0xFFFF_FFFF_FFFF_FFFF {
            None
        } else {
            Some(Duration { secs: secs as u64, nanos })
        }
    }

    /// The span `rhs` times over; the product must fit (std panics when it
    /// does not).
    pub fn mul(self, rhs: u32) -> (res: Duration)
        requires
            self@ * rhs < duration_limit(),
        ensures
            res@ == self@ * rhs,
    {
        match self.checked_mul(rhs) {
            Some(d) => d,
            None => {
                proof {
                    assert(false);
                }
                self
            },
        }
    }
}

impl View for Duration {
    type V = int;

    /// The span in nanoseconds.
    open spec fn view(&self) -> int {
        self.total_nanos()
    }
}

proof fn lemma_split(secs: int, nanos: int)
    requires
        0 <= secs,
        0 <= nanos < NANOS_PER_SEC as int,
    ensures
        (secs * NANOS_PER_SEC as int + nanos) / NANOS_PER_SEC as int == secs,
        (secs * NANOS_PER_SEC as int + nanos) % NANOS_PER_SEC as int == nanos,
{
    vstd::arithmetic::div_mod::lemma_fundamental_div_mod_converse(
        secs * NANOS_PER_SEC as int + nanos,
        NANOS_PER_SEC as int,
        secs,
        nanos,
    );
}

proof fn lemma_mul_split(secs: int, nanos: int, rhs: int, total: int)
    requires
        0 <= secs,
        0 <= nanos < NANOS_PER_SEC as int,
        0 <= rhs,
        total == nanos * rhs,
    ensures
        (secs * NANOS_PER_SEC as int + nanos) * rhs == (secs * rhs + total / NANOS_PER_SEC as int)
            * NANOS_PER_SEC as int + total % NANOS_PER_SEC as int,
        (secs * NANOS_PER_SEC as int + nanos) * rhs < duration_limit() <==> secs * rhs + total
            / NANOS_PER_SEC as int <= u64::MAX,
        0 <= total / NANOS_PER_SEC as int,
        0 <= total % (NANOS_PER_SEC as int) < (NANOS_PER_SEC as int),
{
    let n: int = NANOS_PER_SEC as int;
    vstd::arithmetic::div_mod::lemma_fundamental_div_mod(total, n);
    vstd::arithmetic::div_mod::lemma_mod_bound(total, n);
    assert(0 <= total) by (nonlinear_arith)
        requires
            0 <= nanos,
            0 <= rhs,
            total == nanos * rhs,
    ;
    vstd::arithmetic::div_mod::lemma_div_pos_is_pos(total, n);
    assert((secs * n + nanos) * rhs == secs * rhs * n + total) by (nonlinear_arith)
        requires
            total == nanos * rhs,
    ;
    let q: int = total / n;
    let r: int = total % n;
    assert((secs * n + nanos) * rhs == (secs * rhs + q) * n + r) by (nonlinear_arith)
        requires
            (secs * n + nanos) * rhs == secs * rhs * n + total,
            total == n * q + r,
    ;
    let s: int = secs * rhs + q;
    assert(s * n + r < (u64::MAX as int + 1) * n <==> s <= u64::MAX) by (nonlinear_arith)
        requires
            0 <= r < n,
            n > 0,
    ;
}

/// Nanoseconds in `n` seconds.
pub open spec fn seconds_nanos(n: int) -> int {
    n * NANOS_PER_SEC as int
}

/// Nanoseconds in `n` minutes.
pub open spec fn minutes_nanos(n: int) -> int {
    n * 60 * NANOS_PER_SEC as int
}

/// Nanoseconds in `n` hours.
pub open spec fn hours_nanos(n: int) -> int {
    n * 3600 * NANOS_PER_SEC as int
}

/// A span of `n` seconds.
pub fn seconds(n: u32) -> (res: Duration)
    ensures
        res@ == seconds_nanos(n as int),
{
    Duration::from_secs(n as u64)
}

/// A span of `n` minutes (`n` times `seconds(60)`).
pub fn minutes(n: u32) -> (res: Duration)
    ensures
        res@ == minutes_nanos(n as int),
{
    let unit = seconds(60);
    assert(unit@ * n < duration_limit()) by (nonlinear_arith)
        requires
            unit@ == 60 * 1_000_000_000,
            n <= u32::MAX,
    ;
    assert(unit@ * n == minutes_nanos(n as int)) by (nonlinear_arith)
        requires
            unit@ == 60 * 1_000_000_000,
    ;
    unit.mul(n)
}

/// A span of `n` hours (`n` times `minutes(60)`).
pub fn hours(n: u32) -> (res: Duration)
    ensures
        res@ == hours_nanos(n as int),
{
    let unit = minutes(60);
    assert(unit@ * n < duration_limit()) by (nonlinear_arith)
        requires
            unit@ == 3600 * 1_000_000_000,
            n <= u32::MAX,
    ;
    assert(unit@ * n == hours_nanos(n as int)) by (nonlinear_arith)
        requires
            unit@ == 3600 * 1_000_000_000,
    ;
    unit.mul(n)
}

/// A minute is sixty seconds and an hour sixty minutes: `minutes(n)` spans
/// as long as `n` times `seconds(60)` and as sixty times `seconds(n)`;
/// `hours(n)` as `n` times `minutes(60)` and as sixty times `minutes(n)`.
pub proof fn law_units_scale(n: u32)
    ensures
        minutes_nanos(n as int) == n * seconds_nanos(60),
        minutes_nanos(n as int) == 60 * seconds_nanos(n as int),
        hours_nanos(n as int) == n * minutes_nanos(60),
        hours_nanos(n as int) == 60 * minutes_nanos(n as int),
{
    assert(minutes_nanos(n as int) == n * seconds_nanos(60)) by (nonlinear_arith);
    assert(minutes_nanos(n as int) == 60 * seconds_nanos(n as int)) by (nonlinear_arith);
    assert(hours_nanos(n as int) == n * minutes_nanos(60)) by (nonlinear_arith);
    assert(hours_nanos(n as int) == 60 * minutes_nanos(n as int)) by (nonlinear_arith);
}

} // verus!
