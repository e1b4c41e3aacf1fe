//! Strictly increasing wall-clock milliseconds, plus a dependency-free UTC
//! formatter used in handoff draft text.

use vstd::prelude::*;
use crate::text::{push_signed_padded, signed_padded};

verus! {

/// Milliseconds since the Unix epoch, `0` for an instant before it.
/// `SystemTime::now()` measured against `UNIX_EPOCH`; it depends on the wall
/// clock, so nothing is promised of the value.
#[verifier::external_body]
fn wall_clock_ms() -> i64 {
    std::time::SystemTime::now()
        .duration_since(std::time::UNIX_EPOCH)
        .map(|d| d.as_millis() as i64)
        .unwrap_or(0)
}

/// Wall clock that never returns the same value twice from one instance, so
/// "most recently updated" ordering stays stable even inside a single
/// millisecond.
#[derive(Debug, Default)]
pub struct MonotonicClock {
    last: i64,
}

impl View for MonotonicClock {
    type V = i64;

    /// The last value handed out (`0` before the first).
    closed spec fn view(&self) -> i64 {
        self.last
    }
}

/// The value the clock hands out after `prev`, given the wall clock reads
/// `wall`: the wall clock when it moved forward, otherwise one past `prev`.
pub open spec fn next_tick(prev: int, wall: int) -> int {
    if wall > prev { wall } else { prev + 1 }
}

impl MonotonicClock {
    pub fn new() -> (c: MonotonicClock)
        ensures
            c@ == 0,
    {
        MonotonicClock { last: 0 }
    }

    /// Never less than the wall clock and always greater than every value this
    /// clock handed out before.
    pub fn now_ms(&mut self) -> (t: i64)
        requires
            old(self)@ < i64::MAX,
        ensures
            t > old(self)@,
            final(self)@ == t,
            exists|wall: int| t == next_tick(old(self)@ as int, wall),
    {
        let wall = wall_clock_ms();
        let prev = self.last;
        let next = if wall > prev { wall } else { prev + 1 };
        self.last = next;
        assert(next == next_tick(prev as int, wall as int));
        next
    }

    /// Advances the clock from a wall-clock reading the caller made itself.
    /// The last value handed out (`0` before the first).
    pub fn last_ms(&self) -> (t: i64)
        ensures
            t == self@,
    {
        self.last
    }

    pub fn tick(&mut self, wall: i64) -> (t: i64)
        requires
            old(self)@ < i64::MAX,
        ensures
            t == next_tick(old(self)@ as int, wall as int),
            final(self)@ == t,
    {
        let prev = self.last;
        let next = if wall > prev { wall } else { prev + 1 };
        self.last = next;
        next
    }
}

/// The proleptic Gregorian calendar fields of an instant given in epoch
/// milliseconds: `(year, month, day, hour, minute, second)`, UTC, by the
/// days-from-civil inversion. Every division here is Euclidean.
pub open spec fn civil_fields(ms: int) -> (int, int, int, int, int, int) {
    let secs = ms / 1000;
    let days = secs / 86_400;
    let tod = secs % 86_400;
    let z = days + 719_468;
    let era = z / 146_097;
    let doe = z % 146_097;
    let yoe = (doe - doe / 1460 + doe / 36_524 - doe / 146_096) / 365;
    let y = yoe + era * 400;
    let doy = doe - (365 * yoe + yoe / 4 - yoe / 100);
    let mp = (5 * doy + 2) / 153;
    let d = doy - (153 * mp + 2) / 5 + 1;
    let mth = if mp < 10 { mp + 3 } else { mp - 9 };
    let year = if mth <= 2 { y + 1 } else { y };
    (year, mth, d, tod / 3600, (tod % 3600) / 60, tod % 60)
}

/// `YYYY-MM-DDTHH:MM:SSZ` for an instant in epoch milliseconds.
pub open spec fn utc_text(ms: int) -> Seq<char> {
    let f = civil_fields(ms);
    signed_padded(f.0, 4) + "-"@ + signed_padded(f.1, 2) + "-"@ + signed_padded(f.2, 2) + "T"@
        + signed_padded(f.3, 2) + ":"@ + signed_padded(f.4, 2) + ":"@ + signed_padded(f.5, 2)
        + "Z"@
}

fn ediv(n: i64, d: i64) -> (q: i64)
    requires
        d > 0,
    ensures
        q == n as int / d as int,
{
    proof {
        let (a, b) = (n as int, d as int);
        assert(i64::MIN <= a / b <= i64::MAX) by (nonlinear_arith)
            requires
                b > 0,
                i64::MIN <= a <= i64::MAX,
        {
            if a >= 0 {
                assert(0 <= a / b <= a);
            } else {
                assert(a <= a / b < 0);
            }
        }
    }
    n.checked_div_euclid(d).unwrap()
}

fn emod(n: i64, d: i64) -> (r: i64)
    requires
        d > 0,
    ensures
        r == n as int % d as int,
{
    n.checked_rem_euclid(d).unwrap()
}

/// `2026-09-08T09:14:03Z` from epoch milliseconds. Proleptic Gregorian, UTC
/// only, no local-time or leap-second claims.
pub fn format_utc(ms: i64) -> (s: String)
    ensures
        s@ == utc_text(ms as int),
{
    let secs = ediv(ms, 1000);
    let days = ediv(secs, 86_400);
    let tod = emod(secs, 86_400);
    let z = days + 719_468;
    let era = ediv(z, 146_097);
    let doe = emod(z, 146_097);
    let yoe = ediv(doe - ediv(doe, 1460) + ediv(doe, 36_524) - ediv(doe, 146_096), 365);
    let y = yoe + era * 400;
    let doy = doe - (365 * yoe + ediv(yoe, 4) - ediv(yoe, 100));
    let mp = ediv(5 * doy + 2, 153);
    let d = doy - ediv(153 * mp + 2, 5) + 1;
    let mth = if mp < 10 { mp + 3 } else { mp - 9 };
    let year = if mth <= 2 { y + 1 } else { y };
    let h = ediv(tod, 3600);
    let m = ediv(emod(tod, 3600), 60);
    let sec = emod(tod, 60);

    let mut out = String::new();
    push_signed_padded(&mut out, year, 4);
    out.append("-");
    push_signed_padded(&mut out, mth, 2);
    out.append("-");
    push_signed_padded(&mut out, d, 2);
    out.append("T");
    push_signed_padded(&mut out, h, 2);
    out.append(":");
    push_signed_padded(&mut out, m, 2);
    out.append(":");
    push_signed_padded(&mut out, sec, 2);
    out.append("Z");
    proof {
        assert(civil_fields(ms as int) == (year as int, mth as int, d as int, h as int, m as int, sec as int));
    }
    assert(out@ =~= utc_text(ms as int));
    out
}

} // verus!
