use vstd::prelude::*;

verus! {

/// A point in time as chrono's `DateTime<Utc>` reports it: whole seconds since
/// the Unix epoch and the nanoseconds past that second (at least one second's
/// worth only during a leap second).
#[derive(Debug, Clone, Copy, PartialEq, Eq)]
pub struct Instant {
    pub secs: i64,
    pub nanos: u32,
}

/// The seconds of 0000-01-01T00:00:00Z and of 9999-12-31T23:59:59Z.
pub open spec fn first_four_digit_second() -> int {
    -62_167_219_200
}

pub open spec fn last_four_digit_second() -> int {
    253_402_300_799
}

/// An instant outside any leap second whose year has four digits.
pub open spec fn is_plain_instant(secs: i64, nanos: u32) -> bool {
    &&& first_four_digit_second() <= secs <= last_four_digit_second()
    &&& nanos < 1_000_000_000
}

/// What `DateTime::parse_from_rfc3339` reads from `text`: the instant as
/// (seconds, nanoseconds) in UTC, or `None` when chrono rejects the text.
pub uninterp spec fn rfc3339_instant(text: Seq<char>) -> Option<(i64, u32)>;

/// What `DateTime<Utc>::to_rfc3339` writes for the instant, or `None` when
/// chrono cannot represent the instant.
pub uninterp spec fn rfc3339_text(secs: i64, nanos: u32) -> Option<Seq<char>>;

/// `chrono::DateTime::parse_from_rfc3339` followed by `with_timezone(&Utc)`,
/// read back as a timestamp: the contract names the result
/// (`rfc3339_instant`) and states nothing more of it.
#[verifier::external_body]
pub(crate) fn parse_date_time_from_string(text: &str) -> (r: Option<Instant>)
    ensures
        match r {
            Some(i) => rfc3339_instant(text@) == Some((i.secs, i.nanos)),
            None => rfc3339_instant(text@) is None,
        },
{
    match chrono::DateTime::parse_from_rfc3339(text) {
        Ok(dt) => Some(Instant { secs: dt.timestamp(), nanos: dt.timestamp_subsec_nanos() }),
        Err(_) => None,
    }
}

/// `chrono::DateTime::<Utc>::from_timestamp` followed by `to_rfc3339`: the
/// contract names the text (`rfc3339_text`) and claims that for an instant
/// of a four-digit year outside any leap second chrono writes a text and
/// `parse_from_rfc3339` reads that same instant back from it.
#[verifier::external_body]
pub(crate) fn format_rfc3339(t: &Instant) -> (r: Option<String>)
    ensures
        match r {
            Some(s) => rfc3339_text(t.secs, t.nanos) == Some(s@),
            None => rfc3339_text(t.secs, t.nanos) is None,
        },
        is_plain_instant(t.secs, t.nanos) ==> r is Some,
        is_plain_instant(t.secs, t.nanos) ==> rfc3339_instant(r.unwrap()@) == Some((t.secs, t.nanos)),
{
    match chrono::DateTime::from_timestamp(t.secs, t.nanos) {
        Some(dt) => Some(dt.to_rfc3339()),
        None => None,
    }
}

/// The time of day in seconds (0..86400) of a timestamp.
pub open spec fn second_of_day(secs: int) -> int {
    secs % 86400
}

/// `(now - then).num_seconds()` for chrono's `DateTime<Utc>`: the difference
/// in whole seconds, truncated toward zero. chrono counts a leap second only
/// when the other instant lies at a different time of day.
pub open spec fn whole_seconds_between(now: Instant, then: Instant) -> int {
    let t1 = second_of_day(now.secs as int);
    let t2 = second_of_day(then.secs as int);
    let adjust = if t1 > t2 && then.nanos >= 1_000_000_000 {
        1int
    } else if t1 < t2 && now.nanos >= 1_000_000_000 {
        -1int
    } else {
        0int
    };
    let frac = now.nanos - then.nanos;
    let secs = now.secs - then.secs + adjust + frac / 1_000_000_000;
    let sub = frac % 1_000_000_000;
    if secs < 0 && sub > 0 {
        secs + 1
    } else {
        secs
    }
}

fn exec_second_of_day(secs: i64) -> (r: i128)
    ensures
        r == second_of_day(secs as int),
{
    proof {
        assert(86400 * 0x8000_0000_0000int > 0x7fff_ffff_ffff_ffffint);
        vstd::arithmetic::div_mod::lemma_mod_multiples_vanish(0x8000_0000_0000int, secs as int, 86400);
    }
    let shifted: i128 = secs as i128 + 86400 * 0x8000_0000_0000i128;
    assert(shifted >= 0);
    let r: i128 = shifted % 86400;
    assert(r == (secs as int + 86400 * 0x8000_0000_0000int) % 86400);
    r
}

/// The whole seconds from `then` to `now`, as chrono's `num_seconds` gives
/// them for `now - then`.
pub fn seconds_between(now: &Instant, then: &Instant) -> (r: i128)
    ensures
        r == whole_seconds_between(*now, *then),
{
    let t1 = exec_second_of_day(now.secs);
    let t2 = exec_second_of_day(then.secs);
    let adjust: i128 = if t1 > t2 && then.nanos >= 1_000_000_000 {
        1
    } else if t1 < t2 && now.nanos >= 1_000_000_000 {
        -1
    } else {
        0
    };
    let frac: i128 = now.nanos as i128 - then.nanos as i128;
    let whole: i128 = if frac >= 0 {
        frac / 1_000_000_000
    } else {
        -((-frac + 999_999_999) / 1_000_000_000)
    };
    proof {
        if frac >= 0 {
            assert(whole * 1_000_000_000 <= frac < whole * 1_000_000_000 + 1_000_000_000) by (nonlinear_arith)
                requires
                    frac >= 0,
                    whole == frac / 1_000_000_000,
            ;
        } else {
            let m = (-frac + 999_999_999) / 1_000_000_000;
            assert(m * 1_000_000_000 <= -frac + 999_999_999 < m * 1_000_000_000 + 1_000_000_000) by (nonlinear_arith)
                requires
                    frac < 0,
                    m == (-frac + 999_999_999) / 1_000_000_000,
            ;
            assert(whole == -m);
            assert(whole * 1_000_000_000 <= frac < whole * 1_000_000_000 + 1_000_000_000) by (nonlinear_arith)
                requires
                    whole == -m,
                    m * 1_000_000_000 <= -frac + 999_999_999 < m * 1_000_000_000 + 1_000_000_000,
            ;
        }
    }
    let sub: i128 = frac - whole * 1_000_000_000;
    proof {
        assert(frac / 1_000_000_000 == whole) by (nonlinear_arith)
            requires
                whole * 1_000_000_000 <= frac < whole * 1_000_000_000 + 1_000_000_000,
        ;
        assert(frac % 1_000_000_000 == sub) by (nonlinear_arith)
            requires
                whole * 1_000_000_000 <= frac < whole * 1_000_000_000 + 1_000_000_000,
                sub == frac - whole * 1_000_000_000,
        ;
    }
    let secs: i128 = now.secs as i128 - then.secs as i128 + adjust + whole;
    if secs < 0 && sub > 0 {
        secs + 1
    } else {
        secs
    }
}

/// Outside leap seconds, chrono's whole seconds from `then` to `now` are the
/// exact difference in nanoseconds divided by 10^9, truncated toward zero.
pub proof fn lemma_whole_seconds_plain(now: Instant, then: Instant)
    requires
        now.nanos < 1_000_000_000,
        then.nanos < 1_000_000_000,
    ensures
        ({
            let d = (now.secs - then.secs) * 1_000_000_000 + now.nanos - then.nanos;
            whole_seconds_between(now, then) == if d >= 0 {
                d / 1_000_000_000
            } else {
                -((-d) / 1_000_000_000)
            }
        }),
{
    let delta: int = now.secs - then.secs;
    let frac: int = now.nanos - then.nanos;
    let d: int = delta * 1_000_000_000 + frac;
    assert(d == (now.secs - then.secs) * 1_000_000_000 + now.nanos - then.nanos);
    if frac >= 0 {
        assert(frac / 1_000_000_000 == 0);
        assert(frac % 1_000_000_000 == frac);
        if delta >= 0 {
            assert(d / 1_000_000_000 == delta) by (nonlinear_arith)
                requires
                    d == delta * 1_000_000_000 + frac,
                    0 <= frac < 1_000_000_000,
                    delta >= 0,
            ;
        } else if frac > 0 {
            assert(-d == (-delta - 1) * 1_000_000_000 + (1_000_000_000 - frac));
            assert((-d) / 1_000_000_000 == -delta - 1) by (nonlinear_arith)
                requires
                    -d == (-delta - 1) * 1_000_000_000 + (1_000_000_000 - frac),
                    0 < frac < 1_000_000_000,
                    delta < 0,
            ;
        } else {
            assert((-d) / 1_000_000_000 == -delta) by (nonlinear_arith)
                requires
                    -d == (-delta) * 1_000_000_000,
                    delta < 0,
            ;
        }
    } else {
        assert(frac / 1_000_000_000 == -1);
        assert(frac % 1_000_000_000 == frac + 1_000_000_000);
        if delta >= 1 {
            assert(d / 1_000_000_000 == delta - 1) by (nonlinear_arith)
                requires
                    d == (delta - 1) * 1_000_000_000 + (1_000_000_000 + frac),
                    -1_000_000_000 < frac < 0,
                    delta >= 1,
            ;
        } else {
            assert((-d) / 1_000_000_000 == -delta) by (nonlinear_arith)
                requires
                    -d == (-delta) * 1_000_000_000 + (-frac),
                    -1_000_000_000 < frac < 0,
                    delta <= 0,
            ;
        }
    }
}

} // verus!
