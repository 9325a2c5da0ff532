//! Human-readable rendering of a count of seconds as days, hours, minutes
//! and seconds.

use vstd::prelude::*;
use crate::text::{dec, dec2, push_dec, push_dec2};
use vstd::arithmetic::div_mod::lemma_fundamental_div_mod_converse;

verus! {

/// Seconds in a day.
pub const SECS_PER_DAY: u64 = 86400;

/// Seconds in an hour.
pub const SECS_PER_HOUR: u64 = 3600;

/// Seconds in a minute.
pub const SECS_PER_MINUTE: u64 = 60;

/// `"{days}d {hh}h {mm}m {ss}s"` for a count of seconds, the hours, minutes
/// and seconds zero-padded to two digits.
pub open spec fn timestamp_text(ts: nat) -> Seq<char> {
    dec(ts / 86400) + "d "@ + dec2((ts % 86400) / 3600) + "h "@ + dec2((ts % 3600) / 60) + "m "@
        + dec2(ts % 60) + "s"@
}

/// Formats a Unix timestamp (seconds) as `"{d}d {hh}h {mm}m {ss}s"`.
pub fn format_timestamp(ts: u64) -> (r: String)
    ensures
        r@ == timestamp_text(ts as nat),
{
    let days = ts / SECS_PER_DAY;
    let hours = (ts % SECS_PER_DAY) / SECS_PER_HOUR;
    let minutes = (ts % SECS_PER_HOUR) / SECS_PER_MINUTE;
    let seconds = ts % SECS_PER_MINUTE;
    let mut r = String::new();
    push_dec(&mut r, days);
    r.append("d ");
    push_dec2(&mut r, hours);
    r.append("h ");
    push_dec2(&mut r, minutes);
    r.append("m ");
    push_dec2(&mut r, seconds);
    r.append("s");
    assert(r@ =~= timestamp_text(ts as nat));
    r
}

/// The fields that `format_timestamp` shows add back up to the timestamp:
/// days, then hours below 24, minutes below 60 and seconds below 60.
pub proof fn lemma_timestamp_fields(ts: nat)
    ensures
        (ts % 86400) / 3600 < 24,
        (ts % 3600) / 60 < 60,
        ts % 60 < 60,
        (ts / 86400) * 86400 + ((ts % 86400) / 3600) * 3600 + ((ts % 3600) / 60) * 60 + ts % 60
            == ts,
{
    let d = ts / 86400;
    let r1 = ts % 86400;
    let h = r1 / 3600;
    let r2 = r1 % 3600;
    assert(ts == d * 86400 + r1 && 0 <= r1 < 86400) by (nonlinear_arith)
        requires
            d == ts / 86400,
            r1 == ts % 86400,
            ts >= 0,
    ;
    assert(r1 == h * 3600 + r2 && 0 <= r2 < 3600) by (nonlinear_arith)
        requires
            h == r1 / 3600,
            r2 == r1 % 3600,
            0 <= r1 < 86400,
    ;
    assert(h < 24) by (nonlinear_arith)
        requires
            r1 == h * 3600 + r2,
            0 <= r2,
            r1 < 86400,
    ;
    assert(ts % 3600 == r2) by (nonlinear_arith)
        requires
            ts == d * 86400 + r1,
            r1 == h * 3600 + r2,
            0 <= r2 < 3600,
            d >= 0,
            h >= 0,
    ;
    let m = r2 / 60;
    let s = r2 % 60;
    assert(r2 == m * 60 + s && 0 <= s < 60) by (nonlinear_arith)
        requires
            m == r2 / 60,
            s == r2 % 60,
            0 <= r2,
    ;
    assert(m < 60) by (nonlinear_arith)
        requires
            r2 == m * 60 + s,
            0 <= s,
            r2 < 3600,
    ;
    assert(ts % 60 == s) by (nonlinear_arith)
        requires
            ts == d * 86400 + h * 3600 + m * 60 + s,
            0 <= s < 60,
            d >= 0,
            h >= 0,
            m >= 0,
    ;
}

/// The text shows the days, hours, minutes and seconds that make up the
/// count: whatever `d` days, `h < 24` hours, `m < 60` minutes and `s < 60`
/// seconds add up to, it reads `{d}d {hh}h {mm}m {ss}s` for them.
pub proof fn lemma_timestamp_text_of_fields(d: nat, h: nat, m: nat, s: nat)
    requires
        h < 24,
        m < 60,
        s < 60,
    ensures
        timestamp_text(d * 86400 + h * 3600 + m * 60 + s) == dec(d) + "d "@ + dec2(h) + "h "@
            + dec2(m) + "m "@ + dec2(s) + "s"@,
{
    let ts = d * 86400 + h * 3600 + m * 60 + s;
    let r1 = h * 3600 + m * 60 + s;
    let r2 = m * 60 + s;
    lemma_fundamental_div_mod_converse(ts as int, 86400, d as int, r1 as int);
    lemma_fundamental_div_mod_converse(r1 as int, 3600, h as int, r2 as int);
    assert(ts == (d * 24 + h) * 3600 + r2) by (nonlinear_arith)
        requires
            ts == d * 86400 + h * 3600 + m * 60 + s,
            r2 == m * 60 + s,
    ;
    lemma_fundamental_div_mod_converse(ts as int, 3600, (d * 24 + h) as int, r2 as int);
    lemma_fundamental_div_mod_converse(r2 as int, 60, m as int, s as int);
    assert(ts == (d * 1440 + h * 60 + m) * 60 + s) by (nonlinear_arith)
        requires
            ts == d * 86400 + h * 3600 + m * 60 + s,
    ;
    lemma_fundamental_div_mod_converse(ts as int, 60, (d * 1440 + h * 60 + m) as int, s as int);
}

} // verus!
