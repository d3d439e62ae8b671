use vstd::prelude::*;
use crate::text::{append_chars, decimal, decimal_vec, push_str, string_of};

verus! {

pub const SECS_PER_MINUTE: u64 = 60;
pub const SECS_PER_HOUR: u64 = 3600;
pub const SECS_PER_DAY: u64 = 86400;
pub const SECS_PER_YEAR: u64 = 31536000;
pub const SECS_PER_CENTURY: u64 = 3153600000;

/// One component of a friendly duration: empty for zero, else the count, the
/// unit, an `s` when the count is above one, and a trailing space.
pub open spec fn unit_part(n: nat, unit: Seq<char>) -> Seq<char> {
    if n == 0 {
        Seq::empty()
    } else {
        decimal(n) + seq![' '] + unit + (if n > 1 { seq!['s'] } else { Seq::empty() }) + seq![' ']
    }
}

/// All components of `secs`, largest unit first, each followed by a space.
pub open spec fn duration_parts(secs: nat) -> Seq<char> {
    let c = secs / 3153600000;
    let r1 = secs % 3153600000;
    let y = r1 / 31536000;
    let r2 = r1 % 31536000;
    let d = r2 / 86400;
    let r3 = r2 % 86400;
    let h = r3 / 3600;
    let r4 = r3 % 3600;
    let m = r4 / 60;
    let s = r4 % 60;
    unit_part(c, "century"@) + unit_part(y, "year"@) + unit_part(d, "day"@) + unit_part(
        h,
        "hour"@,
    ) + unit_part(m, "minute"@) + unit_part(s, "second"@)
}

/// The text `friendly_duration` gives for `secs` seconds.
pub open spec fn friendly_text(secs: nat) -> Seq<char> {
    let p = duration_parts(secs);
    if p.len() == 0 {
        "0 seconds"@
    } else {
        p.drop_last()
    }
}

fn push_unit(out: &mut Vec<char>, n: u64, unit: &str)
    ensures
        final(out)@ == old(out)@ + unit_part(n as nat, unit@),
{
    if n > 0 {
        let digits = decimal_vec(n);
        append_chars(out, &digits);
        out.push(' ');
        push_str(out, unit);
        if n > 1 {
            out.push('s');
        }
        out.push(' ');
        if n > 1 {
            assert(final(out)@ =~= old(out)@ + unit_part(n as nat, unit@));
        } else {
            assert(final(out)@ =~= old(out)@ + unit_part(n as nat, unit@));
        }
    } else {
        assert(old(out)@ + unit_part(n as nat, unit@) =~= old(out)@);
    }
}

/// A duration of `secs` seconds in words, largest unit first, such as
/// `1 hour 2 minutes 5 seconds`; a zero duration reads `0 seconds`.
pub fn friendly_duration(secs: u64) -> (res: String)
    ensures
        res@ == friendly_text(secs as nat),
{
    let mut dur = secs;
    let mut s: Vec<char> = Vec::new();
    let centuries = dur / SECS_PER_CENTURY;
    dur = dur % SECS_PER_CENTURY;
    push_unit(&mut s, centuries, "century");
    let years = dur / SECS_PER_YEAR;
    dur = dur % SECS_PER_YEAR;
    push_unit(&mut s, years, "year");
    let days = dur / SECS_PER_DAY;
    dur = dur % SECS_PER_DAY;
    push_unit(&mut s, days, "day");
    let hours = dur / SECS_PER_HOUR;
    dur = dur % SECS_PER_HOUR;
    push_unit(&mut s, hours, "hour");
    let minutes = dur / SECS_PER_MINUTE;
    dur = dur % SECS_PER_MINUTE;
    push_unit(&mut s, minutes, "minute");
    push_unit(&mut s, dur, "second");
    assert(s@ =~= duration_parts(secs as nat));
    if s.len() == 0 {
        let out = String::from_str("0 seconds");
        return out;
    }
    s.pop();
    assert(s@ =~= duration_parts(secs as nat).drop_last());
    string_of(s.as_slice())
}

/// Seconds in a day.
pub const DAY_SECS: i64 = 86400;

/// How long the bot runs before its daily restart: until 8 am today, given as
/// seconds since the epoch, or, once that has passed, 8 am a day later.
pub fn restart_delay_secs(now: i64, eight_today: i64) -> (res: i64)
    requires
        -0x4000_0000_0000_0000 < now < 0x4000_0000_0000_0000,
        -0x4000_0000_0000_0000 < eight_today < 0x4000_0000_0000_0000,
    ensures
        res == (if eight_today < now { eight_today + DAY_SECS } else { eight_today as int }) - now,
{
    let next = if eight_today < now { eight_today + DAY_SECS } else { eight_today };
    next - now
}

} // verus!
