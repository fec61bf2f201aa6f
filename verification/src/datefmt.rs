//! Publication-date rendering.
//!
//! A modification time in seconds since the Unix epoch becomes the fixed
//! internet-message date form `Thu, 01 Jan 1970 00:00:00 GMT` that feed
//! documents require. The calendar split is the proleptic Gregorian one,
//! counted forward from 1970.

use vstd::prelude::*;
use crate::text::{push_two_digits, push_year, two_digits, year_digits};

verus! {

/// Gregorian leap-year rule.
pub open spec fn is_leap_year(y: nat) -> bool {
    y % 4 == 0 && (y % 100 != 0 || y % 400 == 0)
}

/// Days in year `y`.
pub open spec fn days_in_year(y: nat) -> nat {
    if is_leap_year(y) {
        366
    } else {
        365
    }
}

/// Days in month `m` (1 through 12) of year `y`.
pub open spec fn days_in_month(y: nat, m: nat) -> nat
    recommends
        1 <= m <= 12,
{
    if m == 2 {
        if is_leap_year(y) {
            29
        } else {
            28
        }
    } else if m == 4 || m == 6 || m == 9 || m == 11 {
        30
    } else {
        31
    }
}

/// Days in the months of year `y` before month `m`.
pub open spec fn days_before_month(y: nat, m: nat) -> nat
    decreases m,
{
    if m <= 1 {
        0
    } else {
        days_before_month(y, (m - 1) as nat) + days_in_month(y, (m - 1) as nat)
    }
}

/// Splits days-since-epoch into a year and a day of that year, counting
/// years upward from `y`.
pub open spec fn split_year(days: nat, y: nat) -> (nat, nat)
    decreases days,
{
    if days < days_in_year(y) {
        (y, days)
    } else {
        split_year((days - days_in_year(y)) as nat, y + 1)
    }
}

/// Splits a day of year `y` into a month and a day of that month
/// (zero-based), counting months upward from `m`.
pub open spec fn split_month(doy: nat, y: nat, m: nat) -> (nat, nat)
    decreases 12 - m,
{
    if m >= 12 || doy < days_in_month(y, m) {
        (m, doy)
    } else {
        split_month((doy - days_in_month(y, m)) as nat, y, m + 1)
    }
}

/// The three-letter weekday name; 0 is Sunday.
pub open spec fn weekday_name(w: nat) -> Seq<u8>
    recommends
        w < 7,
{
    if w == 0 {
        seq![83u8, 117u8, 110u8]  // Sun
    } else if w == 1 {
        seq![77u8, 111u8, 110u8]  // Mon
    } else if w == 2 {
        seq![84u8, 117u8, 101u8]  // Tue
    } else if w == 3 {
        seq![87u8, 101u8, 100u8]  // Wed
    } else if w == 4 {
        seq![84u8, 104u8, 117u8]  // Thu
    } else if w == 5 {
        seq![70u8, 114u8, 105u8]  // Fri
    } else {
        seq![83u8, 97u8, 116u8]  // Sat
    }
}

/// The three-letter month name; months count from 1.
pub open spec fn month_name(m: nat) -> Seq<u8>
    recommends
        1 <= m <= 12,
{
    if m == 1 {
        seq![74u8, 97u8, 110u8]  // Jan
    } else if m == 2 {
        seq![70u8, 101u8, 98u8]  // Feb
    } else if m == 3 {
        seq![77u8, 97u8, 114u8]  // Mar
    } else if m == 4 {
        seq![65u8, 112u8, 114u8]  // Apr
    } else if m == 5 {
        seq![77u8, 97u8, 121u8]  // May
    } else if m == 6 {
        seq![74u8, 117u8, 110u8]  // Jun
    } else if m == 7 {
        seq![74u8, 117u8, 108u8]  // Jul
    } else if m == 8 {
        seq![65u8, 117u8, 103u8]  // Aug
    } else if m == 9 {
        seq![83u8, 101u8, 112u8]  // Sep
    } else if m == 10 {
        seq![79u8, 99u8, 116u8]  // Oct
    } else if m == 11 {
        seq![78u8, 111u8, 118u8]  // Nov
    } else {
        seq![68u8, 101u8, 99u8]  // Dec
    }
}

/// The full date line for a timestamp, for example
/// `Thu, 01 Jan 1970 00:00:00 GMT`.
pub open spec fn rfc822_bytes(t: nat) -> Seq<u8> {
    let days = t / 86400;
    let secs = t % 86400;
    let yd = split_year(days, 1970);
    let md = split_month(yd.1, yd.0, 1);
    weekday_name((days + 4) % 7) + seq![44u8, 32u8] + two_digits(md.1 + 1) + seq![32u8]
        + month_name(md.0) + seq![32u8] + year_digits(yd.0) + seq![32u8] + two_digits(
        secs / 3600,
    ) + seq![58u8] + two_digits((secs % 3600) / 60) + seq![58u8] + two_digits(secs % 60) + seq![
        32u8,
        71u8,
        77u8,
        84u8,
    ]  // " GMT"
}

/// Whether `y` is a leap year.
fn leap_year(y: u64) -> (r: bool)
    ensures
        r == is_leap_year(y as nat),
{
    y % 4 == 0 && (y % 100 != 0 || y % 400 == 0)
}

/// Days in year `y`.
fn year_len(y: u64) -> (r: u64)
    ensures
        r == days_in_year(y as nat),
{
    if leap_year(y) {
        366
    } else {
        365
    }
}

/// Days in month `m` of year `y`.
fn month_len(y: u64, m: u64) -> (r: u64)
    requires
        1 <= m <= 12,
    ensures
        r == days_in_month(y as nat, m as nat),
{
    if m == 2 {
        if leap_year(y) {
            29
        } else {
            28
        }
    } else if m == 4 || m == 6 || m == 9 || m == 11 {
        30
    } else {
        31
    }
}

/// Appends the weekday name to `out`.
fn push_weekday(out: &mut Vec<u8>, w: u64)
    requires
        w < 7,
    ensures
        final(out)@ == old(out)@ + weekday_name(w as nat),
{
    if w == 0 {
        out.push(83);
        out.push(117);
        out.push(110);
    } else if w == 1 {
        out.push(77);
        out.push(111);
        out.push(110);
    } else if w == 2 {
        out.push(84);
        out.push(117);
        out.push(101);
    } else if w == 3 {
        out.push(87);
        out.push(101);
        out.push(100);
    } else if w == 4 {
        out.push(84);
        out.push(104);
        out.push(117);
    } else if w == 5 {
        out.push(70);
        out.push(114);
        out.push(105);
    } else {
        out.push(83);
        out.push(97);
        out.push(116);
    }
    assert(out@ =~= old(out)@ + weekday_name(w as nat));
}

/// Appends the month name to `out`.
fn push_month(out: &mut Vec<u8>, m: u64)
    requires
        1 <= m <= 12,
    ensures
        final(out)@ == old(out)@ + month_name(m as nat),
{
    if m == 1 {
        out.push(74);
        out.push(97);
        out.push(110);
    } else if m == 2 {
        out.push(70);
        out.push(101);
        out.push(98);
    } else if m == 3 {
        out.push(77);
        out.push(97);
        out.push(114);
    } else if m == 4 {
        out.push(65);
        out.push(112);
        out.push(114);
    } else if m == 5 {
        out.push(77);
        out.push(97);
        out.push(121);
    } else if m == 6 {
        out.push(74);
        out.push(117);
        out.push(110);
    } else if m == 7 {
        out.push(74);
        out.push(117);
        out.push(108);
    } else if m == 8 {
        out.push(65);
        out.push(117);
        out.push(103);
    } else if m == 9 {
        out.push(83);
        out.push(101);
        out.push(112);
    } else if m == 10 {
        out.push(79);
        out.push(99);
        out.push(116);
    } else if m == 11 {
        out.push(78);
        out.push(111);
        out.push(118);
    } else {
        out.push(68);
        out.push(101);
        out.push(99);
    }
    assert(out@ =~= old(out)@ + month_name(m as nat));
}

/// Appends the date line for timestamp `t` to `out`.
#[verifier::rlimit(50)]
pub(crate) fn push_rfc822(out: &mut Vec<u8>, t: u64)
    ensures
        final(out)@ == old(out)@ + rfc822_bytes(t as nat),
{
    let ghost pre = out@;
    let days = t / 86400;
    let secs = t % 86400;
    proof {
        vstd::arithmetic::div_mod::lemma_div_is_ordered(t as int, u64::MAX as int, 86400);
    }

    // Year: walk forward from 1970.
    let mut y: u64 = 1970;
    let mut rem = days;
    loop
        invariant
            split_year(days as nat, 1970) == split_year(rem as nat, y as nat),
            y + rem <= 1970 + days,
            rem <= days,
            days <= u64::MAX / 86400,
        ensures
            split_year(days as nat, 1970) == (y as nat, rem as nat),
            rem < days_in_year(y as nat),
        decreases rem,
    {
        let len = year_len(y);
        if rem < len {
            break;
        }
        rem = rem - len;
        y = y + 1;
    }
    let doy = rem;

    // Month: walk forward from January.
    let mut m: u64 = 1;
    let mut d = doy;
    loop
        invariant
            1 <= m <= 12,
            split_month(doy as nat, y as nat, 1) == split_month(d as nat, y as nat, m as nat),
            doy as nat == d as nat + days_before_month(y as nat, m as nat),
            doy < days_in_year(y as nat),
        ensures
            split_month(doy as nat, y as nat, 1) == (m as nat, d as nat),
            1 <= m <= 12,
            d <= 30,
        decreases 12 - m,
    {
        if m == 12 {
            proof {
                assert(days_before_month(y as nat, 12) == (if is_leap_year(y as nat) {
                    335nat
                } else {
                    334nat
                })) by {
                    reveal_with_fuel(days_before_month, 13);
                }
            }
            break;
        }
        let len = month_len(y, m);
        if d < len {
            break;
        }
        d = d - len;
        m = m + 1;
    }

    push_weekday(out, (days + 4) % 7);
    out.push(44);
    out.push(32);
    push_two_digits(out, d + 1);
    out.push(32);
    push_month(out, m);
    out.push(32);
    push_year(out, y);
    out.push(32);
    push_two_digits(out, secs / 3600);
    out.push(58);
    push_two_digits(out, (secs % 3600) / 60);
    out.push(58);
    push_two_digits(out, secs % 60);
    out.push(32);
    out.push(71);
    out.push(77);
    out.push(84);
    assert(out@ =~= pre + rfc822_bytes(t as nat));
}

/// The date line for timestamp `t`, as a fresh vector.
pub fn rfc822_date(t: u64) -> (r: Vec<u8>)
    ensures
        r@ == rfc822_bytes(t as nat),
{
    let mut out: Vec<u8> = Vec::new();
    push_rfc822(&mut out, t);
    out
}

} // verus!
