//! Decimal rendering of sizes and date fields into byte output.

use vstd::prelude::*;

verus! {

/// The decimal digits of `n`, most significant first, as ASCII bytes.
pub open spec fn dec_digits(n: nat) -> Seq<u8>
    decreases n,
{
    if n < 10 {
        seq![(48 + n) as u8]
    } else {
        dec_digits(n / 10) + seq![(48 + n % 10) as u8]
    }
}

/// Appends the decimal rendering of `n` to `out`.
pub fn push_decimal(out: &mut Vec<u8>, n: u64)
    ensures
        final(out)@ == old(out)@ + dec_digits(n as nat),
    decreases n,
{
    if n < 10 {
        out.push(48u8 + n as u8);
        assert(out@ =~= old(out)@ + dec_digits(n as nat));
    } else {
        let ghost pre = out@;
        push_decimal(out, n / 10);
        out.push(48u8 + (n % 10) as u8);
        assert(out@ =~= pre + dec_digits(n as nat));
    }
}

/// Two ASCII digits for `n`, zero-padded; used for date and time fields.
pub open spec fn two_digits(n: nat) -> Seq<u8>
    recommends
        n < 100,
{
    seq![(48 + n / 10) as u8, (48 + n % 10) as u8]
}

/// Appends the zero-padded two-digit rendering of `n` to `out`.
pub(crate) fn push_two_digits(out: &mut Vec<u8>, n: u64)
    requires
        n < 100,
    ensures
        final(out)@ == old(out)@ + two_digits(n as nat),
{
    out.push(48u8 + (n / 10) as u8);
    out.push(48u8 + (n % 10) as u8);
    assert(out@ =~= old(out)@ + two_digits(n as nat));
}

/// The year as at least four digits, zero-padded below 1000.
pub open spec fn year_digits(y: nat) -> Seq<u8> {
    if y < 10 {
        seq![48u8, 48u8, 48u8] + dec_digits(y)
    } else if y < 100 {
        seq![48u8, 48u8] + dec_digits(y)
    } else if y < 1000 {
        seq![48u8] + dec_digits(y)
    } else {
        dec_digits(y)
    }
}

/// Appends the zero-padded year rendering of `y` to `out`.
pub(crate) fn push_year(out: &mut Vec<u8>, y: u64)
    ensures
        final(out)@ == old(out)@ + year_digits(y as nat),
{
    let ghost pre = out@;
    if y < 10 {
        out.push(48u8);
        out.push(48u8);
        out.push(48u8);
    } else if y < 100 {
        out.push(48u8);
        out.push(48u8);
    } else if y < 1000 {
        out.push(48u8);
    }
    push_decimal(out, y);
    assert(out@ =~= pre + year_digits(y as nat));
}

/// Appends all of `v` to `out`.
pub(crate) fn push_bytes(out: &mut Vec<u8>, v: &Vec<u8>)
    ensures
        final(out)@ == old(out)@ + v@,
{
    let ghost pre = out@;
    assert(out@ =~= pre + v@.take(0));
    let mut i: usize = 0;
    while i < v.len()
        invariant
            i <= v.len(),
            out@ == pre + v@.take(i as int),
        decreases v.len() - i,
    {
        out.push(v[i]);
        assert(out@ =~= pre + v@.take(i as int + 1));
        i = i + 1;
    }
    assert(v@.take(v@.len() as int) =~= v@);
}

/// A fresh copy of a byte vector.
pub(crate) fn clone_bytes(v: &Vec<u8>) -> (r: Vec<u8>)
    ensures
        r@ == v@,
{
    let mut out: Vec<u8> = Vec::new();
    let mut i: usize = 0;
    while i < v.len()
        invariant
            i <= v.len(),
            out@ == v@.take(i as int),
        decreases v.len() - i,
    {
        out.push(v[i]);
        assert(out@ =~= v@.take(i as int + 1));
        i = i + 1;
    }
    assert(v@.take(v@.len() as int) =~= v@);
    out
}

} // verus!
