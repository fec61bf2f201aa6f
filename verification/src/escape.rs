//! The two output encodings, kept strictly apart.
//!
//! A name embedded in markup text gets the five reserved markup characters
//! replaced by entities; the same name used as a URL path segment gets
//! every byte outside the unreserved set percent-encoded. A name can need
//! one encoding but not the other, so they are two independent functions.

use vstd::prelude::*;

verus! {

/// The markup entity for one byte: `&`, `<`, `>`, `"` and `'` become
/// `&amp;`, `&lt;`, `&gt;`, `&quot;` and `&apos;`; every other byte is kept.
pub open spec fn xml_escape_byte(b: u8) -> Seq<u8> {
    if b == 38 {
        seq![38u8, 97u8, 109u8, 112u8, 59u8]  // &amp;
    } else if b == 60 {
        seq![38u8, 108u8, 116u8, 59u8]  // &lt;
    } else if b == 62 {
        seq![38u8, 103u8, 116u8, 59u8]  // &gt;
    } else if b == 34 {
        seq![38u8, 113u8, 117u8, 111u8, 116u8, 59u8]  // &quot;
    } else if b == 39 {
        seq![38u8, 97u8, 112u8, 111u8, 115u8, 59u8]  // &apos;
    } else {
        seq![b]
    }
}

/// A byte string made safe for markup text content.
pub open spec fn xml_escaped(s: Seq<u8>) -> Seq<u8>
    decreases s.len(),
{
    if s.len() == 0 {
        Seq::empty()
    } else {
        xml_escape_byte(s[0]) + xml_escaped(s.drop_first())
    }
}

/// Escaping one more byte at the end extends the escape of the front.
pub proof fn lemma_xml_escaped_push(s: Seq<u8>, b: u8)
    ensures
        xml_escaped(s.push(b)) == xml_escaped(s) + xml_escape_byte(b),
    decreases s.len(),
{
    if s.len() == 0 {
        assert(s =~= Seq::<u8>::empty());
        assert(s.push(b).drop_first() =~= s);
        assert(xml_escaped(s.push(b)) =~= xml_escaped(s) + xml_escape_byte(b));
    } else {
        assert(s.push(b).drop_first() =~= s.drop_first().push(b));
        lemma_xml_escaped_push(s.drop_first(), b);
        assert(xml_escaped(s.push(b)) =~= xml_escaped(s) + xml_escape_byte(b));
    }
}

/// Appends the markup-escaped form of `s` to `out`.
pub(crate) fn push_xml_escaped(out: &mut Vec<u8>, s: &Vec<u8>)
    ensures
        final(out)@ == old(out)@ + xml_escaped(s@),
{
    let ghost pre = out@;
    assert(s@.take(0) =~= Seq::<u8>::empty());
    assert(out@ =~= pre + xml_escaped(s@.take(0)));
    let mut i: usize = 0;
    while i < s.len()
        invariant
            i <= s.len(),
            out@ == pre + xml_escaped(s@.take(i as int)),
        decreases s.len() - i,
    {
        let b = s[i];
        if b == 38 {
            out.push(38);
            out.push(97);
            out.push(109);
            out.push(112);
            out.push(59);
        } else if b == 60 {
            out.push(38);
            out.push(108);
            out.push(116);
            out.push(59);
        } else if b == 62 {
            out.push(38);
            out.push(103);
            out.push(116);
            out.push(59);
        } else if b == 34 {
            out.push(38);
            out.push(113);
            out.push(117);
            out.push(111);
            out.push(116);
            out.push(59);
        } else if b == 39 {
            out.push(38);
            out.push(97);
            out.push(112);
            out.push(111);
            out.push(115);
            out.push(59);
        } else {
            out.push(b);
        }
        proof {
            lemma_xml_escaped_push(s@.take(i as int), b);
            assert(s@.take(i as int).push(b) =~= s@.take(i as int + 1));
            assert(out@ =~= pre + xml_escaped(s@.take(i as int + 1)));
        }
        i = i + 1;
    }
    assert(s@.take(s@.len() as int) =~= s@);
}

/// The markup-escaped form of a byte string, as a fresh vector.
pub fn xml_escape(s: &Vec<u8>) -> (r: Vec<u8>)
    ensures
        r@ == xml_escaped(s@),
{
    let mut out: Vec<u8> = Vec::new();
    push_xml_escaped(&mut out, s);
    out
}

/// Bytes that a URL path segment may carry unencoded: ASCII letters,
/// digits, `-`, `.`, `_` and `~`.
pub open spec fn is_unreserved(b: u8) -> bool {
    (48 <= b && b <= 57) || (65 <= b && b <= 90) || (97 <= b && b <= 122) || b == 45 || b == 46
        || b == 95 || b == 126
}

/// The upper-case hexadecimal digit for a value below 16.
pub open spec fn hex_digit(n: u8) -> u8
    recommends
        n < 16,
{
    if n < 10 {
        (48 + n) as u8
    } else {
        (55 + n) as u8
    }
}

/// The percent-encoding of one byte: unreserved bytes are kept, every
/// other byte becomes `%` and two upper-case hexadecimal digits.
pub open spec fn percent_encode_byte(b: u8) -> Seq<u8> {
    if is_unreserved(b) {
        seq![b]
    } else {
        seq![37u8, hex_digit(b / 16), hex_digit(b % 16)]
    }
}

/// A byte string made safe for use as a URL path segment.
pub open spec fn percent_encoded(s: Seq<u8>) -> Seq<u8>
    decreases s.len(),
{
    if s.len() == 0 {
        Seq::empty()
    } else {
        percent_encode_byte(s[0]) + percent_encoded(s.drop_first())
    }
}

/// Encoding one more byte at the end extends the encoding of the front.
pub proof fn lemma_percent_encoded_push(s: Seq<u8>, b: u8)
    ensures
        percent_encoded(s.push(b)) == percent_encoded(s) + percent_encode_byte(b),
    decreases s.len(),
{
    if s.len() == 0 {
        assert(s =~= Seq::<u8>::empty());
        assert(s.push(b).drop_first() =~= s);
        assert(percent_encoded(s.push(b)) =~= percent_encoded(s) + percent_encode_byte(b));
    } else {
        assert(s.push(b).drop_first() =~= s.drop_first().push(b));
        lemma_percent_encoded_push(s.drop_first(), b);
        assert(percent_encoded(s.push(b)) =~= percent_encoded(s) + percent_encode_byte(b));
    }
}

/// Appends the percent-encoded form of `s` to `out`.
pub(crate) fn push_percent_encoded(out: &mut Vec<u8>, s: &Vec<u8>)
    ensures
        final(out)@ == old(out)@ + percent_encoded(s@),
{
    let ghost pre = out@;
    assert(s@.take(0) =~= Seq::<u8>::empty());
    assert(out@ =~= pre + percent_encoded(s@.take(0)));
    let mut i: usize = 0;
    while i < s.len()
        invariant
            i <= s.len(),
            out@ == pre + percent_encoded(s@.take(i as int)),
        decreases s.len() - i,
    {
        let b = s[i];
        let unreserved = (48 <= b && b <= 57) || (65 <= b && b <= 90) || (97 <= b && b <= 122)
            || b == 45 || b == 46 || b == 95 || b == 126;
        if unreserved {
            out.push(b);
        } else {
            out.push(37);
            let hi = b / 16;
            let lo = b % 16;
            if hi < 10 {
                out.push(48 + hi);
            } else {
                out.push(55 + hi);
            }
            if lo < 10 {
                out.push(48 + lo);
            } else {
                out.push(55 + lo);
            }
        }
        proof {
            lemma_percent_encoded_push(s@.take(i as int), b);
            assert(s@.take(i as int).push(b) =~= s@.take(i as int + 1));
            assert(out@ =~= pre + percent_encoded(s@.take(i as int + 1)));
        }
        i = i + 1;
    }
    assert(s@.take(s@.len() as int) =~= s@);
}

/// The stable identifier text derived from a show and file name: the
/// percent-encoded show name, a slash, and the percent-encoded file name.
pub open spec fn guid_of(show: Seq<u8>, file: Seq<u8>) -> Seq<u8> {
    percent_encoded(show) + seq![47u8] + percent_encoded(file)
}

/// A percent-encoded string never contains a slash: `/` is not
/// unreserved, and escapes consist of `%` and hexadecimal digits only.
pub proof fn lemma_percent_encoded_no_slash(s: Seq<u8>)
    ensures
        forall|i: int| 0 <= i < percent_encoded(s).len() ==> #[trigger] percent_encoded(s)[i]
            != 47,
    decreases s.len(),
{
    if s.len() > 0 {
        lemma_percent_encoded_no_slash(s.drop_first());
        let head = percent_encode_byte(s[0]);
        let rest = percent_encoded(s.drop_first());
        assert forall|i: int| 0 <= i < percent_encoded(s).len() implies #[trigger] percent_encoded(
            s,
        )[i] != 47 by {
            if i < head.len() {
                assert(percent_encoded(s)[i] == head[i]);
            } else {
                assert(percent_encoded(s)[i] == rest[i - head.len()]);
            }
        }
    }
}

/// Percent-encoding loses nothing: distinct inputs encode distinctly.
pub proof fn lemma_percent_encoded_injective(a: Seq<u8>, b: Seq<u8>)
    requires
        percent_encoded(a) == percent_encoded(b),
    ensures
        a == b,
    decreases a.len(),
{
    if a.len() == 0 {
        if b.len() > 0 {
            assert(percent_encoded(b).len() >= percent_encode_byte(b[0]).len());
        }
        assert(a =~= b);
    } else if b.len() == 0 {
        assert(percent_encoded(a).len() >= percent_encode_byte(a[0]).len());
    } else {
        let ha = percent_encode_byte(a[0]);
        let hb = percent_encode_byte(b[0]);
        let pa = percent_encoded(a);
        let pb = percent_encoded(b);
        if is_unreserved(a[0]) && is_unreserved(b[0]) {
            assert(pa[0] == a[0] && pb[0] == b[0]);
            assert(pa.subrange(1, pa.len() as int) =~= percent_encoded(a.drop_first()));
            assert(pb.subrange(1, pb.len() as int) =~= percent_encoded(b.drop_first()));
            lemma_percent_encoded_injective(a.drop_first(), b.drop_first());
            assert(a =~= seq![a[0]] + a.drop_first());
            assert(b =~= seq![b[0]] + b.drop_first());
            assert(a =~= b);
        } else if is_unreserved(a[0]) && !is_unreserved(b[0]) {
            assert(pa[0] == a[0] && pb[0] == 37);
        } else if !is_unreserved(a[0]) && is_unreserved(b[0]) {
            assert(pa[0] == 37 && pb[0] == b[0]);
        } else {
            assert(pa[1] == hex_digit(a[0] / 16) && pa[2] == hex_digit(a[0] % 16));
            assert(pb[1] == hex_digit(b[0] / 16) && pb[2] == hex_digit(b[0] % 16));
            assert(a[0] / 16 == b[0] / 16 && a[0] % 16 == b[0] % 16);
            vstd::arithmetic::div_mod::lemma_fundamental_div_mod(a[0] as int, 16);
            vstd::arithmetic::div_mod::lemma_fundamental_div_mod(b[0] as int, 16);
            assert(a[0] == b[0]);
            assert(pa.subrange(3, pa.len() as int) =~= percent_encoded(a.drop_first()));
            assert(pb.subrange(3, pb.len() as int) =~= percent_encoded(b.drop_first()));
            lemma_percent_encoded_injective(a.drop_first(), b.drop_first());
            assert(a =~= seq![a[0]] + a.drop_first());
            assert(b =~= seq![b[0]] + b.drop_first());
            assert(a =~= b);
        }
    }
}

/// Renaming a show or a file always changes the identifier: distinct
/// name pairs yield distinct identifiers.
pub proof fn lemma_guid_injective(s1: Seq<u8>, f1: Seq<u8>, s2: Seq<u8>, f2: Seq<u8>)
    requires
        guid_of(s1, f1) == guid_of(s2, f2),
    ensures
        s1 == s2,
        f1 == f2,
{
    let g = guid_of(s1, f1);
    let l1 = percent_encoded(s1).len() as int;
    let l2 = percent_encoded(s2).len() as int;
    lemma_percent_encoded_no_slash(s1);
    lemma_percent_encoded_no_slash(s2);
    lemma_percent_encoded_no_slash(f1);
    lemma_percent_encoded_no_slash(f2);
    assert(g[l1] == 47);
    assert(g[l2] == 47);
    if l1 < l2 {
        assert(g[l1] == percent_encoded(s2)[l1]);
    } else if l2 < l1 {
        assert(g[l2] == percent_encoded(s1)[l2]);
    }
    assert(l1 == l2);
    assert forall|i: int| 0 <= i < l1 implies #[trigger] percent_encoded(s1)[i]
        == percent_encoded(s2)[i] by {
        assert(percent_encoded(s1)[i] == g[i]);
        assert(percent_encoded(s2)[i] == g[i]);
    }
    assert(percent_encoded(s1) =~= percent_encoded(s2));
    assert(g.len() == l1 + 1 + percent_encoded(f1).len());
    assert(guid_of(s2, f2).len() == l2 + 1 + percent_encoded(f2).len());
    assert(percent_encoded(f1).len() == percent_encoded(f2).len());
    assert forall|i: int| 0 <= i < percent_encoded(f1).len() implies #[trigger] percent_encoded(
        f1,
    )[i] == percent_encoded(f2)[i] by {
        assert(percent_encoded(f1)[i] == g[l1 + 1 + i]);
        assert(percent_encoded(f2)[i] == g[l1 + 1 + i]);
    }
    assert(percent_encoded(f1) =~= percent_encoded(f2));
    lemma_percent_encoded_injective(s1, s2);
    lemma_percent_encoded_injective(f1, f2);
}

/// The percent-encoded form of a byte string, as a fresh vector.
pub fn percent_encode(s: &Vec<u8>) -> (r: Vec<u8>)
    ensures
        r@ == percent_encoded(s@),
{
    let mut out: Vec<u8> = Vec::new();
    push_percent_encoded(&mut out, s);
    out
}

} // verus!
