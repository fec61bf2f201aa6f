//! The closed audio-extension table.
//!
//! A directory entry becomes an episode only when its extension, compared
//! case-insensitively, is one of the recognized audio extensions. The
//! extension is what follows the last dot of the name, provided that dot
//! is neither absent nor the leading byte: a name that is nothing but a
//! dotted extension has no extension at all.

use vstd::prelude::*;

verus! {

/// Index of the last `.` in `s`, if any.
pub open spec fn last_dot(s: Seq<u8>) -> Option<int>
    decreases s.len(),
{
    if s.len() == 0 {
        None
    } else if s[s.len() - 1] == 46 {
        Some(s.len() - 1)
    } else {
        last_dot(s.drop_last())
    }
}

/// A found dot lies inside the name.
pub proof fn lemma_last_dot_in_range(s: Seq<u8>)
    ensures
        last_dot(s) matches Some(i) ==> 0 <= i < s.len(),
    decreases s.len(),
{
    if s.len() > 0 && s[s.len() - 1] != 46 {
        lemma_last_dot_in_range(s.drop_last());
    }
}

/// The extension of a file name, excluding the dot; `None` when the name
/// has no dot or starts with its only relevant dot.
pub open spec fn extension(name: Seq<u8>) -> Option<Seq<u8>> {
    match last_dot(name) {
        Some(i) => if i >= 1 {
            Some(name.skip(i + 1))
        } else {
            None
        },
        None => None,
    }
}

/// The file name without its extension; the whole name when it has no
/// extension. Used as the item title.
pub open spec fn stem_of(name: Seq<u8>) -> Seq<u8> {
    match last_dot(name) {
        Some(i) => if i >= 1 {
            name.take(i)
        } else {
            name
        },
        None => name,
    }
}

/// The file name without its extension, as a fresh vector.
pub fn file_stem(name: &Vec<u8>) -> (r: Vec<u8>)
    ensures
        r@ == stem_of(name@),
{
    let cut = match find_last_dot(name) {
        Some(i) => if i >= 1 {
            proof {
                lemma_last_dot_in_range(name@);
            }
            i
        } else {
            name.len()
        },
        None => name.len(),
    };
    let mut out: Vec<u8> = Vec::new();
    let mut j: usize = 0;
    while j < cut
        invariant
            j <= cut <= name@.len(),
            out@ == name@.take(j as int),
        decreases cut - j,
    {
        out.push(name[j]);
        assert(out@ =~= name@.take(j as int + 1));
        j = j + 1;
    }
    assert(name@.take(name@.len() as int) =~= name@);
    out
}

/// ASCII lower-casing of one byte.
pub open spec fn ascii_lower(b: u8) -> u8 {
    if 65 <= b && b <= 90 {
        (b + 32) as u8
    } else {
        b
    }
}

/// The MIME type for a recognized audio extension, compared after ASCII
/// lower-casing: mp3, m4a, wav, ogg and flac.
pub open spec fn mime_for_extension(e: Seq<u8>) -> Option<Seq<u8>> {
    if e.len() == 3 && ascii_lower(e[0]) == 109 && ascii_lower(e[1]) == 112 && e[2] == 51 {
        Some(seq![97u8, 117u8, 100u8, 105u8, 111u8, 47u8, 109u8, 112u8, 101u8, 103u8])  // audio/mpeg
    } else if e.len() == 3 && ascii_lower(e[0]) == 109 && e[1] == 52 && ascii_lower(e[2]) == 97 {
        Some(seq![97u8, 117u8, 100u8, 105u8, 111u8, 47u8, 109u8, 112u8, 52u8])  // audio/mp4
    } else if e.len() == 3 && ascii_lower(e[0]) == 119 && ascii_lower(e[1]) == 97 && ascii_lower(
        e[2],
    ) == 118 {
        Some(seq![97u8, 117u8, 100u8, 105u8, 111u8, 47u8, 119u8, 97u8, 118u8])  // audio/wav
    } else if e.len() == 3 && ascii_lower(e[0]) == 111 && ascii_lower(e[1]) == 103 && ascii_lower(
        e[2],
    ) == 103 {
        Some(seq![97u8, 117u8, 100u8, 105u8, 111u8, 47u8, 111u8, 103u8, 103u8])  // audio/ogg
    } else if e.len() == 4 && ascii_lower(e[0]) == 102 && ascii_lower(e[1]) == 108 && ascii_lower(
        e[2],
    ) == 97 && ascii_lower(e[3]) == 99 {
        Some(seq![97u8, 117u8, 100u8, 105u8, 111u8, 47u8, 102u8, 108u8, 97u8, 99u8])  // audio/flac
    } else {
        None
    }
}

/// The MIME type derived from a file name, when the name is recognized
/// as audio.
pub open spec fn mime_of_name(name: Seq<u8>) -> Option<Seq<u8>> {
    match extension(name) {
        Some(e) => mime_for_extension(e),
        None => None,
    }
}

/// Whether a file name is recognized as an audio episode.
pub open spec fn is_audio_name(name: Seq<u8>) -> bool {
    mime_of_name(name) is Some
}

/// Finds the index of the last `.` in `name`, if any.
fn find_last_dot(name: &Vec<u8>) -> (r: Option<usize>)
    ensures
        match r {
            Some(i) => last_dot(name@) == Some(i as int),
            None => last_dot(name@) is None,
        },
{
    let mut i: usize = name.len();
    assert(name@.take(name@.len() as int) =~= name@);
    while i > 0
        invariant
            i <= name.len(),
            last_dot(name@) == last_dot(name@.take(i as int)),
        decreases i,
    {
        if name[i - 1] == 46 {
            assert(name@.take(i as int)[i - 1] == name@[i - 1]);
            return Some(i - 1);
        }
        assert(name@.take(i as int).drop_last() =~= name@.take(i as int - 1));
        i = i - 1;
    }
    assert(name@.take(0).len() == 0);
    None
}

/// ASCII lower-casing of one byte.
fn lower_byte(b: u8) -> (r: u8)
    ensures
        r == ascii_lower(b),
{
    if 65 <= b && b <= 90 {
        b + 32
    } else {
        b
    }
}

/// The MIME type for `name`, or `None` when the name is not recognized
/// as an audio file.
pub fn audio_mime(name: &Vec<u8>) -> (r: Option<Vec<u8>>)
    ensures
        match r {
            Some(m) => mime_of_name(name@) == Some(m@),
            None => mime_of_name(name@) is None,
        },
{
    let dot = match find_last_dot(name) {
        Some(i) => i,
        None => {
            return None;
        },
    };
    if dot == 0 {
        return None;
    }
    proof {
        lemma_last_dot_in_range(name@);
    }
    let ghost ext = name@.skip(dot + 1);
    let n = name.len() - dot - 1;
    if n == 3 {
        let a = lower_byte(name[dot + 1]);
        let b = lower_byte(name[dot + 2]);
        let c = lower_byte(name[dot + 3]);
        assert(ext[0] == name@[dot + 1] && ext[1] == name@[dot + 2] && ext[2] == name@[dot + 3]);
        if a == 109 && b == 112 && name[dot + 3] == 51 {
            let mut m: Vec<u8> = Vec::new();
            m.push(97);
            m.push(117);
            m.push(100);
            m.push(105);
            m.push(111);
            m.push(47);
            m.push(109);
            m.push(112);
            m.push(101);
            m.push(103);
            assert(m@ =~= mime_for_extension(ext)->Some_0);
            return Some(m);
        }
        if a == 109 && name[dot + 2] == 52 && c == 97 {
            let mut m: Vec<u8> = Vec::new();
            m.push(97);
            m.push(117);
            m.push(100);
            m.push(105);
            m.push(111);
            m.push(47);
            m.push(109);
            m.push(112);
            m.push(52);
            assert(m@ =~= mime_for_extension(ext)->Some_0);
            return Some(m);
        }
        if a == 119 && b == 97 && c == 118 {
            let mut m: Vec<u8> = Vec::new();
            m.push(97);
            m.push(117);
            m.push(100);
            m.push(105);
            m.push(111);
            m.push(47);
            m.push(119);
            m.push(97);
            m.push(118);
            assert(m@ =~= mime_for_extension(ext)->Some_0);
            return Some(m);
        }
        if a == 111 && b == 103 && c == 103 {
            let mut m: Vec<u8> = Vec::new();
            m.push(97);
            m.push(117);
            m.push(100);
            m.push(105);
            m.push(111);
            m.push(47);
            m.push(111);
            m.push(103);
            m.push(103);
            assert(m@ =~= mime_for_extension(ext)->Some_0);
            return Some(m);
        }
        return None;
    }
    if n == 4 {
        let a = lower_byte(name[dot + 1]);
        let b = lower_byte(name[dot + 2]);
        let c = lower_byte(name[dot + 3]);
        let d = lower_byte(name[dot + 4]);
        assert(ext[0] == name@[dot + 1] && ext[1] == name@[dot + 2] && ext[2] == name@[dot + 3]
            && ext[3] == name@[dot + 4]);
        if a == 102 && b == 108 && c == 97 && d == 99 {
            let mut m: Vec<u8> = Vec::new();
            m.push(97);
            m.push(117);
            m.push(100);
            m.push(105);
            m.push(111);
            m.push(47);
            m.push(102);
            m.push(108);
            m.push(97);
            m.push(99);
            assert(m@ =~= mime_for_extension(ext)->Some_0);
            return Some(m);
        }
        return None;
    }
    None
}

} // verus!
