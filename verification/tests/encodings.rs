//! Checks of the two encodings, identifiers, dates and ordering helpers.

use oxicast::datefmt::rfc822_date;
use oxicast::episode::{build_episodes, episode_guid, RawEntry};
use oxicast::escape::{percent_encode, xml_escape};
use oxicast::feed::sort_episodes;
use oxicast::mime::{audio_mime, file_stem};
use oxicast::order::vec_bytes_le;
use oxicast::text::push_decimal;

fn bytes(s: &str) -> Vec<u8> {
    s.as_bytes().to_vec()
}

#[test]
fn markup_escaping_of_reserved_characters() {
    let name = bytes("Rock & Roll <Live>");
    assert_eq!(xml_escape(&name), bytes("Rock &amp; Roll &lt;Live&gt;"));
    let all = bytes("&<>\"'");
    assert_eq!(xml_escape(&all), bytes("&amp;&lt;&gt;&quot;&apos;"));
    assert_eq!(xml_escape(&bytes("plain-name_1.mp3")), bytes("plain-name_1.mp3"));
}

#[test]
fn url_encoding_of_path_segment() {
    let name = bytes("Rock & Roll <Live>");
    assert_eq!(percent_encode(&name), bytes("Rock%20%26%20Roll%20%3CLive%3E"));
    assert_eq!(percent_encode(&bytes("a/b?c#d")), bytes("a%2Fb%3Fc%23d"));
    assert_eq!(percent_encode(&bytes("safe-._~09AZaz")), bytes("safe-._~09AZaz"));
}

#[test]
fn the_two_encodings_differ() {
    let name = bytes("Rock & Roll <Live>");
    assert_ne!(xml_escape(&name), percent_encode(&name));
    // `&` needs markup escaping only; `/` needs URL encoding only.
    assert_eq!(xml_escape(&bytes("/")), bytes("/"));
    assert_eq!(percent_encode(&bytes("/")), bytes("%2F"));
    assert_eq!(xml_escape(&bytes("&")), bytes("&amp;"));
    assert_eq!(percent_encode(&bytes("&")), bytes("%26"));
}

#[test]
fn non_ascii_bytes_are_percent_encoded() {
    let name = vec![0xC3u8, 0xA9u8];
    assert_eq!(percent_encode(&name), bytes("%C3%A9"));
    assert_eq!(percent_encode(&vec![0u8, 255u8]), bytes("%00%FF"));
}

#[test]
fn guid_is_a_pure_function_of_the_names() {
    let first = episode_guid(&bytes("My Show"), &bytes("a.mp3"));
    let second = episode_guid(&bytes("My Show"), &bytes("a.mp3"));
    assert_eq!(first, second);
    assert_eq!(first, bytes("My%20Show/a.mp3"));
}

#[test]
fn guid_changes_on_rename() {
    let original = episode_guid(&bytes("show"), &bytes("a.mp3"));
    assert_ne!(original, episode_guid(&bytes("show"), &bytes("b.mp3")));
    assert_ne!(original, episode_guid(&bytes("other"), &bytes("a.mp3")));
    // The separator cannot be forged by names containing slashes.
    assert_ne!(
        episode_guid(&bytes("a/b"), &bytes("c")),
        episode_guid(&bytes("a"), &bytes("b/c"))
    );
}

#[test]
fn mime_table_is_closed_and_case_insensitive() {
    assert_eq!(audio_mime(&bytes("x.mp3")), Some(bytes("audio/mpeg")));
    assert_eq!(audio_mime(&bytes("x.m4a")), Some(bytes("audio/mp4")));
    assert_eq!(audio_mime(&bytes("x.wav")), Some(bytes("audio/wav")));
    assert_eq!(audio_mime(&bytes("x.ogg")), Some(bytes("audio/ogg")));
    assert_eq!(audio_mime(&bytes("x.flac")), Some(bytes("audio/flac")));
    assert_eq!(audio_mime(&bytes("x.MP3")), Some(bytes("audio/mpeg")));
    assert_eq!(audio_mime(&bytes("x.FlAc")), Some(bytes("audio/flac")));
    assert_eq!(audio_mime(&bytes("x.txt")), None);
    assert_eq!(audio_mime(&bytes("x.mp3a")), None);
    assert_eq!(audio_mime(&bytes("noext")), None);
    assert_eq!(audio_mime(&bytes(".mp3")), None);
    assert_eq!(audio_mime(&bytes("song.")), None);
    assert_eq!(audio_mime(&bytes("")), None);
}

#[test]
fn stem_drops_only_the_extension() {
    assert_eq!(file_stem(&bytes("a.mp3")), bytes("a"));
    assert_eq!(file_stem(&bytes("a.b.mp3")), bytes("a.b"));
    assert_eq!(file_stem(&bytes("noext")), bytes("noext"));
    assert_eq!(file_stem(&bytes(".hidden")), bytes(".hidden"));
}

#[test]
fn episodes_filter_and_sort() {
    let entries = vec![
        RawEntry { name: bytes("b.mp3"), size: 1, modified: 0, is_dir: false },
        RawEntry { name: bytes("a.mp3"), size: 2, modified: 0, is_dir: false },
        RawEntry { name: bytes("c.mp3"), size: 3, modified: 0, is_dir: false },
        RawEntry { name: bytes("d.mp3"), size: 4, modified: 0, is_dir: true },
        RawEntry { name: bytes("n.txt"), size: 5, modified: 0, is_dir: false },
    ];
    let eps = build_episodes(&entries);
    assert_eq!(eps.len(), 3);
    let sorted = sort_episodes(&eps);
    let names: Vec<Vec<u8>> = sorted.iter().map(|e| e.file_name.clone()).collect();
    assert_eq!(names, vec![bytes("a.mp3"), bytes("b.mp3"), bytes("c.mp3")]);
    assert_eq!(sorted[0].size, 2);
    assert_eq!(sorted[0].mime_type, bytes("audio/mpeg"));
}

#[test]
fn byte_order_is_total_and_lexicographic() {
    assert!(vec_bytes_le(&bytes("a"), &bytes("b")));
    assert!(!vec_bytes_le(&bytes("b"), &bytes("a")));
    assert!(vec_bytes_le(&bytes("a"), &bytes("ab")));
    assert!(!vec_bytes_le(&bytes("ab"), &bytes("a")));
    assert!(vec_bytes_le(&bytes(""), &bytes("")));
    assert!(vec_bytes_le(&bytes("abc"), &bytes("abc")));
    assert!(vec_bytes_le(&vec![1u8], &vec![255u8]));
}

#[test]
fn dates_render_in_internet_message_format() {
    let cases: [(u64, &str); 7] = [
        (0, "Thu, 01 Jan 1970 00:00:00 GMT"),
        (86400, "Fri, 02 Jan 1970 00:00:00 GMT"),
        (1700000000, "Tue, 14 Nov 2023 22:13:20 GMT"),
        (1709164800, "Thu, 29 Feb 2024 00:00:00 GMT"),
        (1735689599, "Tue, 31 Dec 2024 23:59:59 GMT"),
        (951827696, "Tue, 29 Feb 2000 12:34:56 GMT"),
        (4102444800, "Fri, 01 Jan 2100 00:00:00 GMT"),
    ];
    for (t, expected) in cases.iter() {
        assert_eq!(rfc822_date(*t), bytes(expected));
    }
}

#[test]
fn decimal_rendering() {
    let cases: [(u64, &str); 4] = [
        (0, "0"),
        (7, "7"),
        (1234567890123, "1234567890123"),
        (18446744073709551615, "18446744073709551615"),
    ];
    for (n, expected) in cases.iter() {
        let mut out: Vec<u8> = Vec::new();
        push_decimal(&mut out, *n);
        assert_eq!(out, bytes(expected));
    }
}
