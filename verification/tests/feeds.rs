//! End-to-end checks of feed compilation on concrete trees.

use oxicast::compile::{plan_feeds, plan_summary, ScannedShow};
use oxicast::episode::RawEntry;
use oxicast::feed::build_feed;

fn entry(name: &str, size: u64, modified: u64, is_dir: bool) -> RawEntry {
    RawEntry { name: name.as_bytes().to_vec(), size, modified, is_dir }
}

fn base() -> Vec<u8> {
    b"http://10.0.0.5:8080".to_vec()
}

fn sample_entries() -> Vec<RawEntry> {
    vec![
        entry("b.mp3", 100, 0, false),
        entry("a.mp3", 42, 86400, false),
        entry("notes.txt", 5, 0, false),
        entry(".hidden.mp3", 1, 0, false),
        entry("sub", 0, 0, true),
    ]
}

fn expected_sample_document() -> String {
    let lines = [
        "<?xml version=\"1.0\" encoding=\"UTF-8\"?>",
        "<rss version=\"2.0\">",
        "<channel>",
        "<title>My Show</title>",
        "<link>http://10.0.0.5:8080/shows/My%20Show</link>",
        "<description>Episodes of My Show</description>",
        "<item>",
        "<title>.hidden</title>",
        "<enclosure url=\"http://10.0.0.5:8080/files/My%20Show/.hidden.mp3\" length=\"1\" type=\"audio/mpeg\"/>",
        "<guid isPermaLink=\"false\">My%20Show/.hidden.mp3</guid>",
        "<pubDate>Thu, 01 Jan 1970 00:00:00 GMT</pubDate>",
        "</item>",
        "<item>",
        "<title>a</title>",
        "<enclosure url=\"http://10.0.0.5:8080/files/My%20Show/a.mp3\" length=\"42\" type=\"audio/mpeg\"/>",
        "<guid isPermaLink=\"false\">My%20Show/a.mp3</guid>",
        "<pubDate>Fri, 02 Jan 1970 00:00:00 GMT</pubDate>",
        "</item>",
        "<item>",
        "<title>b</title>",
        "<enclosure url=\"http://10.0.0.5:8080/files/My%20Show/b.mp3\" length=\"100\" type=\"audio/mpeg\"/>",
        "<guid isPermaLink=\"false\">My%20Show/b.mp3</guid>",
        "<pubDate>Thu, 01 Jan 1970 00:00:00 GMT</pubDate>",
        "</item>",
        "</channel>",
        "</rss>",
    ];
    let mut doc = String::new();
    for line in lines.iter() {
        doc.push_str(line);
        doc.push('\n');
    }
    doc
}

#[test]
fn golden_document() {
    let show = b"My Show".to_vec();
    let doc = build_feed(&show, &sample_entries(), &base());
    assert_eq!(String::from_utf8(doc).unwrap(), expected_sample_document());
}

#[test]
fn determinism_two_runs() {
    let show = b"My Show".to_vec();
    let first = build_feed(&show, &sample_entries(), &base());
    let second = build_feed(&show, &sample_entries(), &base());
    assert_eq!(first, second);
}

#[test]
fn ordering_ignores_scan_order() {
    let show = b"s".to_vec();
    let orders: [[&str; 3]; 3] = [
        ["b.mp3", "a.mp3", "c.mp3"],
        ["c.mp3", "b.mp3", "a.mp3"],
        ["a.mp3", "c.mp3", "b.mp3"],
    ];
    let mut docs = Vec::new();
    for names in orders.iter() {
        let entries: Vec<RawEntry> = names.iter().map(|n| entry(n, 1, 0, false)).collect();
        docs.push(build_feed(&show, &entries, &base()));
    }
    assert_eq!(docs[0], docs[1]);
    assert_eq!(docs[0], docs[2]);
    let text = String::from_utf8(docs[0].clone()).unwrap();
    let a = text.find("<title>a</title>").unwrap();
    let b = text.find("<title>b</title>").unwrap();
    let c = text.find("<title>c</title>").unwrap();
    assert!(a < b && b < c);
}

#[test]
fn non_audio_never_an_item() {
    let show = b"s".to_vec();
    let entries = vec![
        entry("notes.txt", 5, 0, false),
        entry("song.mp3", 9, 0, false),
        entry("image.png", 9, 0, false),
    ];
    let doc = String::from_utf8(build_feed(&show, &entries, &base())).unwrap();
    assert!(!doc.contains("notes"));
    assert!(!doc.contains("png"));
    assert!(doc.contains("song.mp3"));
}

#[test]
fn guid_unchanged_by_size_and_timestamp() {
    let show = b"s".to_vec();
    let before = vec![entry("song.mp3", 9, 1000, false)];
    let after = vec![entry("song.mp3", 1234, 999999, false)];
    let doc1 = String::from_utf8(build_feed(&show, &before, &base())).unwrap();
    let doc2 = String::from_utf8(build_feed(&show, &after, &base())).unwrap();
    let guid1 = doc1.lines().find(|l| l.starts_with("<guid")).unwrap().to_string();
    let guid2 = doc2.lines().find(|l| l.starts_with("<guid")).unwrap().to_string();
    assert_eq!(guid1, guid2);
    assert_ne!(doc1, doc2);
}

#[test]
fn partial_failure_is_isolated() {
    let good1 = ScannedShow {
        name: b"one".to_vec(),
        entries: Some(vec![entry("a.mp3", 1, 0, false)]),
    };
    let broken = ScannedShow { name: b"two".to_vec(), entries: None };
    let good2 = ScannedShow {
        name: b"three".to_vec(),
        entries: Some(vec![entry("b.ogg", 2, 0, false)]),
    };
    let shows = vec![good1, broken, good2];
    let plan = plan_feeds(&shows, &base());
    assert_eq!(plan.feeds.len(), 2);
    assert_eq!(plan.failures.len(), 1);
    assert_eq!(plan.failures[0], b"two".to_vec());
    assert_eq!(plan.feeds[0].name, b"one".to_vec());
    assert_eq!(plan.feeds[1].name, b"three".to_vec());
    let expected1 = build_feed(&b"one".to_vec(), &vec![entry("a.mp3", 1, 0, false)], &base());
    let expected2 = build_feed(&b"three".to_vec(), &vec![entry("b.ogg", 2, 0, false)], &base());
    assert_eq!(plan.feeds[0].document, expected1);
    assert_eq!(plan.feeds[1].document, expected2);
    let summary = plan_summary(&plan);
    assert_eq!(summary.compiled, 2);
    assert_eq!(summary.failed, 1);
}

#[test]
fn hidden_audio_files_are_surfaced() {
    let show = b"s".to_vec();
    let entries = vec![entry(".hidden.mp3", 1, 0, false), entry(".mp3", 1, 0, false)];
    let doc = String::from_utf8(build_feed(&show, &entries, &base())).unwrap();
    assert!(doc.contains("<guid isPermaLink=\"false\">s/.hidden.mp3</guid>"));
    // A lone ".mp3" is a name with no extension, so it is not an item.
    assert!(!doc.contains("<guid isPermaLink=\"false\">s/.mp3</guid>"));
}

#[test]
fn empty_show_still_compiles() {
    let show = b"empty".to_vec();
    let doc = String::from_utf8(build_feed(&show, &Vec::new(), &base())).unwrap();
    assert!(doc.contains("<title>empty</title>"));
    assert!(!doc.contains("<item>"));
    assert!(doc.ends_with("</rss>\n"));
}

#[test]
fn zero_byte_episode_is_kept() {
    let show = b"s".to_vec();
    let entries = vec![entry("quiet.wav", 0, 0, false)];
    let doc = String::from_utf8(build_feed(&show, &entries, &base())).unwrap();
    assert!(doc.contains("length=\"0\""));
    assert!(doc.contains("quiet.wav"));
}
