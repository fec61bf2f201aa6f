//! Episode records and their stable identifiers.
//!
//! A raw directory entry carries what the scanner saw: name, size,
//! modification time, and whether it is itself a directory. An entry
//! becomes an episode when it is a plain file with a recognized audio
//! extension; everything else is silently excluded. The identifier of an
//! episode is derived from the show and file names alone, never from
//! size or timestamp, so an unchanged file keeps its identifier across
//! compilation runs.

use vstd::prelude::*;
use crate::escape::{guid_of, push_percent_encoded};
use crate::mime::{audio_mime, is_audio_name, mime_of_name};
use crate::text::clone_bytes;

verus! {

/// One entry of a show directory, as the scanner saw it.
pub struct RawEntry {
    /// Base name, as raw bytes.
    pub name: Vec<u8>,
    /// File size in bytes.
    pub size: u64,
    /// Modification time, in seconds since the Unix epoch.
    pub modified: u64,
    /// Whether the entry is itself a directory.
    pub is_dir: bool,
}

/// Mathematical image of a `RawEntry`.
pub ghost struct RawEntryView {
    pub name: Seq<u8>,
    pub size: u64,
    pub modified: u64,
    pub is_dir: bool,
}

impl View for RawEntry {
    type V = RawEntryView;

    open spec fn view(&self) -> RawEntryView {
        RawEntryView { name: self.name@, size: self.size, modified: self.modified, is_dir: self.is_dir }
    }
}

/// One feed item: a recognized audio file of a show.
pub struct Episode {
    /// Base name including extension, as raw bytes.
    pub file_name: Vec<u8>,
    /// MIME type from the closed audio table.
    pub mime_type: Vec<u8>,
    /// File size in bytes, declared as the enclosure length.
    pub size: u64,
    /// Modification time, in seconds since the Unix epoch; the publication date.
    pub modified: u64,
}

/// Mathematical image of an `Episode`.
pub ghost struct EpisodeView {
    pub file_name: Seq<u8>,
    pub mime_type: Seq<u8>,
    pub size: u64,
    pub modified: u64,
}

impl View for Episode {
    type V = EpisodeView;

    open spec fn view(&self) -> EpisodeView {
        EpisodeView {
            file_name: self.file_name@,
            mime_type: self.mime_type@,
            size: self.size,
            modified: self.modified,
        }
    }
}

/// The views of a sequence of raw entries.
pub open spec fn entries_view(s: Seq<RawEntry>) -> Seq<RawEntryView> {
    s.map_values(|e: RawEntry| e@)
}

/// The views of a sequence of episodes.
pub open spec fn episodes_view(s: Seq<Episode>) -> Seq<EpisodeView> {
    s.map_values(|e: Episode| e@)
}

/// Whether a raw entry is accepted as an episode: a plain file whose
/// name is recognized as audio. Nothing else excludes an entry; odd but
/// legal names are encoded downstream, never rejected.
pub open spec fn accepts(e: RawEntryView) -> bool {
    !e.is_dir && is_audio_name(e.name)
}

/// The episode made from an accepted entry.
pub open spec fn episode_of(e: RawEntryView) -> EpisodeView
    recommends
        accepts(e),
{
    EpisodeView {
        file_name: e.name,
        mime_type: mime_of_name(e.name)->Some_0,
        size: e.size,
        modified: e.modified,
    }
}

/// The episodes of a show directory: its accepted entries, in scan
/// order, each normalized to an episode record.
pub open spec fn episodes_of(entries: Seq<RawEntryView>) -> Seq<EpisodeView>
    decreases entries.len(),
{
    if entries.len() == 0 {
        Seq::empty()
    } else {
        (if accepts(entries[0]) {
            seq![episode_of(entries[0])]
        } else {
            Seq::empty()
        }) + episodes_of(entries.drop_first())
    }
}

/// Accepting one more entry at the end extends the episode list at the end.
pub proof fn lemma_episodes_of_push(entries: Seq<RawEntryView>, e: RawEntryView)
    ensures
        episodes_of(entries.push(e)) == episodes_of(entries) + (if accepts(e) {
            seq![episode_of(e)]
        } else {
            Seq::<EpisodeView>::empty()
        }),
    decreases entries.len(),
{
    let tail = if accepts(e) {
        seq![episode_of(e)]
    } else {
        Seq::<EpisodeView>::empty()
    };
    if entries.len() == 0 {
        assert(entries =~= Seq::<RawEntryView>::empty());
        assert(entries.push(e).drop_first() =~= entries);
        assert(episodes_of(entries.push(e)) =~= episodes_of(entries) + tail);
    } else {
        assert(entries.push(e).drop_first() =~= entries.drop_first().push(e));
        lemma_episodes_of_push(entries.drop_first(), e);
        assert(episodes_of(entries.push(e)) =~= episodes_of(entries) + tail);
    }
}

/// Every item of a feed is a recognized audio file: a non-audio entry
/// never appears in the episode list.
pub proof fn lemma_only_audio_items(entries: Seq<RawEntryView>)
    ensures
        forall|j: int|
            0 <= j < episodes_of(entries).len() ==> is_audio_name(
                #[trigger] episodes_of(entries)[j].file_name,
            ),
    decreases entries.len(),
{
    if entries.len() > 0 {
        lemma_only_audio_items(entries.drop_first());
        let rest = episodes_of(entries.drop_first());
        assert forall|j: int| 0 <= j < episodes_of(entries).len() implies is_audio_name(
            #[trigger] episodes_of(entries)[j].file_name,
        ) by {
            if accepts(entries[0]) {
                if j == 0 {
                    assert(episodes_of(entries)[j] == episode_of(entries[0]));
                } else {
                    assert(episodes_of(entries)[j] == rest[j - 1]);
                    assert(is_audio_name(rest[j - 1].file_name));
                }
            } else {
                assert(episodes_of(entries)[j] == rest[j]);
                assert(is_audio_name(rest[j].file_name));
            }
        }
    }
}

/// Builds the episode list of one show directory from its raw entries.
pub fn build_episodes(entries: &Vec<RawEntry>) -> (r: Vec<Episode>)
    ensures
        episodes_view(r@) == episodes_of(entries_view(entries@)),
{
    let mut out: Vec<Episode> = Vec::new();
    assert(entries_view(entries@.take(0)) =~= Seq::<RawEntryView>::empty());
    assert(episodes_view(out@) =~= episodes_of(entries_view(entries@.take(0))));
    let mut i: usize = 0;
    while i < entries.len()
        invariant
            i <= entries.len(),
            episodes_view(out@) == episodes_of(entries_view(entries@.take(i as int))),
        decreases entries.len() - i,
    {
        let entry = &entries[i];
        if !entry.is_dir {
            match audio_mime(&entry.name) {
                Some(m) => {
                    let ep = Episode {
                        file_name: clone_bytes(&entry.name),
                        mime_type: m,
                        size: entry.size,
                        modified: entry.modified,
                    };
                    assert(ep@ == episode_of(entry@));
                    out.push(ep);
                },
                None => {},
            }
        }
        proof {
            lemma_episodes_of_push(entries_view(entries@.take(i as int)), entries@[i as int]@);
            assert(entries_view(entries@.take(i as int)).push(entries@[i as int]@) =~= entries_view(
                entries@.take(i as int + 1),
            ));
            assert(episodes_view(out@) =~= episodes_of(entries_view(entries@.take(i as int + 1))));
        }
        i = i + 1;
    }
    assert(entries@.take(entries@.len() as int) =~= entries@);
    out
}

/// The stable identifier of an episode: the percent-encoded show name,
/// a slash, and the percent-encoded file name. It is a pure function of
/// the two names, so re-scanning an unchanged file never changes it.
pub fn episode_guid(show: &Vec<u8>, file: &Vec<u8>) -> (r: Vec<u8>)
    ensures
        r@ == guid_of(show@, file@),
{
    let mut out: Vec<u8> = Vec::new();
    push_percent_encoded(&mut out, show);
    out.push(47);
    push_percent_encoded(&mut out, file);
    assert(out@ =~= guid_of(show@, file@));
    out
}

/// A changed size or timestamp never changes an episode's identifier:
/// the identifier is derived from the show and file names alone.
pub proof fn lemma_guid_ignores_metadata(show: Seq<u8>, e1: RawEntryView, e2: RawEntryView)
    requires
        e1.name == e2.name,
    ensures
        guid_of(show, episode_of(e1).file_name) == guid_of(show, episode_of(e2).file_name),
{
}

} // verus!
