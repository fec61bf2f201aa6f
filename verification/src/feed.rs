//! Feed assembly: deterministic ordering and document rendering.
//!
//! Episodes are ordered by file name in byte order — never by timestamp,
//! whose granularity would make the order unstable across runs — and the
//! document is a pure function of show name, base URL and scanned
//! entries, so an unchanged tree compiles to byte-identical output.

use vstd::prelude::*;
use vstd::relations::sorted_by;
use crate::episode::{
    build_episodes, episodes_of, episodes_view, entries_view, Episode, EpisodeView, RawEntry,
    RawEntryView,
};
use crate::order::{
    bytes_le, lemma_bytes_le_antisymmetric, lemma_bytes_le_total, lemma_bytes_le_transitive,
};
use crate::order::vec_bytes_le;
use crate::text::{clone_bytes, dec_digits, push_bytes, push_decimal};
use crate::escape::{
    guid_of, percent_encoded, push_percent_encoded, push_xml_escaped, xml_escaped,
};
use crate::mime::{file_stem, stem_of};
use crate::datefmt::{push_rfc822, rfc822_bytes};
use crate::template::{
    frag_description_end, frag_doc_head, frag_doc_tail, frag_enclosure_guid,
    frag_enclosure_length, frag_enclosure_type, frag_files_segment, frag_guid_pubdate,
    frag_item_enclosure, frag_item_head, frag_item_tail, frag_link_description, frag_shows_segment,
    frag_slash, frag_title_link, push_description_end, push_doc_head, push_doc_tail,
    push_enclosure_guid, push_enclosure_length, push_enclosure_type, push_files_segment,
    push_guid_pubdate, push_item_enclosure, push_item_head, push_item_tail,
    push_link_description, push_shows_segment, push_slash, push_title_link,
};

verus! {

/// Episode order: byte-lexicographic on the file name.
pub open spec fn episode_le(a: EpisodeView, b: EpisodeView) -> bool {
    bytes_le(a.file_name, b.file_name)
}

/// The episode order as a relation value.
pub open spec fn episode_leq() -> spec_fn(EpisodeView, EpisodeView) -> bool {
    |a: EpisodeView, b: EpisodeView| episode_le(a, b)
}

/// Inserts `e` behind every already-placed episode that does not exceed
/// it, so equal names keep their incoming order.
pub open spec fn insert_sorted(e: EpisodeView, s: Seq<EpisodeView>) -> Seq<EpisodeView>
    decreases s.len(),
{
    if s.len() == 0 {
        seq![e]
    } else if episode_le(s[0], e) {
        seq![s[0]] + insert_sorted(e, s.drop_first())
    } else {
        seq![e] + s
    }
}

/// Stable insertion sort of episodes by file name.
pub open spec fn sort_episodes_spec(s: Seq<EpisodeView>) -> Seq<EpisodeView>
    decreases s.len(),
{
    if s.len() == 0 {
        Seq::empty()
    } else {
        insert_sorted(s.last(), sort_episodes_spec(s.drop_last()))
    }
}

/// Inserting adds exactly the new episode to the contents.
pub proof fn lemma_insert_sorted_multiset(e: EpisodeView, s: Seq<EpisodeView>)
    ensures
        insert_sorted(e, s).to_multiset() == s.to_multiset().insert(e),
    decreases s.len(),
{
    broadcast use vstd::seq_lib::group_to_multiset_ensures;
    broadcast use vstd::multiset::group_multiset_axioms;

    if s.len() == 0 {
        assert(seq![e] =~= Seq::<EpisodeView>::empty().push(e));
        assert(insert_sorted(e, s).to_multiset() =~= s.to_multiset().insert(e));
    } else if episode_le(s[0], e) {
        lemma_insert_sorted_multiset(e, s.drop_first());
        vstd::seq_lib::lemma_multiset_commutative(seq![s[0]], insert_sorted(e, s.drop_first()));
        vstd::seq_lib::lemma_multiset_commutative(seq![s[0]], s.drop_first());
        assert(s =~= seq![s[0]] + s.drop_first());
        assert(insert_sorted(e, s).to_multiset() =~= s.to_multiset().insert(e));
    } else {
        vstd::seq_lib::lemma_multiset_commutative(seq![e], s);
        assert(seq![e] =~= Seq::<EpisodeView>::empty().push(e));
        assert(insert_sorted(e, s).to_multiset() =~= s.to_multiset().insert(e));
    }
}

/// Sorting keeps exactly the given episodes.
pub proof fn lemma_sort_episodes_multiset(s: Seq<EpisodeView>)
    ensures
        sort_episodes_spec(s).to_multiset() == s.to_multiset(),
    decreases s.len(),
{
    broadcast use vstd::seq_lib::group_to_multiset_ensures;

    if s.len() > 0 {
        lemma_sort_episodes_multiset(s.drop_last());
        lemma_insert_sorted_multiset(s.last(), sort_episodes_spec(s.drop_last()));
        assert(s =~= s.drop_last().push(s.last()));
        assert(sort_episodes_spec(s).to_multiset() =~= s.to_multiset());
    }
}

/// Every episode of an insertion result is the inserted one or one of
/// the originals.
pub proof fn lemma_insert_sorted_elems(e: EpisodeView, s: Seq<EpisodeView>)
    ensures
        forall|i: int|
            0 <= i < insert_sorted(e, s).len() ==> (#[trigger] insert_sorted(e, s)[i] == e
                || s.contains(insert_sorted(e, s)[i])),
    decreases s.len(),
{
    if s.len() == 0 {
    } else if episode_le(s[0], e) {
        lemma_insert_sorted_elems(e, s.drop_first());
        let r = insert_sorted(e, s);
        let rr = insert_sorted(e, s.drop_first());
        assert forall|i: int| 0 <= i < r.len() implies (#[trigger] r[i] == e || s.contains(
            r[i],
        )) by {
            if i == 0 {
                assert(r[i] == s[0]);
                assert(s.contains(s[0]));
            } else {
                assert(r[i] == rr[i - 1]);
                if rr[i - 1] != e {
                    let j = choose|j: int|
                        0 <= j < s.drop_first().len() && s.drop_first()[j] == rr[i - 1];
                    assert(s[j + 1] == rr[i - 1]);
                }
            }
        }
    } else {
        assert forall|i: int|
            0 <= i < insert_sorted(e, s).len() implies (#[trigger] insert_sorted(e, s)[i] == e
            || s.contains(insert_sorted(e, s)[i])) by {
            if i > 0 {
                assert(insert_sorted(e, s)[i] == s[i - 1]);
            }
        }
    }
}

/// Inserting into a sorted episode list keeps it sorted.
pub proof fn lemma_insert_sorted_sorted(e: EpisodeView, s: Seq<EpisodeView>)
    requires
        sorted_by(s, episode_leq()),
    ensures
        sorted_by(insert_sorted(e, s), episode_leq()),
    decreases s.len(),
{
    let leq = episode_leq();
    let r = insert_sorted(e, s);
    if s.len() == 0 {
        assert(sorted_by(r, leq));
    } else if episode_le(s[0], e) {
        let tail = s.drop_first();
        assert(sorted_by(tail, leq)) by {
            assert forall|i: int, j: int| 0 <= i < j < tail.len() implies leq(tail[i], tail[j]) by {
                assert(tail[i] == s[i + 1] && tail[j] == s[j + 1]);
            }
        }
        lemma_insert_sorted_sorted(e, tail);
        lemma_insert_sorted_elems(e, tail);
        let rr = insert_sorted(e, tail);
        assert forall|i: int, j: int| 0 <= i < j < r.len() implies leq(r[i], r[j]) by {
            if i == 0 {
                assert(r[j] == rr[j - 1]);
                if rr[j - 1] == e {
                    assert(episode_le(s[0], e));
                } else {
                    let k = choose|k: int| 0 <= k < tail.len() && tail[k] == rr[j - 1];
                    assert(leq(s[0], s[k + 1]));
                }
            } else {
                assert(r[i] == rr[i - 1] && r[j] == rr[j - 1]);
            }
        }
    } else {
        lemma_bytes_le_total(s[0].file_name, e.file_name);
        assert(episode_le(e, s[0]));
        assert forall|i: int, j: int| 0 <= i < j < r.len() implies leq(r[i], r[j]) by {
            if i == 0 {
                assert(r[j] == s[j - 1]);
                if j == 1 {
                    assert(episode_le(e, s[0]));
                } else {
                    assert(leq(s[0], s[j - 1]));
                    lemma_bytes_le_transitive(
                        e.file_name,
                        s[0].file_name,
                        s[j - 1].file_name,
                    );
                }
            } else {
                assert(r[i] == s[i - 1] && r[j] == s[j - 1]);
            }
        }
    }
}

/// The items of a feed stand in file-name order, and are exactly the
/// episodes that were scanned: sorting neither loses nor invents items.
pub proof fn lemma_feed_items_sorted(s: Seq<EpisodeView>)
    ensures
        sorted_by(sort_episodes_spec(s), episode_leq()),
        sort_episodes_spec(s).to_multiset() == s.to_multiset(),
    decreases s.len(),
{
    lemma_sort_episodes_multiset(s);
    if s.len() > 0 {
        lemma_feed_items_sorted(s.drop_last());
        lemma_insert_sorted_sorted(s.last(), sort_episodes_spec(s.drop_last()));
    }
}

/// No two episodes share a file name; true of any real directory scan.
pub open spec fn distinct_names(s: Seq<EpisodeView>) -> bool {
    forall|i: int, j: int| 0 <= i < j < s.len() ==> s[i].file_name != s[j].file_name
}

/// An episode appearing at two positions counts at least twice.
proof fn lemma_duplicate_counts_twice(t: Seq<EpisodeView>, i: int, j: int)
    requires
        0 <= i < j < t.len(),
        t[i] == t[j],
    ensures
        t.to_multiset().count(t[i]) >= 2,
{
    broadcast use vstd::seq_lib::group_to_multiset_ensures;
    broadcast use vstd::multiset::group_multiset_axioms;

    let r = t.remove(j);
    assert(r.to_multiset() =~= t.to_multiset().remove(t[j]));
    assert(r[i] == t[i]);
    assert(r.contains(t[i]));
    assert(r.to_multiset().count(t[i]) > 0);
    assert(t.to_multiset().count(t[i]) == r.to_multiset().count(t[i]) + 1);
}

/// An episode counted at least twice appears at two positions.
proof fn lemma_count_two_gives_duplicate(s: Seq<EpisodeView>, e: EpisodeView)
    requires
        s.to_multiset().count(e) >= 2,
    ensures
        exists|i: int, j: int| 0 <= i < j < s.len() && s[i] == e && s[j] == e,
{
    broadcast use vstd::seq_lib::group_to_multiset_ensures;
    broadcast use vstd::multiset::group_multiset_axioms;

    assert(s.contains(e));
    let a = choose|a: int| 0 <= a < s.len() && s[a] == e;
    let r = s.remove(a);
    assert(r.to_multiset() =~= s.to_multiset().remove(s[a]));
    assert(r.to_multiset().count(e) >= 1);
    assert(r.contains(e));
    let k = choose|k: int| 0 <= k < r.len() && r[k] == e;
    if k < a {
        assert(s[k] == e);
        assert(0 <= k < a < s.len() && s[k] == e && s[a] == e);
    } else {
        assert(s[k + 1] == e);
        assert(0 <= a < k + 1 < s.len() && s[a] == e && s[k + 1] == e);
    }
}

/// Distinct file names survive any reordering of the episodes.
proof fn lemma_distinct_names_permuted(s: Seq<EpisodeView>, t: Seq<EpisodeView>)
    requires
        s.to_multiset() == t.to_multiset(),
        distinct_names(s),
    ensures
        distinct_names(t),
{
    broadcast use vstd::seq_lib::group_to_multiset_ensures;

    assert forall|i: int, j: int| 0 <= i < j < t.len() implies t[i].file_name != t[j].file_name by {
        if t[i].file_name == t[j].file_name {
            if t[i] == t[j] {
                lemma_duplicate_counts_twice(t, i, j);
                lemma_count_two_gives_duplicate(s, t[i]);
            } else {
                assert(t.contains(t[i]) && t.contains(t[j]));
                assert(t.to_multiset().count(t[i]) > 0 && t.to_multiset().count(t[j]) > 0);
                assert(s.to_multiset().count(t[i]) > 0 && s.to_multiset().count(t[j]) > 0);
                assert(s.contains(t[i]) && s.contains(t[j]));
                let a = choose|a: int| 0 <= a < s.len() && s[a] == t[i];
                let b = choose|b: int| 0 <= b < s.len() && s[b] == t[j];
                assert(a != b);
                assert(s[a].file_name == s[b].file_name);
            }
        }
    }
}

/// Two sorted lists of the same episodes, with no repeated file name,
/// are one and the same list.
proof fn lemma_sorted_unique_names(x: Seq<EpisodeView>, y: Seq<EpisodeView>)
    requires
        sorted_by(x, episode_leq()),
        sorted_by(y, episode_leq()),
        distinct_names(x),
        x.to_multiset() == y.to_multiset(),
    ensures
        x == y,
    decreases x.len(),
{
    broadcast use vstd::seq_lib::group_to_multiset_ensures;
    broadcast use vstd::multiset::group_multiset_axioms;

    if x.len() == 0 {
        assert(y.to_multiset().len() == 0);
        assert(x =~= y);
    } else {
        assert(x.contains(x[0]));
        assert(y.to_multiset().count(x[0]) > 0);
        assert(y.contains(x[0]));
        let j = choose|j: int| 0 <= j < y.len() && y[j] == x[0];
        assert(x.to_multiset().count(y[0]) > 0);
        assert(x.contains(y[0]));
        let i = choose|i: int| 0 <= i < x.len() && x[i] == y[0];
        if i > 0 && j > 0 {
            assert(episode_leq()(x[0], x[i]));
            assert(episode_leq()(y[0], y[j]));
            lemma_bytes_le_antisymmetric(x[0].file_name, y[0].file_name);
            assert(x[i].file_name == x[0].file_name);
            assert(false);
        }
        assert(x[0] == y[0]);
        let xt = x.drop_first();
        let yt = y.drop_first();
        assert(sorted_by(xt, episode_leq())) by {
            assert forall|a: int, b: int| 0 <= a < b < xt.len() implies episode_leq()(
                xt[a],
                xt[b],
            ) by {
                assert(xt[a] == x[a + 1] && xt[b] == x[b + 1]);
            }
        }
        assert(sorted_by(yt, episode_leq())) by {
            assert forall|a: int, b: int| 0 <= a < b < yt.len() implies episode_leq()(
                yt[a],
                yt[b],
            ) by {
                assert(yt[a] == y[a + 1] && yt[b] == y[b + 1]);
            }
        }
        assert(distinct_names(xt)) by {
            assert forall|a: int, b: int| 0 <= a < b < xt.len() implies xt[a].file_name
                != xt[b].file_name by {
                assert(xt[a] == x[a + 1] && xt[b] == x[b + 1]);
            }
        }
        assert(xt.to_multiset() =~= x.to_multiset().remove(x[0])) by {
            assert(x.remove(0) =~= xt);
        }
        assert(yt.to_multiset() =~= y.to_multiset().remove(y[0])) by {
            assert(y.remove(0) =~= yt);
        }
        lemma_sorted_unique_names(xt, yt);
        assert(x.len() == y.len());
        assert forall|k: int| 0 <= k < x.len() implies x[k] == y[k] by {
            if k > 0 {
                assert(x[k] == xt[k - 1]);
                assert(y[k] == yt[k - 1]);
            }
        }
        assert(x =~= y);
    }
}

/// The feed's item order is canonical: however the filesystem happened
/// to enumerate a directory's episodes, the sorted list is the same,
/// provided no two episodes share a file name — true of any directory.
pub proof fn lemma_scan_order_irrelevant(s1: Seq<EpisodeView>, s2: Seq<EpisodeView>)
    requires
        s1.to_multiset() == s2.to_multiset(),
        distinct_names(s1),
    ensures
        sort_episodes_spec(s1) == sort_episodes_spec(s2),
{
    lemma_feed_items_sorted(s1);
    lemma_feed_items_sorted(s2);
    lemma_distinct_names_permuted(s1, sort_episodes_spec(s1));
    lemma_sorted_unique_names(sort_episodes_spec(s1), sort_episodes_spec(s2));
}

/// Where the scan of `insert_sorted` stops, the episode goes in.
proof fn lemma_insert_sorted_at(e: EpisodeView, s: Seq<EpisodeView>, j: int)
    requires
        0 <= j <= s.len(),
        forall|k: int| 0 <= k < j ==> episode_le(#[trigger] s[k], e),
        j < s.len() ==> !episode_le(s[j], e),
    ensures
        insert_sorted(e, s) == s.take(j) + seq![e] + s.skip(j),
    decreases s.len(),
{
    if s.len() == 0 {
        assert(insert_sorted(e, s) =~= s.take(j) + seq![e] + s.skip(j));
    } else if j == 0 {
        assert(s.take(0) =~= Seq::<EpisodeView>::empty());
        assert(s.skip(0) =~= s);
        assert(insert_sorted(e, s) =~= s.take(j) + seq![e] + s.skip(j));
    } else {
        assert(episode_le(s[0], e));
        let tail = s.drop_first();
        assert(forall|k: int| 0 <= k < j - 1 ==> episode_le(#[trigger] tail[k], e));
        lemma_insert_sorted_at(e, tail, j - 1);
        assert(s.take(j) =~= seq![s[0]] + tail.take(j - 1));
        assert(s.skip(j) =~= tail.skip(j - 1));
        assert(insert_sorted(e, s) =~= s.take(j) + seq![e] + s.skip(j));
    }
}

/// A fresh copy of an episode.
fn clone_episode(e: &Episode) -> (r: Episode)
    ensures
        r@ == e@,
{
    Episode {
        file_name: clone_bytes(&e.file_name),
        mime_type: clone_bytes(&e.mime_type),
        size: e.size,
        modified: e.modified,
    }
}

/// Sorts episodes by file name, stably, into a fresh vector.
pub fn sort_episodes(eps: &Vec<Episode>) -> (r: Vec<Episode>)
    ensures
        episodes_view(r@) == sort_episodes_spec(episodes_view(eps@)),
{
    let mut out: Vec<Episode> = Vec::new();
    assert(episodes_view(eps@.take(0)) =~= Seq::<EpisodeView>::empty());
    assert(episodes_view(out@) =~= sort_episodes_spec(episodes_view(eps@.take(0))));
    let mut i: usize = 0;
    while i < eps.len()
        invariant
            i <= eps.len(),
            episodes_view(out@) == sort_episodes_spec(episodes_view(eps@.take(i as int))),
        decreases eps.len() - i,
    {
        let e = clone_episode(&eps[i]);
        let mut j: usize = 0;
        loop
            invariant
                j <= out.len(),
                forall|k: int| 0 <= k < j ==> episode_le(#[trigger] episodes_view(out@)[k], e@),
            ensures
                j <= out.len(),
                forall|k: int| 0 <= k < j ==> episode_le(#[trigger] episodes_view(out@)[k], e@),
                j < out.len() ==> !episode_le(episodes_view(out@)[j as int], e@),
            decreases out.len() - j,
        {
            if j >= out.len() {
                break;
            }
            let more = vec_bytes_le(&out[j].file_name, &e.file_name);
            assert(episodes_view(out@)[j as int] == out@[j as int]@);
            if !more {
                break;
            }
            j = j + 1;
        }
        proof {
            lemma_insert_sorted_at(e@, episodes_view(out@), j as int);
        }
        let ghost out_pre = out@;
        out.insert(j, e);
        proof {
            assert(episodes_view(out@) =~= episodes_view(out_pre).take(j as int) + seq![
                eps@[i as int]@,
            ] + episodes_view(out_pre).skip(j as int));
            assert(episodes_view(eps@.take(i as int + 1)).drop_last() =~= episodes_view(
                eps@.take(i as int),
            ));
            assert(episodes_view(eps@.take(i as int + 1)).last() == eps@[i as int]@);
            assert(episodes_view(out@) =~= sort_episodes_spec(
                episodes_view(eps@.take(i as int + 1)),
            ));
        }
        i = i + 1;
    }
    assert(eps@.take(eps@.len() as int) =~= eps@);
    out
}

/// One item block of a feed document.
pub open spec fn item_bytes(base: Seq<u8>, show: Seq<u8>, e: EpisodeView) -> Seq<u8> {
    frag_item_head() + xml_escaped(stem_of(e.file_name)) + frag_item_enclosure() + xml_escaped(
        base,
    ) + frag_files_segment() + percent_encoded(show) + frag_slash() + percent_encoded(e.file_name)
        + frag_enclosure_length() + dec_digits(e.size as nat) + frag_enclosure_type() + e.mime_type
        + frag_enclosure_guid() + guid_of(show, e.file_name) + frag_guid_pubdate() + rfc822_bytes(
        e.modified as nat,
    ) + frag_item_tail()
}

/// The item blocks for a list of episodes, in list order.
pub open spec fn items_bytes(base: Seq<u8>, show: Seq<u8>, eps: Seq<EpisodeView>) -> Seq<u8>
    decreases eps.len(),
{
    if eps.len() == 0 {
        Seq::empty()
    } else {
        item_bytes(base, show, eps[0]) + items_bytes(base, show, eps.drop_first())
    }
}

/// One more episode at the end appends one more item block.
pub proof fn lemma_items_bytes_push(base: Seq<u8>, show: Seq<u8>, eps: Seq<EpisodeView>, e: EpisodeView)
    ensures
        items_bytes(base, show, eps.push(e)) == items_bytes(base, show, eps) + item_bytes(
            base,
            show,
            e,
        ),
    decreases eps.len(),
{
    if eps.len() == 0 {
        assert(eps =~= Seq::<EpisodeView>::empty());
        assert(eps.push(e).drop_first() =~= eps);
        assert(items_bytes(base, show, eps.push(e)) =~= items_bytes(base, show, eps) + item_bytes(
            base,
            show,
            e,
        ));
    } else {
        assert(eps.push(e).drop_first() =~= eps.drop_first().push(e));
        lemma_items_bytes_push(base, show, eps.drop_first(), e);
        assert(items_bytes(base, show, eps.push(e)) =~= items_bytes(base, show, eps) + item_bytes(
            base,
            show,
            e,
        ));
    }
}

/// A complete feed document for a show, given its episodes in order.
pub open spec fn feed_bytes(base: Seq<u8>, show: Seq<u8>, eps: Seq<EpisodeView>) -> Seq<u8> {
    frag_doc_head() + xml_escaped(show) + frag_title_link() + xml_escaped(base)
        + frag_shows_segment() + percent_encoded(show) + frag_link_description() + xml_escaped(
        show,
    ) + frag_description_end() + items_bytes(base, show, eps) + frag_doc_tail()
}

/// The document compiled for a show directory: its accepted entries,
/// sorted by file name, rendered. The sole description of a run's output.
pub open spec fn compiled_feed(base: Seq<u8>, show: Seq<u8>, entries: Seq<RawEntryView>) -> Seq<
    u8,
> {
    feed_bytes(base, show, sort_episodes_spec(episodes_of(entries)))
}

/// The compiled document is a pure function of the scanned tree: an
/// unchanged directory compiles to byte-identical output on every run.
pub proof fn lemma_compilation_deterministic(
    base: Seq<u8>,
    show: Seq<u8>,
    e1: Seq<RawEntryView>,
    e2: Seq<RawEntryView>,
)
    requires
        e1 == e2,
    ensures
        compiled_feed(base, show, e1) == compiled_feed(base, show, e2),
{
}

/// Appends one item block to `out`.
#[verifier::rlimit(50)]
fn push_item(out: &mut Vec<u8>, base: &Vec<u8>, show: &Vec<u8>, e: &Episode)
    ensures
        final(out)@ == old(out)@ + item_bytes(base@, show@, e@),
{
    let ghost pre = out@;
    push_item_head(out);
    let stem = file_stem(&e.file_name);
    push_xml_escaped(out, &stem);
    push_item_enclosure(out);
    push_xml_escaped(out, base);
    push_files_segment(out);
    push_percent_encoded(out, show);
    push_slash(out);
    push_percent_encoded(out, &e.file_name);
    push_enclosure_length(out);
    push_decimal(out, e.size);
    push_enclosure_type(out);
    push_bytes(out, &e.mime_type);
    push_enclosure_guid(out);
    push_percent_encoded(out, show);
    out.push(47);
    push_percent_encoded(out, &e.file_name);
    push_guid_pubdate(out);
    push_rfc822(out, e.modified);
    push_item_tail(out);
    assert(out@ =~= pre + item_bytes(base@, show@, e@));
}

/// Renders the document for a show from its already-ordered episodes.
#[verifier::rlimit(50)]
fn render_feed(show: &Vec<u8>, eps: &Vec<Episode>, base: &Vec<u8>) -> (r: Vec<u8>)
    ensures
        r@ == feed_bytes(base@, show@, episodes_view(eps@)),
{
    let mut out: Vec<u8> = Vec::new();
    push_doc_head(&mut out);
    push_xml_escaped(&mut out, show);
    push_title_link(&mut out);
    push_xml_escaped(&mut out, base);
    push_shows_segment(&mut out);
    push_percent_encoded(&mut out, show);
    push_link_description(&mut out);
    push_xml_escaped(&mut out, show);
    push_description_end(&mut out);
    let ghost head = out@;
    assert(episodes_view(eps@.take(0)) =~= Seq::<EpisodeView>::empty());
    assert(out@ =~= head + items_bytes(base@, show@, episodes_view(eps@.take(0))));
    let mut i: usize = 0;
    while i < eps.len()
        invariant
            i <= eps.len(),
            out@ == head + items_bytes(base@, show@, episodes_view(eps@.take(i as int))),
        decreases eps.len() - i,
    {
        push_item(&mut out, base, show, &eps[i]);
        proof {
            lemma_items_bytes_push(
                base@,
                show@,
                episodes_view(eps@.take(i as int)),
                eps@[i as int]@,
            );
            assert(episodes_view(eps@.take(i as int)).push(eps@[i as int]@) =~= episodes_view(
                eps@.take(i as int + 1),
            ));
            assert(out@ =~= head + items_bytes(base@, show@, episodes_view(eps@.take(i as int + 1))));
        }
        i = i + 1;
    }
    assert(eps@.take(eps@.len() as int) =~= eps@);
    push_doc_tail(&mut out);
    assert(out@ =~= feed_bytes(base@, show@, episodes_view(eps@)));
    out
}

/// Compiles one show's feed document: filters its raw entries to
/// episodes, orders them by file name, and renders the document.
pub fn build_feed(show: &Vec<u8>, entries: &Vec<RawEntry>, base: &Vec<u8>) -> (r: Vec<u8>)
    ensures
        r@ == compiled_feed(base@, show@, entries_view(entries@)),
{
    let eps = build_episodes(entries);
    let sorted = sort_episodes(&eps);
    render_feed(show, &sorted, base)
}

} // verus!
