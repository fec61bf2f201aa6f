//! The compilation driver.
//!
//! One run takes every scanned show directory, compiles a feed document
//! for each readable one, and records the unreadable ones as failures.
//! Shows are independent: one unreadable show never disturbs the
//! documents compiled for the others.

use vstd::prelude::*;
use crate::episode::{entries_view, RawEntry, RawEntryView};
use crate::feed::{build_feed, compiled_feed};
use crate::text::clone_bytes;

verus! {

/// One show directory as the scanner delivered it: its name, and its
/// entries, or `None` when the directory could not be read.
pub struct ScannedShow {
    /// Directory base name, as raw bytes.
    pub name: Vec<u8>,
    /// The directory's entries; `None` when reading them failed.
    pub entries: Option<Vec<RawEntry>>,
}

/// Mathematical image of a `ScannedShow`.
pub ghost struct ScannedShowView {
    pub name: Seq<u8>,
    pub entries: Option<Seq<RawEntryView>>,
}

impl View for ScannedShow {
    type V = ScannedShowView;

    open spec fn view(&self) -> ScannedShowView {
        ScannedShowView {
            name: self.name@,
            entries: match self.entries {
                Some(ref v) => Some(entries_view(v@)),
                None => None,
            },
        }
    }
}

/// A compiled document, destined for one show's directory.
pub struct ShowFeed {
    /// The show's directory base name.
    pub name: Vec<u8>,
    /// The complete feed document.
    pub document: Vec<u8>,
}

/// Mathematical image of a `ShowFeed`.
pub ghost struct ShowFeedView {
    pub name: Seq<u8>,
    pub document: Seq<u8>,
}

impl View for ShowFeed {
    type V = ShowFeedView;

    open spec fn view(&self) -> ShowFeedView {
        ShowFeedView { name: self.name@, document: self.document@ }
    }
}

/// The outcome of one compilation run: documents to write, and the
/// names of the shows whose directories could not be read.
pub struct FeedPlan {
    /// One document per readable show, in scan order.
    pub feeds: Vec<ShowFeed>,
    /// The names of the unreadable shows, in scan order.
    pub failures: Vec<Vec<u8>>,
}

/// The views of a sequence of scanned shows.
pub open spec fn shows_view(s: Seq<ScannedShow>) -> Seq<ScannedShowView> {
    s.map_values(|x: ScannedShow| x@)
}

/// The views of a sequence of compiled feeds.
pub open spec fn feeds_view(s: Seq<ShowFeed>) -> Seq<ShowFeedView> {
    s.map_values(|x: ShowFeed| x@)
}

/// The views of a sequence of byte vectors.
pub open spec fn names_view(s: Seq<Vec<u8>>) -> Seq<Seq<u8>> {
    s.map_values(|x: Vec<u8>| x@)
}

/// The documents compiled for the readable shows, in scan order.
pub open spec fn feeds_of(base: Seq<u8>, shows: Seq<ScannedShowView>) -> Seq<ShowFeedView>
    decreases shows.len(),
{
    if shows.len() == 0 {
        Seq::empty()
    } else {
        (match shows[0].entries {
            Some(es) => seq![
                ShowFeedView { name: shows[0].name, document: compiled_feed(base, shows[0].name, es) },
            ],
            None => Seq::empty(),
        }) + feeds_of(base, shows.drop_first())
    }
}

/// The names of the unreadable shows, in scan order.
pub open spec fn failures_of(shows: Seq<ScannedShowView>) -> Seq<Seq<u8>>
    decreases shows.len(),
{
    if shows.len() == 0 {
        Seq::empty()
    } else {
        (match shows[0].entries {
            Some(es) => Seq::<Seq<u8>>::empty(),
            None => seq![shows[0].name],
        }) + failures_of(shows.drop_first())
    }
}

/// One more show at the end extends either the feeds or the failures.
pub proof fn lemma_plan_push(base: Seq<u8>, shows: Seq<ScannedShowView>, s: ScannedShowView)
    ensures
        feeds_of(base, shows.push(s)) == feeds_of(base, shows) + (match s.entries {
            Some(es) => seq![
                ShowFeedView { name: s.name, document: compiled_feed(base, s.name, es) },
            ],
            None => Seq::<ShowFeedView>::empty(),
        }),
        failures_of(shows.push(s)) == failures_of(shows) + (match s.entries {
            Some(es) => Seq::<Seq<u8>>::empty(),
            None => seq![s.name],
        }),
    decreases shows.len(),
{
    if shows.len() == 0 {
        assert(shows =~= Seq::<ScannedShowView>::empty());
        assert(shows.push(s).drop_first() =~= shows);
        assert(feeds_of(base, shows.push(s)) =~= feeds_of(base, shows) + (match s.entries {
            Some(es) => seq![
                ShowFeedView { name: s.name, document: compiled_feed(base, s.name, es) },
            ],
            None => Seq::<ShowFeedView>::empty(),
        }));
        assert(failures_of(shows.push(s)) =~= failures_of(shows) + (match s.entries {
            Some(es) => Seq::<Seq<u8>>::empty(),
            None => seq![s.name],
        }));
    } else {
        assert(shows.push(s).drop_first() =~= shows.drop_first().push(s));
        lemma_plan_push(base, shows.drop_first(), s);
        assert(feeds_of(base, shows.push(s)) =~= feeds_of(base, shows) + (match s.entries {
            Some(es) => seq![
                ShowFeedView { name: s.name, document: compiled_feed(base, s.name, es) },
            ],
            None => Seq::<ShowFeedView>::empty(),
        }));
        assert(failures_of(shows.push(s)) =~= failures_of(shows) + (match s.entries {
            Some(es) => Seq::<Seq<u8>>::empty(),
            None => seq![s.name],
        }));
    }
}

/// Every show is accounted for: one document or one failure each.
pub proof fn lemma_plan_counts(base: Seq<u8>, shows: Seq<ScannedShowView>)
    ensures
        feeds_of(base, shows).len() + failures_of(shows).len() == shows.len(),
    decreases shows.len(),
{
    if shows.len() > 0 {
        lemma_plan_counts(base, shows.drop_first());
    }
}

/// An unreadable show is isolated: the documents compiled for the other
/// shows are exactly those compiled when it is absent, and it accounts
/// for exactly one recorded failure.
pub proof fn lemma_show_failure_isolated(base: Seq<u8>, shows: Seq<ScannedShowView>, i: int)
    requires
        0 <= i < shows.len(),
        shows[i].entries is None,
    ensures
        feeds_of(base, shows) == feeds_of(base, shows.remove(i)),
        failures_of(shows).len() == failures_of(shows.remove(i)).len() + 1,
    decreases shows.len(),
{
    if i == 0 {
        assert(shows.remove(0) =~= shows.drop_first());
        assert(feeds_of(base, shows) =~= feeds_of(base, shows.remove(0)));
    } else {
        lemma_show_failure_isolated(base, shows.drop_first(), i - 1);
        assert(shows.remove(i).drop_first() =~= shows.drop_first().remove(i - 1));
        assert(shows.remove(i)[0] == shows[0]);
        assert(feeds_of(base, shows) =~= feeds_of(base, shows.remove(i)));
    }
}

/// Compiles a document for every readable show and records every
/// unreadable one, without letting one show's failure stop the rest.
#[verifier::rlimit(50)]
pub fn plan_feeds(shows: &Vec<ScannedShow>, base: &Vec<u8>) -> (r: FeedPlan)
    ensures
        feeds_view(r.feeds@) == feeds_of(base@, shows_view(shows@)),
        names_view(r.failures@) == failures_of(shows_view(shows@)),
{
    let mut feeds: Vec<ShowFeed> = Vec::new();
    let mut failures: Vec<Vec<u8>> = Vec::new();
    assert(shows_view(shows@.take(0)) =~= Seq::<ScannedShowView>::empty());
    assert(feeds_view(feeds@) =~= feeds_of(base@, shows_view(shows@.take(0))));
    assert(names_view(failures@) =~= failures_of(shows_view(shows@.take(0))));
    let mut i: usize = 0;
    while i < shows.len()
        invariant
            i <= shows.len(),
            feeds_view(feeds@) == feeds_of(base@, shows_view(shows@.take(i as int))),
            names_view(failures@) == failures_of(shows_view(shows@.take(i as int))),
        decreases shows.len() - i,
    {
        let show = &shows[i];
        match &show.entries {
            Some(entries) => {
                let document = build_feed(&show.name, entries, base);
                let name = clone_bytes(&show.name);
                feeds.push(ShowFeed { name, document });
            },
            None => {
                failures.push(clone_bytes(&show.name));
            },
        }
        proof {
            lemma_plan_push(base@, shows_view(shows@.take(i as int)), shows@[i as int]@);
            assert(shows_view(shows@.take(i as int)).push(shows@[i as int]@) =~= shows_view(
                shows@.take(i as int + 1),
            ));
            assert(feeds_view(feeds@) =~= feeds_of(base@, shows_view(shows@.take(i as int + 1))));
            assert(names_view(failures@) =~= failures_of(shows_view(shows@.take(i as int + 1))));
        }
        i = i + 1;
    }
    assert(shows@.take(shows@.len() as int) =~= shows@);
    FeedPlan { feeds, failures }
}

/// The counts a compilation run reports.
pub struct Summary {
    /// Shows whose documents were compiled.
    pub compiled: usize,
    /// Shows whose directories could not be read.
    pub failed: usize,
}

/// The summary of a plan: how many shows compiled, how many failed.
pub fn plan_summary(plan: &FeedPlan) -> (s: Summary)
    ensures
        s.compiled == plan.feeds@.len(),
        s.failed == plan.failures@.len(),
{
    Summary { compiled: plan.feeds.len(), failed: plan.failures.len() }
}

} // verus!
