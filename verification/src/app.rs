//! The search coordinator and selection state. The coordinator owns the
//! flattened record collection, the per-category query texts, a monotonically
//! increasing scan generation, and the most recently accepted ranked result.
//! Query edits queue a rescan; a scheduling tick launches at most one scan
//! and stamps it with the next generation; a delivered result is accepted
//! only if its generation is at least the newest accepted so far, so a slow,
//! stale scan can never overwrite a newer one. The selection is reconciled
//! against every accepted result so that it always indexes into the visible
//! ranked list.
use vstd::prelude::*;

use crate::record::QueryData;

verus! {

/// Relies on alloc::string::String::push: appends exactly the given
/// character to the end of the string.
pub assume_specification[ String::push ](s: &mut String, ch: char)
    ensures
        final(s)@ == old(s)@.push(ch),
;

/// Whitespace for word-wise deletion: the separators the query editor
/// recognises.
pub open spec fn is_word_separator(c: char) -> bool {
    c == '\n' || c == '\t' || c == ' '
}

/// Drop every trailing separator character.
pub open spec fn strip_separators(s: Seq<char>) -> Seq<char>
    decreases s.len(),
{
    if s.len() > 0 && is_word_separator(s.last()) {
        strip_separators(s.drop_last())
    } else {
        s
    }
}

/// Drop every trailing non-separator character.
pub open spec fn strip_word(s: Seq<char>) -> Seq<char>
    decreases s.len(),
{
    if s.len() > 0 && !is_word_separator(s.last()) {
        strip_word(s.drop_last())
    } else {
        s
    }
}

/// The text left after deleting the last word: trailing separators go, then
/// the word before them; the separator before that word stays.
pub open spec fn after_remove_word(s: Seq<char>) -> Seq<char> {
    strip_word(strip_separators(s))
}

/// Selection after a navigation step forward: wraps from the last entry to
/// the first, and is a no-op on an empty selection.
pub open spec fn next_selection(sel: Option<usize>, len: nat) -> Option<usize> {
    match sel {
        None => None,
        Some(i) => Some(if i + 1 >= len { 0usize } else { (i + 1) as usize }),
    }
}

/// Selection after a navigation step backward: wraps from the first entry to
/// the last, and is a no-op on an empty selection.
pub open spec fn previous_selection(sel: Option<usize>, len: nat) -> Option<usize> {
    match sel {
        None => None,
        Some(i) => Some(if i == 0 { (len - 1) as usize } else { (i - 1) as usize }),
    }
}

/// Navigation wraparound law: stepping forward from the last entry reaches
/// the first, stepping backward from the first reaches the last, and both
/// leave an empty selection empty.
pub proof fn lemma_navigation_wraparound(len: nat)
    requires
        0 < len <= usize::MAX,
    ensures
        next_selection(Some((len - 1) as usize), len) == Some(0usize),
        previous_selection(Some(0usize), len) == Some((len - 1) as usize),
        next_selection(None, len) is None,
        previous_selection(None, len) is None,
{
}

/// Selection reconciliation against a newly accepted ranked result of length
/// `len`: an empty selection selects the first entry when one exists; a
/// selection past the end clamps to the last entry; a still-valid selection
/// is kept; an empty result empties the selection.
pub open spec fn reconcile_selection(sel: Option<usize>, len: nat) -> Option<usize> {
    match sel {
        None => if len > 0 {
            Some(0usize)
        } else {
            None
        },
        Some(i) => if i < len {
            Some(i)
        } else if len > 0 {
            Some((len - 1) as usize)
        } else {
            None
        },
    }
}

/// The search coordinator together with the selection state.
pub struct App<'a> {
    /// The flattened record collection, immutable after construction.
    pub data: Vec<QueryData>,
    /// The per-category query texts, one per category.
    pub search: Vec<String>,
    /// The generation that the next launched scan will carry.
    pub search_number: usize,
    /// The newest accepted generation and the ranked result it delivered.
    pub ranked: (usize, Vec<(QueryData, u64)>),
    /// The selected entry of the ranked result, when there is one.
    pub selected_item: Option<usize>,
    /// The query box that edits currently target.
    pub selected_search_box: usize,
    /// The category configuration: the field names of each category.
    pub search_categories: Vec<Vec<&'a str>>,
    /// Whether an edit has queued a rescan for the next tick.
    pub search_queued: bool,
}

impl<'a> App<'a> {
    /// Well-formedness: the selection indexes into the ranked result, the
    /// targeted query box is in range, and there is one query text per
    /// category, the same count every record was flattened into.
    pub open spec fn wf(self) -> bool {
        &&& match self.selected_item {
            Some(i) => i < self.ranked.1@.len(),
            None => true,
        }
        &&& (self.search_categories@.len() > 0 ==> self.selected_search_box
            < self.search_categories@.len())
        &&& self.search@.len() == self.search_categories@.len()
        &&& forall|k: int|
            0 <= k < self.data@.len() ==> (#[trigger] self.data@[k])@.strings.len()
                == self.search@.len()
    }

    /// A fresh coordinator over a flattened collection and its category
    /// configuration: empty query texts, generation zero, no result, no
    /// selection, no queued rescan. Every record must have been flattened
    /// with the same category count as the configuration.
    pub fn new(data: Vec<QueryData>, search_categories: Vec<Vec<&'a str>>) -> (r: App<'a>)
        requires
            forall|k: int|
                0 <= k < data@.len() ==> (#[trigger] data@[k])@.strings.len()
                    == search_categories@.len(),
        ensures
            r.wf(),
            r.data == data,
            r.search_categories == search_categories,
            r.search@.len() == search_categories@.len(),
            forall|j: int| 0 <= j < r.search@.len() ==> (#[trigger] r.search@[j])@.len() == 0,
            r.search_number == 0,
            r.ranked.0 == 0,
            r.ranked.1@.len() == 0,
            r.selected_item is None,
            r.selected_search_box == 0,
            !r.search_queued,
    {
        let mut search: Vec<String> = Vec::new();
        let mut i: usize = 0;
        while i < search_categories.len()
            invariant
                i <= search_categories@.len(),
                search@.len() == i,
                forall|j: int| 0 <= j < i ==> (#[trigger] search@[j])@.len() == 0,
            decreases search_categories@.len() - i,
        {
            search.push(String::new());
            i = i + 1;
        }
        App {
            data,
            search,
            search_number: 0,
            ranked: (0, Vec::new()),
            selected_item: None,
            selected_search_box: 0,
            search_categories,
            search_queued: false,
        }
    }

    /// Queue a rescan without editing any query text, as at session start.
    pub fn queue_rescan(&mut self)
        requires
            old(self).wf(),
        ensures
            final(self).wf(),
            *final(self) == (App { search_queued: true, ..*old(self) }),
    {
        self.search_queued = true;
    }

    /// Move the edit target to the next query box, wrapping around.
    pub fn increment_search_category(&mut self)
        requires
            old(self).wf(),
            old(self).search_categories@.len() > 0,
        ensures
            final(self).wf(),
            *final(self) == (App {
                selected_search_box: if old(self).selected_search_box + 1
                    == old(self).search_categories@.len() {
                    0usize
                } else {
                    (old(self).selected_search_box + 1) as usize
                },
                ..*old(self)
            }),
    {
        let len = self.search_categories.len();
        if self.selected_search_box + 1 == len {
            self.selected_search_box = 0;
        } else {
            self.selected_search_box = self.selected_search_box + 1;
        }
    }

    /// Move the edit target to the previous query box, wrapping around.
    pub fn decrement_search_category(&mut self)
        requires
            old(self).wf(),
            old(self).search_categories@.len() > 0,
        ensures
            final(self).wf(),
            *final(self) == (App {
                selected_search_box: if old(self).selected_search_box == 0 {
                    (old(self).search_categories@.len() - 1) as usize
                } else {
                    (old(self).selected_search_box - 1) as usize
                },
                ..*old(self)
            }),
    {
        match self.selected_search_box {
            0 => self.selected_search_box = self.search_categories.len() - 1,
            _ => self.selected_search_box = self.selected_search_box - 1,
        }
    }

    /// Step the selection forward, wrapping from the last entry to the first;
    /// a no-op while nothing is selected.
    pub fn increment_selected(&mut self)
        requires
            old(self).wf(),
        ensures
            final(self).wf(),
            *final(self) == (App {
                selected_item: next_selection(old(self).selected_item, old(self).ranked.1@.len()),
                ..*old(self)
            }),
    {
        let len = self.ranked.1.len();
        match self.selected_item {
            Some(x) => {
                self.selected_item = Some(if x + 1 >= len { 0 } else { x + 1 });
            },
            None => {},
        }
    }

    /// Step the selection backward, wrapping from the first entry to the
    /// last; a no-op while nothing is selected.
    pub fn decrement_selected(&mut self)
        requires
            old(self).wf(),
        ensures
            final(self).wf(),
            *final(self) == (App {
                selected_item: previous_selection(
                    old(self).selected_item,
                    old(self).ranked.1@.len(),
                ),
                ..*old(self)
            }),
    {
        let len = self.ranked.1.len();
        match self.selected_item {
            Some(x) => {
                self.selected_item = Some(if x == 0 { len - 1 } else { x - 1 });
            },
            None => {},
        }
    }
}

/// Everything that one edit of query box `b` changes: the text of that box
/// becomes `t`, a rescan is queued, and nothing else moves.
pub open spec fn edited(pre: App, post: App, b: int, t: Seq<char>) -> bool {
    &&& post.search@.len() == pre.search@.len()
    &&& post.search@[b]@ == t
    &&& forall|j: int| 0 <= j < pre.search@.len() && j != b ==> post.search@[j] == pre.search@[j]
    &&& post.search_queued
    &&& post.data == pre.data
    &&& post.search_number == pre.search_number
    &&& post.ranked == pre.ranked
    &&& post.selected_item == pre.selected_item
    &&& post.selected_search_box == pre.selected_search_box
    &&& post.search_categories == pre.search_categories
}

/// The coordinator state after a scan result stamped `generation` is
/// delivered: accepted, with the selection reconciled, exactly when its
/// generation is at least the newest accepted so far; discarded otherwise.
pub open spec fn accept_spec<'a>(s: App<'a>, generation: usize, list: Vec<(QueryData, u64)>) -> App<
    'a,
> {
    if generation >= s.ranked.0 {
        App {
            ranked: (generation, list),
            selected_item: reconcile_selection(s.selected_item, list@.len()),
            ..s
        }
    } else {
        s
    }
}

/// Generation acceptance law: once a scan stamped `g2` has been accepted, a
/// slower scan stamped `g1 < g2` that arrives afterwards is discarded, and
/// the visible ranked result still reflects `g2`'s delivery.
pub proof fn lemma_stale_scan_ignored<'a>(
    s: App<'a>,
    g1: usize,
    l1: Vec<(QueryData, u64)>,
    g2: usize,
    l2: Vec<(QueryData, u64)>,
)
    requires
        g1 < g2,
        g2 >= s.ranked.0,
    ensures
        accept_spec(accept_spec(s, g2, l2), g1, l1) == accept_spec(s, g2, l2),
        accept_spec(accept_spec(s, g2, l2), g1, l1).ranked == (g2, l2),
{
}

/// Whatever a scan delivers, the newest accepted generation never decreases:
/// the visible ranked result can only move forward in time.
pub proof fn lemma_accepted_generation_monotone<'a>(
    s: App<'a>,
    generation: usize,
    list: Vec<(QueryData, u64)>,
)
    ensures
        accept_spec(s, generation, list).ranked.0 >= s.ranked.0,
{
}

impl<'a> App<'a> {
    /// Append one character to the targeted query text and queue a rescan;
    /// a no-op when the target is out of range.
    pub fn add_letter(&mut self, letter: char)
        requires
            old(self).wf(),
        ensures
            final(self).wf(),
            old(self).selected_search_box < old(self).search@.len() ==> edited(
                *old(self),
                *final(self),
                old(self).selected_search_box as int,
                old(self).search@[old(self).selected_search_box as int]@.push(letter),
            ),
            old(self).selected_search_box >= old(self).search@.len() ==> *final(self) == *old(
                self,
            ),
    {
        let b = self.selected_search_box;
        if b < self.search.len() {
            let mut s = self.search[b].clone();
            s.push(letter);
            self.search.set(b, s);
            self.search_queued = true;
        }
    }

    /// Remove the last character of the targeted query text (nothing to
    /// remove from an empty text) and queue a rescan; a no-op when the
    /// target is out of range.
    pub fn remove_letter(&mut self)
        requires
            old(self).wf(),
        ensures
            final(self).wf(),
            old(self).selected_search_box < old(self).search@.len() ==> edited(
                *old(self),
                *final(self),
                old(self).selected_search_box as int,
                old(self).search@[old(self).selected_search_box as int]@.drop_last(),
            ) || (old(self).search@[old(self).selected_search_box as int]@.len() == 0 && edited(
                *old(self),
                *final(self),
                old(self).selected_search_box as int,
                old(self).search@[old(self).selected_search_box as int]@,
            )),
            old(self).selected_search_box >= old(self).search@.len() ==> *final(self) == *old(
                self,
            ),
    {
        let b = self.selected_search_box;
        if b < self.search.len() {
            let n = self.search[b].as_str().unicode_len();
            if n > 0 {
                let s = self.search[b].as_str().substring_char(0, n - 1).to_owned();
                proof {
                    assert(s@ =~= self.search@[b as int]@.drop_last());
                }
                self.search.set(b, s);
            }
            self.search_queued = true;
        }
    }

    /// Remove the last word of the targeted query text: trailing separators,
    /// then the non-separator run before them, keeping the separator before
    /// that word; queue a rescan. A no-op when the target is out of range.
    pub fn remove_word(&mut self)
        requires
            old(self).wf(),
        ensures
            final(self).wf(),
            old(self).selected_search_box < old(self).search@.len() ==> edited(
                *old(self),
                *final(self),
                old(self).selected_search_box as int,
                after_remove_word(old(self).search@[old(self).selected_search_box as int]@),
            ),
            old(self).selected_search_box >= old(self).search@.len() ==> *final(self) == *old(
                self,
            ),
    {
        let b = self.selected_search_box;
        if b < self.search.len() {
            let snap = self.search[b].clone();
            let n = snap.as_str().unicode_len();
            proof {
                assert(snap@.take(n as int) =~= snap@);
            }
            let mut i: usize = n;
            // Skip the trailing separators.
            loop
                invariant
                    i <= n,
                    n == snap@.len(),
                    strip_separators(snap@) == strip_separators(snap@.take(i as int)),
                ensures
                    i <= n,
                    n == snap@.len(),
                    strip_separators(snap@) == snap@.take(i as int),
                decreases i,
            {
                if i == 0 {
                    break ;
                }
                let c = snap.as_str().get_char(i - 1);
                if !(c == '\n' || c == '\t' || c == ' ') {
                    proof {
                        assert(snap@.take(i as int).last() == snap@[i - 1]);
                    }
                    break ;
                }
                proof {
                    assert(snap@.take(i as int).last() == snap@[i - 1]);
                    assert(snap@.take(i as int).drop_last() =~= snap@.take(i - 1));
                }
                i = i - 1;
            }
            let ghost stripped = snap@.take(i as int);
            // Skip the word before them.
            loop
                invariant
                    i <= n,
                    n == snap@.len(),
                    i <= stripped.len(),
                    strip_word(stripped) == strip_word(snap@.take(i as int)),
                ensures
                    i <= n,
                    strip_word(stripped) == snap@.take(i as int),
                decreases i,
            {
                if i == 0 {
                    break ;
                }
                let c = snap.as_str().get_char(i - 1);
                if c == '\n' || c == '\t' || c == ' ' {
                    proof {
                        assert(snap@.take(i as int).last() == snap@[i - 1]);
                    }
                    break ;
                }
                proof {
                    assert(snap@.take(i as int).last() == snap@[i - 1]);
                    assert(snap@.take(i as int).drop_last() =~= snap@.take(i - 1));
                }
                i = i - 1;
            }
            let t = snap.as_str().substring_char(0, i).to_owned();
            proof {
                assert(t@ =~= after_remove_word(self.search@[b as int]@));
            }
            self.search.set(b, t);
            self.search_queued = true;
        }
    }

    /// Clear every query text and queue a rescan.
    pub fn clear_all_searches(&mut self)
        requires
            old(self).wf(),
        ensures
            final(self).wf(),
            final(self).search@.len() == old(self).search@.len(),
            forall|j: int|
                0 <= j < final(self).search@.len() ==> (#[trigger] final(self).search@[j])@.len()
                    == 0,
            final(self).search_queued,
            final(self).data == old(self).data,
            final(self).search_number == old(self).search_number,
            final(self).ranked == old(self).ranked,
            final(self).selected_item == old(self).selected_item,
            final(self).selected_search_box == old(self).selected_search_box,
            final(self).search_categories == old(self).search_categories,
    {
        let len = self.search.len();
        let mut i: usize = 0;
        while i < len
            invariant
                i <= len,
                len == self.search@.len(),
                forall|j: int| 0 <= j < i ==> (#[trigger] self.search@[j])@.len() == 0,
                self.search@.len() == old(self).search@.len(),
                self.data == old(self).data,
                self.search_number == old(self).search_number,
                self.ranked == old(self).ranked,
                self.selected_item == old(self).selected_item,
                self.selected_search_box == old(self).selected_search_box,
                self.search_categories == old(self).search_categories,
                self.search_queued == old(self).search_queued,
            decreases len - i,
        {
            self.search.set(i, String::new());
            i = i + 1;
        }
        self.search_queued = true;
    }

    /// One scheduling tick. If a rescan is queued: clear the queued flag,
    /// stamp the scan with the current generation, advance the generation
    /// counter, and hand back the stamp with a snapshot of the query texts
    /// for the scan to use; the caller launches the scan without blocking.
    /// Returns nothing when no rescan is queued.
    pub fn tick(&mut self) -> (r: Option<(usize, Vec<String>)>)
        requires
            old(self).wf(),
            old(self).search_number < usize::MAX,
        ensures
            final(self).wf(),
            !old(self).search_queued ==> r is None && *final(self) == *old(self),
            old(self).search_queued ==> *final(self) == (App {
                search_number: (old(self).search_number + 1) as usize,
                search_queued: false,
                ..*old(self)
            }),
            old(self).search_queued ==> (r matches Some(launch) && launch.0 == old(
                self,
            ).search_number && launch.1@.len() == old(self).search@.len() && forall|j: int|
                0 <= j < old(self).search@.len() ==> launch.1@[j] == old(self).search@[j]),
    {
        if self.search_queued {
            let snapshot = self.search.clone();
            proof {
                assert(forall|j: int|
                    0 <= j < self.search@.len() ==> snapshot@[j] == self.search@[j]);
            }
            let generation = self.search_number;
            self.search_number = self.search_number + 1;
            self.search_queued = false;
            Some((generation, snapshot))
        } else {
            None
        }
    }

    /// Apply one delivered scan result, per the generation-acceptance rule:
    /// a result at least as new as the newest accepted replaces the visible
    /// ranked list and reconciles the selection; an older one is discarded
    /// silently.
    pub fn accept_result(&mut self, generation: usize, list: Vec<(QueryData, u64)>)
        requires
            old(self).wf(),
        ensures
            final(self).wf(),
            *final(self) == accept_spec(*old(self), generation, list),
    {
        if generation >= self.ranked.0 {
            let len = list.len();
            match self.selected_item {
                Some(selected) => {
                    if selected >= len {
                        if len > 0 {
                            self.selected_item = Some(len - 1);
                        } else {
                            self.selected_item = None;
                        }
                    }
                },
                None => {
                    if len > 0 {
                        self.selected_item = Some(0);
                    }
                },
            }
            self.ranked = (generation, list);
        }
    }

    /// Resolve the current selection to the id of the selected record, or
    /// nothing while the selection is empty.
    pub fn commit(&self) -> (r: Option<usize>)
        requires
            self.wf(),
        ensures
            match self.selected_item {
                Some(i) => r == Some(self.ranked.1@[i as int].0.id),
                None => r is None,
            },
    {
        match self.selected_item {
            Some(s) => Some(self.ranked.1[s].0.id),
            None => None,
        }
    }

    /// The flattened record collection.
    pub fn records(&self) -> (r: &Vec<QueryData>)
        ensures
            *r == self.data,
    {
        &self.data
    }

    /// The current query texts, one per category.
    pub fn queries(&self) -> (r: &Vec<String>)
        ensures
            *r == self.search,
    {
        &self.search
    }

    /// The category configuration.
    pub fn categories(&self) -> (r: &Vec<Vec<&'a str>>)
        ensures
            *r == self.search_categories,
    {
        &self.search_categories
    }

    /// The visible ranked result: the newest accepted scan's output.
    pub fn results(&self) -> (r: &Vec<(QueryData, u64)>)
        ensures
            *r == self.ranked.1,
    {
        &self.ranked.1
    }

    /// The generation that the next launched scan will carry.
    pub fn next_generation(&self) -> (r: usize)
        ensures
            r == self.search_number,
    {
        self.search_number
    }

    /// The generation of the newest accepted scan result.
    pub fn accepted_generation(&self) -> (r: usize)
        ensures
            r == self.ranked.0,
    {
        self.ranked.0
    }

    /// The index of the selected entry of the ranked result, when any.
    pub fn selected(&self) -> (r: Option<usize>)
        ensures
            r == self.selected_item,
    {
        self.selected_item
    }

    /// The query box that edits currently target.
    pub fn selected_box(&self) -> (r: usize)
        ensures
            r == self.selected_search_box,
    {
        self.selected_search_box
    }

    /// Whether an edit has queued a rescan for the next tick.
    pub fn rescan_queued(&self) -> (r: bool)
        ensures
            r == self.search_queued,
    {
        self.search_queued
    }
}

} // verus!
