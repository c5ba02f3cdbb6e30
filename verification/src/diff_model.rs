//! Diff kinds and the per-section change counts of a model comparison.
use vstd::prelude::*;

use crate::merge::{bytes_lt, lemma_bytes_lt_strict_total, merge, merge_from, strictly_sorted, Pairing};

verus! {

/// The kind of change represented by a diff entry.
#[derive(Debug, Clone, Copy, PartialEq, Eq, Structural)]
pub enum DiffKind {
    Added,
    Removed,
    Modified,
    /// Structurally identical constraint matched across an added/removed pair.
    /// Only produced for constraint entries.
    Renamed,
}

impl DiffKind {
    /// The name of the kind, as written in reports and CSV exports.
    pub open spec fn spec_label(self) -> Seq<char> {
        match self {
            DiffKind::Added => "Added"@,
            DiffKind::Removed => "Removed"@,
            DiffKind::Modified => "Modified"@,
            DiffKind::Renamed => "Renamed"@,
        }
    }

    /// The name of the kind: `Added`, `Removed`, `Modified` or `Renamed`.
    pub fn label(self) -> (res: &'static str)
        ensures
            res@ == self.spec_label(),
    {
        match self {
            DiffKind::Added => "Added",
            DiffKind::Removed => "Removed",
            DiffKind::Modified => "Modified",
            DiffKind::Renamed => "Renamed",
        }
    }
}

/// Counts of entries in each diff state within a section.
#[derive(Debug, Clone, Copy, Default)]
pub struct DiffCounts {
    pub added: usize,
    pub removed: usize,
    pub modified: usize,
    pub unchanged: usize,
    /// Subset of `modified` where the only difference is coefficient order.
    pub order_only: usize,
    /// Structurally identical constraints matched across an added/removed pair.
    pub renamed: usize,
}

impl DiffCounts {
    /// Number of entries that differ in any way: a renamed pair counts once.
    pub open spec fn spec_changed(self) -> int {
        self.added + self.removed + self.modified + self.renamed
    }

    /// Number of entries in every state: the changed ones and the unchanged ones.
    pub open spec fn spec_total(self) -> int {
        self.spec_changed() + self.unchanged
    }

    /// Total number of entries (all states combined). A renamed pair counts once.
    pub fn total(&self) -> (res: usize)
        requires
            self.spec_total() <= usize::MAX,
        ensures
            res == self.spec_total(),
    {
        self.added + self.removed + self.modified + self.unchanged + self.renamed
    }

    /// Number of entries that differ in any way.
    pub fn changed(&self) -> (res: usize)
        requires
            self.spec_changed() <= usize::MAX,
        ensures
            res == self.spec_changed(),
    {
        self.added + self.removed + self.modified + self.renamed
    }

    /// The counts as they read when order-only changes are ignored: the
    /// order-only entries move from `modified` to `unchanged`.
    pub open spec fn spec_ignoring_order(self) -> DiffCounts {
        DiffCounts {
            modified: (self.modified - self.order_only) as usize,
            unchanged: (self.unchanged + self.order_only) as usize,
            ..self
        }
    }

    /// The counts with order-only changes treated as unchanged, as the viewer
    /// shows them while order-only entries are hidden.
    pub fn ignoring_order(&self) -> (res: DiffCounts)
        requires
            self.order_only <= self.modified,
            self.unchanged + self.order_only <= usize::MAX,
        ensures
            res == self.spec_ignoring_order(),
    {
        DiffCounts {
            modified: self.modified - self.order_only,
            unchanged: self.unchanged + self.order_only,
            ..*self
        }
    }
}

/// Ignoring order-only changes moves entries between two states without
/// changing how many entries a section holds.
pub proof fn lemma_ignoring_order_keeps_total(counts: DiffCounts)
    requires
        counts.order_only <= counts.modified,
        counts.unchanged + counts.order_only <= usize::MAX,
    ensures
        counts.spec_ignoring_order().spec_total() == counts.spec_total(),
        counts.spec_ignoring_order().spec_changed() == counts.spec_changed() - counts.order_only,
{
}

/// Every entry of a section is either changed or unchanged, never both.
pub proof fn lemma_total_is_changed_plus_unchanged(counts: DiffCounts)
    ensures
        counts.spec_total() == counts.spec_changed() + counts.unchanged,
        counts.spec_changed() <= counts.spec_total(),
{
}

/// Diff results for one section (variables, constraints, or objectives).
///
/// Only changed entries are stored, sorted by name; unchanged entries are
/// counted but not stored.
pub struct SectionDiff<T> {
    /// Added, removed, modified or renamed entries sorted by name.
    pub entries: Vec<T>,
    /// Counts for all entry states in this section.
    pub counts: DiffCounts,
}

/// High-level summary of changes across all three sections.
#[derive(Debug, Clone, Copy, Default)]
pub struct DiffSummary {
    pub variables: DiffCounts,
    pub constraints: DiffCounts,
    pub objectives: DiffCounts,
}

impl DiffSummary {
    /// Total number of changed entries across all sections.
    pub open spec fn spec_total_changes(self) -> int {
        self.variables.spec_changed() + self.constraints.spec_changed() + self.objectives.spec_changed()
    }

    /// The per-field sum of the three sections' counts.
    pub open spec fn spec_aggregate(self) -> DiffCounts {
        DiffCounts {
            added: (self.variables.added + self.constraints.added + self.objectives.added) as usize,
            removed: (self.variables.removed + self.constraints.removed + self.objectives.removed) as usize,
            modified: (self.variables.modified + self.constraints.modified + self.objectives.modified) as usize,
            unchanged: (self.variables.unchanged + self.constraints.unchanged + self.objectives.unchanged) as usize,
            order_only: (self.variables.order_only + self.constraints.order_only + self.objectives.order_only) as usize,
            renamed: (self.variables.renamed + self.constraints.renamed + self.objectives.renamed) as usize,
        }
    }

    /// The summary with each section's order-only changes counted as
    /// unchanged.
    pub open spec fn sections_ignoring_order(self) -> DiffSummary {
        DiffSummary {
            variables: self.variables.spec_ignoring_order(),
            constraints: self.constraints.spec_ignoring_order(),
            objectives: self.objectives.spec_ignoring_order(),
        }
    }

    /// Whether every per-field sum over the three sections fits a `usize`.
    pub open spec fn fits(self) -> bool {
        &&& self.variables.added + self.constraints.added + self.objectives.added <= usize::MAX
        &&& self.variables.removed + self.constraints.removed + self.objectives.removed <= usize::MAX
        &&& self.variables.modified + self.constraints.modified + self.objectives.modified <= usize::MAX
        &&& self.variables.unchanged + self.constraints.unchanged + self.objectives.unchanged <= usize::MAX
        &&& self.variables.order_only + self.constraints.order_only + self.objectives.order_only <= usize::MAX
        &&& self.variables.renamed + self.constraints.renamed + self.objectives.renamed <= usize::MAX
    }

    /// Total number of changed entries across all sections.
    pub fn total_changes(&self) -> (res: usize)
        requires
            self.spec_total_changes() <= usize::MAX,
        ensures
            res == self.spec_total_changes(),
    {
        self.variables.changed() + self.constraints.changed() + self.objectives.changed()
    }

    /// Aggregate counts across all three sections into a single `DiffCounts`.
    pub fn aggregate_counts(&self) -> (res: DiffCounts)
        requires
            self.fits(),
        ensures
            res == self.spec_aggregate(),
    {
        DiffCounts {
            added: self.variables.added + self.constraints.added + self.objectives.added,
            removed: self.variables.removed + self.constraints.removed + self.objectives.removed,
            modified: self.variables.modified + self.constraints.modified + self.objectives.modified,
            unchanged: self.variables.unchanged + self.constraints.unchanged + self.objectives.unchanged,
            order_only: self.variables.order_only + self.constraints.order_only + self.objectives.order_only,
            renamed: self.variables.renamed + self.constraints.renamed + self.objectives.renamed,
        }
    }
}

/// The aggregate is the per-field sum of the three sections, order-only
/// changes included, so it treats order-only changes as the sections do:
/// ignoring them section by section and then adding up gives the same counts
/// as adding up and then ignoring them.
pub proof fn lemma_aggregate_sums_each_field(summary: DiffSummary)
    requires
        summary.fits(),
    ensures
        summary.spec_aggregate().added == summary.variables.added + summary.constraints.added + summary.objectives.added,
        summary.spec_aggregate().removed == summary.variables.removed + summary.constraints.removed
            + summary.objectives.removed,
        summary.spec_aggregate().modified == summary.variables.modified + summary.constraints.modified
            + summary.objectives.modified,
        summary.spec_aggregate().unchanged == summary.variables.unchanged + summary.constraints.unchanged
            + summary.objectives.unchanged,
        summary.spec_aggregate().order_only == summary.variables.order_only + summary.constraints.order_only
            + summary.objectives.order_only,
        summary.spec_aggregate().renamed == summary.variables.renamed + summary.constraints.renamed
            + summary.objectives.renamed,
        (summary.variables.order_only <= summary.variables.modified && summary.constraints.order_only
            <= summary.constraints.modified && summary.objectives.order_only <= summary.objectives.modified
            && summary.variables.unchanged + summary.constraints.unchanged + summary.objectives.unchanged
            + summary.variables.order_only + summary.constraints.order_only + summary.objectives.order_only
            <= usize::MAX) ==> summary.sections_ignoring_order().spec_aggregate()
            == summary.spec_aggregate().spec_ignoring_order(),
{
}

/// The aggregate of the three sections changes exactly as many entries as the
/// sections do between them.
pub proof fn lemma_aggregate_changes_match_total(summary: DiffSummary)
    requires
        summary.fits(),
    ensures
        summary.spec_aggregate().spec_changed() == summary.spec_total_changes(),
        summary.spec_aggregate().spec_total() == summary.variables.spec_total()
            + summary.constraints.spec_total() + summary.objectives.spec_total(),
{
}

/// How an entry present on both sides compares, as the caller's own
/// comparison of its contents found it.
#[derive(Debug, Clone, Copy, PartialEq, Eq, Structural)]
pub enum PairResult {
    Unchanged,
    /// Changed; `order_only` when the only difference is the order of terms.
    Modified { order_only: bool },
}

/// A changed entry of a section: the merge step it comes from, its kind, and
/// whether the only change is term order.
#[derive(Debug, Clone, Copy, PartialEq, Eq, Structural)]
pub struct Classified {
    pub step: usize,
    pub kind: DiffKind,
    pub order_only: bool,
}

/// The number of steps that pair an old entry with a new one.
pub open spec fn both_count(steps: Seq<Pairing>) -> nat
    decreases steps.len(),
{
    if steps.len() == 0 {
        0
    } else {
        both_count(steps.drop_last()) + if steps.last() is Both {
            1nat
        } else {
            0nat
        }
    }
}

/// The changed entries of a section, in step order: an old-only step is
/// removed, a new-only step added, and a paired step modified unless its
/// result (the results are taken in order, one per paired step) says
/// unchanged, in which case it leaves no entry.
pub open spec fn section_entries(steps: Seq<Pairing>, results: Seq<PairResult>) -> Seq<Classified>
    decreases steps.len(),
{
    if steps.len() == 0 {
        Seq::empty()
    } else {
        let before = section_entries(steps.drop_last(), results);
        let at = (steps.len() - 1) as usize;
        match steps.last() {
            Pairing::OnlyOld(_) => before.push(Classified { step: at, kind: DiffKind::Removed, order_only: false }),
            Pairing::OnlyNew(_) => before.push(Classified { step: at, kind: DiffKind::Added, order_only: false }),
            Pairing::Both(_, _) => match results[both_count(steps.drop_last()) as int] {
                PairResult::Unchanged => before,
                PairResult::Modified { order_only } => before.push(
                    Classified { step: at, kind: DiffKind::Modified, order_only },
                ),
            },
        }
    }
}

/// The kinds of a section's changed entries, in step order.
pub open spec fn section_kinds(steps: Seq<Pairing>, results: Seq<PairResult>) -> Seq<DiffKind> {
    section_entries(steps, results).map_values(|entry: Classified| entry.kind)
}

/// Added, removed, modified, unchanged and order-only counts of a section.
pub open spec fn tally(steps: Seq<Pairing>, results: Seq<PairResult>) -> (nat, nat, nat, nat, nat)
    decreases steps.len(),
{
    if steps.len() == 0 {
        (0, 0, 0, 0, 0)
    } else {
        let t = tally(steps.drop_last(), results);
        match steps.last() {
            Pairing::OnlyOld(_) => (t.0, t.1 + 1, t.2, t.3, t.4),
            Pairing::OnlyNew(_) => (t.0 + 1, t.1, t.2, t.3, t.4),
            Pairing::Both(_, _) => match results[both_count(steps.drop_last()) as int] {
                PairResult::Unchanged => (t.0, t.1, t.2, t.3 + 1, t.4),
                PairResult::Modified { order_only } => (t.0, t.1, t.2 + 1, t.3, t.4 + if order_only {
                    1nat
                } else {
                    0nat
                }),
            },
        }
    }
}

/// The counts of a section: one per step in the state the step ends in, and
/// no renames yet.
pub open spec fn section_counts(steps: Seq<Pairing>, results: Seq<PairResult>) -> DiffCounts {
    let t = tally(steps, results);
    DiffCounts {
        added: t.0 as usize,
        removed: t.1 as usize,
        modified: t.2 as usize,
        unchanged: t.3 as usize,
        order_only: t.4 as usize,
        renamed: 0,
    }
}

proof fn lemma_tally_bounds(steps: Seq<Pairing>, results: Seq<PairResult>)
    ensures
        ({
            let t = tally(steps, results);
            t.0 + t.1 + t.2 + t.3 == steps.len() && t.4 <= t.2
        }),
        both_count(steps) <= steps.len(),
    decreases steps.len(),
{
    if steps.len() > 0 {
        lemma_tally_bounds(steps.drop_last(), results);
    }
}

proof fn lemma_both_count_prefix(steps: Seq<Pairing>, i: int)
    requires
        0 <= i <= steps.len(),
    ensures
        both_count(steps.take(i)) <= both_count(steps),
    decreases steps.len() - i,
{
    if i < steps.len() {
        lemma_both_count_prefix(steps, i + 1);
        assert(steps.take(i + 1).drop_last() =~= steps.take(i));
    } else {
        assert(steps.take(i) =~= steps);
    }
}

/// Only changed entries are stored, unchanged ones only counted: a section
/// stores one entry per added, removed or modified step, and every step is
/// counted in exactly one state.
pub proof fn lemma_section_stores_the_changed(steps: Seq<Pairing>, results: Seq<PairResult>)
    ensures
        ({
            let t = tally(steps, results);
            &&& section_entries(steps, results).len() == t.0 + t.1 + t.2
            &&& t.0 + t.1 + t.2 + t.3 == steps.len()
            &&& t.4 <= t.2
        }),
    decreases steps.len(),
{
    lemma_tally_bounds(steps, results);
    if steps.len() > 0 {
        lemma_section_stores_the_changed(steps.drop_last(), results);
    }
}

/// The number of steps that report an old entry alone.
pub open spec fn old_only_count(steps: Seq<Pairing>) -> nat
    decreases steps.len(),
{
    if steps.len() == 0 {
        0
    } else {
        old_only_count(steps.drop_last()) + if steps.last() is OnlyOld {
            1nat
        } else {
            0nat
        }
    }
}

/// The number of steps that report a new entry alone.
pub open spec fn new_only_count(steps: Seq<Pairing>) -> nat
    decreases steps.len(),
{
    if steps.len() == 0 {
        0
    } else {
        new_only_count(steps.drop_last()) + if steps.last() is OnlyNew {
            1nat
        } else {
            0nat
        }
    }
}

/// How many names of `a` from position `i` on occur nowhere in `b`.
pub open spec fn missing_from(a: Seq<Seq<u8>>, b: Seq<Seq<u8>>, i: int) -> nat
    decreases a.len() - i,
{
    if i < 0 || i >= a.len() {
        0
    } else {
        missing_from(a, b, i + 1) + if b.contains(a[i]) {
            0nat
        } else {
            1nat
        }
    }
}

/// How many names of `a` from position `i` on also occur in `b`.
pub open spec fn shared_from(a: Seq<Seq<u8>>, b: Seq<Seq<u8>>, i: int) -> nat
    decreases a.len() - i,
{
    if i < 0 || i >= a.len() {
        0
    } else {
        shared_from(a, b, i + 1) + if b.contains(a[i]) {
            1nat
        } else {
            0nat
        }
    }
}

proof fn lemma_counts_prepend(x: Pairing, rest: Seq<Pairing>)
    ensures
        old_only_count(seq![x] + rest) == old_only_count(rest) + if x is OnlyOld {
            1nat
        } else {
            0nat
        },
        new_only_count(seq![x] + rest) == new_only_count(rest) + if x is OnlyNew {
            1nat
        } else {
            0nat
        },
        both_count(seq![x] + rest) == both_count(rest) + if x is Both {
            1nat
        } else {
            0nat
        },
    decreases rest.len(),
{
    if rest.len() > 0 {
        lemma_counts_prepend(x, rest.drop_last());
        assert((seq![x] + rest).drop_last() =~= seq![x] + rest.drop_last());
        assert((seq![x] + rest).last() == rest.last());
        assert(both_count(seq![x] + rest) == both_count(seq![x] + rest.drop_last()) + if rest.last() is Both {
            1nat
        } else {
            0nat
        });
    } else {
        assert(seq![x] + rest =~= seq![x]);
        assert(seq![x].drop_last() =~= Seq::<Pairing>::empty());
        assert(seq![x].last() == x);
        assert(old_only_count(Seq::<Pairing>::empty()) == 0);
        assert(new_only_count(Seq::<Pairing>::empty()) == 0);
        assert(both_count(Seq::<Pairing>::empty()) == 0);
    }
}

proof fn lemma_tally_by_side(steps: Seq<Pairing>, results: Seq<PairResult>)
    ensures
        tally(steps, results).0 == new_only_count(steps),
        tally(steps, results).1 == old_only_count(steps),
        tally(steps, results).2 + tally(steps, results).3 == both_count(steps),
    decreases steps.len(),
{
    if steps.len() > 0 {
        lemma_tally_by_side(steps.drop_last(), results);
    }
}

proof fn lemma_merge_from_counts(a: Seq<Seq<u8>>, b: Seq<Seq<u8>>, i: int, j: int)
    requires
        a.len() <= usize::MAX,
        b.len() <= usize::MAX,
        strictly_sorted(a),
        strictly_sorted(b),
        0 <= i <= a.len(),
        0 <= j <= b.len(),
        forall|p: int, q: int| 0 <= p < i && j <= q < b.len() ==> bytes_lt(#[trigger] a[p], #[trigger] b[q]),
        forall|p: int, q: int| 0 <= q < j && i <= p < a.len() ==> bytes_lt(#[trigger] b[q], #[trigger] a[p]),
    ensures
        old_only_count(merge_from(a, b, i, j)) == missing_from(a, b, i),
        new_only_count(merge_from(a, b, i, j)) == missing_from(b, a, j),
        both_count(merge_from(a, b, i, j)) == shared_from(a, b, i),
    decreases a.len() - i + b.len() - j,
{
    if i == a.len() && j == b.len() {
    } else if j >= b.len() || (i < a.len() && bytes_lt(a[i], b[j])) {
        assert forall|p: int, q: int| 0 <= p < i + 1 && j <= q < b.len() implies bytes_lt(#[trigger] a[p], #[trigger] b[q]) by {
            if p == i && q > j {
                lemma_bytes_lt_strict_total(a[i], b[j], b[q]);
            }
        }
        lemma_merge_from_counts(a, b, i + 1, j);
        lemma_counts_prepend(Pairing::OnlyOld(i as usize), merge_from(a, b, i + 1, j));
        assert forall|q: int| 0 <= q < b.len() implies b[q] != a[i] by {
            if q < j {
                lemma_bytes_lt_strict_total(b[q], a[i], a[i]);
            } else {
                lemma_bytes_lt_strict_total(a[i], b[q], a[i]);
            }
        }
        assert(!b.contains(a[i]));
    } else if i >= a.len() || bytes_lt(b[j], a[i]) {
        assert forall|p: int, q: int| 0 <= q < j + 1 && i <= p < a.len() implies bytes_lt(#[trigger] b[q], #[trigger] a[p]) by {
            if q == j && p > i {
                lemma_bytes_lt_strict_total(b[j], a[i], a[p]);
            }
        }
        lemma_merge_from_counts(a, b, i, j + 1);
        lemma_counts_prepend(Pairing::OnlyNew(j as usize), merge_from(a, b, i, j + 1));
        assert forall|p: int| 0 <= p < a.len() implies a[p] != b[j] by {
            if p < i {
                lemma_bytes_lt_strict_total(a[p], b[j], b[j]);
            } else {
                lemma_bytes_lt_strict_total(b[j], a[p], b[j]);
            }
        }
        assert(!a.contains(b[j]));
    } else {
        lemma_bytes_lt_strict_total(a[i], b[j], a[i]);
        assert(a[i] == b[j]);
        assert forall|p: int, q: int| 0 <= p < i + 1 && j + 1 <= q < b.len() implies bytes_lt(#[trigger] a[p], #[trigger] b[q]) by {
            if p == i {
                assert(bytes_lt(b[j], b[q]));
            }
        }
        assert forall|p: int, q: int| 0 <= q < j + 1 && i + 1 <= p < a.len() implies bytes_lt(#[trigger] b[q], #[trigger] a[p]) by {
            if q == j {
                assert(bytes_lt(a[i], a[p]));
            }
        }
        lemma_merge_from_counts(a, b, i + 1, j + 1);
        lemma_counts_prepend(Pairing::Both(i as usize, j as usize), merge_from(a, b, i + 1, j + 1));
        assert(b.contains(a[i]));
        assert(a.contains(b[j]));
    }
}

/// On two sections' names, each in ascending order without repeats, the
/// counts come out as the names say: removed are the old names missing from
/// the new side, added the new names missing from the old side, modified and
/// unchanged together the names both sides hold, and order-only changes are
/// among the modified.
pub proof fn lemma_section_counts_follow_the_names(old: Seq<Seq<u8>>, new: Seq<Seq<u8>>, results: Seq<PairResult>)
    requires
        old.len() <= usize::MAX,
        new.len() <= usize::MAX,
        strictly_sorted(old),
        strictly_sorted(new),
    ensures
        ({
            let t = tally(merge(old, new), results);
            &&& t.1 == missing_from(old, new, 0)
            &&& t.0 == missing_from(new, old, 0)
            &&& t.2 + t.3 == shared_from(old, new, 0)
            &&& t.4 <= t.2
            &&& section_entries(merge(old, new), results).len() == t.0 + t.1 + t.2
        }),
{
    lemma_merge_from_counts(old, new, 0, 0);
    lemma_tally_by_side(merge(old, new), results);
    lemma_section_stores_the_changed(merge(old, new), results);
}

/// Classify each step of a merge of two sections' names, given how each
/// paired entry compared: the changed entries in step order, and the counts.
pub fn classify_section(steps: &Vec<Pairing>, results: &Vec<PairResult>) -> (res: (Vec<Classified>, DiffCounts))
    requires
        results@.len() == both_count(steps@),
    ensures
        res.0@ == section_entries(steps@, results@),
        res.1 == section_counts(steps@, results@),
        section_kinds(steps@, results@) == res.0@.map_values(|entry: Classified| entry.kind),
{
    let mut entries: Vec<Classified> = Vec::new();
    let mut added: usize = 0;
    let mut removed: usize = 0;
    let mut modified: usize = 0;
    let mut unchanged: usize = 0;
    let mut order_only: usize = 0;
    let mut paired: usize = 0;
    let mut i: usize = 0;
    while i < steps.len()
        invariant
            i <= steps@.len(),
            results@.len() == both_count(steps@),
            paired == both_count(steps@.take(i as int)),
            entries@ == section_entries(steps@.take(i as int), results@),
            (added as nat, removed as nat, modified as nat, unchanged as nat, order_only as nat) == tally(
                steps@.take(i as int),
                results@,
            ),
        decreases steps@.len() - i,
    {
        proof {
            let next = steps@.take(i + 1);
            assert(next.drop_last() =~= steps@.take(i as int));
            assert(next.last() == steps@[i as int]);
            lemma_tally_bounds(steps@.take(i as int), results@);
            lemma_tally_bounds(next, results@);
            lemma_both_count_prefix(steps@, i + 1);
        }
        match steps[i] {
            Pairing::OnlyOld(_) => {
                entries.push(Classified { step: i, kind: DiffKind::Removed, order_only: false });
                removed = removed + 1;
            },
            Pairing::OnlyNew(_) => {
                entries.push(Classified { step: i, kind: DiffKind::Added, order_only: false });
                added = added + 1;
            },
            Pairing::Both(_, _) => {
                match results[paired] {
                    PairResult::Unchanged => {
                        unchanged = unchanged + 1;
                    },
                    PairResult::Modified { order_only: only_order } => {
                        entries.push(Classified { step: i, kind: DiffKind::Modified, order_only: only_order });
                        modified = modified + 1;
                        if only_order {
                            order_only = order_only + 1;
                        }
                    },
                }
                paired = paired + 1;
            },
        }
        i = i + 1;
    }
    assert(steps@.take(i as int) =~= steps@);
    let counts = DiffCounts { added, removed, modified, unchanged, order_only, renamed: 0 };
    (entries, counts)
}

} // verus!
