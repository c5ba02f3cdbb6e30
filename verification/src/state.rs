//! View state of the viewer: tabs, sections, filters, sort modes, the
//! jumplist and the command palette.
use vstd::prelude::*;

use crate::diff_model::DiffKind;

verus! {

/// Active tab in the solve results popup.
#[derive(Debug, Clone, Copy, PartialEq, Eq, Structural, Default)]
pub enum SolveTab {
    #[default]
    Summary,
    Variables,
    Constraints,
    Log,
    Duals,
}

impl SolveTab {
    /// Position of the tab in the tab bar, from 0.
    pub open spec fn spec_index(self) -> nat {
        match self {
            SolveTab::Summary => 0,
            SolveTab::Variables => 1,
            SolveTab::Constraints => 2,
            SolveTab::Log => 3,
            SolveTab::Duals => 4,
        }
    }

    /// The tab at a position of the tab bar.
    pub open spec fn spec_at(index: nat) -> SolveTab {
        if index == 0 {
            SolveTab::Summary
        } else if index == 1 {
            SolveTab::Variables
        } else if index == 2 {
            SolveTab::Constraints
        } else if index == 3 {
            SolveTab::Log
        } else {
            SolveTab::Duals
        }
    }

    pub open spec fn spec_label(self) -> Seq<char> {
        match self {
            SolveTab::Summary => "Summary"@,
            SolveTab::Variables => "Variables"@,
            SolveTab::Constraints => "Constraints"@,
            SolveTab::Log => "Log"@,
            SolveTab::Duals => "Duals"@,
        }
    }

    /// Every tab, in tab-bar order.
    pub fn all() -> (res: [SolveTab; 5])
        ensures
            forall|i: int| 0 <= i < 5 ==> (#[trigger] res@[i]) == SolveTab::spec_at(i as nat),
    {
        [SolveTab::Summary, SolveTab::Variables, SolveTab::Constraints, SolveTab::Log, SolveTab::Duals]
    }

    pub fn index(self) -> (res: usize)
        ensures
            res == self.spec_index(),
    {
        match self {
            SolveTab::Summary => 0,
            SolveTab::Variables => 1,
            SolveTab::Constraints => 2,
            SolveTab::Log => 3,
            SolveTab::Duals => 4,
        }
    }

    pub fn label(self) -> (res: &'static str)
        ensures
            res@ == self.spec_label(),
    {
        match self {
            SolveTab::Summary => "Summary",
            SolveTab::Variables => "Variables",
            SolveTab::Constraints => "Constraints",
            SolveTab::Log => "Log",
            SolveTab::Duals => "Duals",
        }
    }

    /// Cycle to the next tab, wrapping around.
    pub fn next(self) -> (res: SolveTab)
        ensures
            res == SolveTab::spec_at(((self.spec_index() + 1) % 5) as nat),
    {
        match self {
            SolveTab::Summary => SolveTab::Variables,
            SolveTab::Variables => SolveTab::Constraints,
            SolveTab::Constraints => SolveTab::Log,
            SolveTab::Log => SolveTab::Duals,
            SolveTab::Duals => SolveTab::Summary,
        }
    }

    /// Cycle to the previous tab, wrapping around.
    pub fn prev(self) -> (res: SolveTab)
        ensures
            res == SolveTab::spec_at(((self.spec_index() + 4) % 5) as nat),
    {
        match self {
            SolveTab::Summary => SolveTab::Duals,
            SolveTab::Variables => SolveTab::Summary,
            SolveTab::Constraints => SolveTab::Variables,
            SolveTab::Log => SolveTab::Constraints,
            SolveTab::Duals => SolveTab::Log,
        }
    }
}

/// Cycling to the next tab and back, or back and then on, returns to the
/// tab one started from; the position of a tab identifies it.
pub proof fn lemma_solve_tab_cycle(tab: SolveTab)
    ensures
        SolveTab::spec_at(((SolveTab::spec_at(((tab.spec_index() + 1) % 5) as nat).spec_index() + 4) % 5) as nat) == tab,
        SolveTab::spec_at(((SolveTab::spec_at(((tab.spec_index() + 4) % 5) as nat).spec_index() + 1) % 5) as nat) == tab,
        SolveTab::spec_at(tab.spec_index()) == tab,
        tab.spec_index() < 5,
{
}

/// Which top-level mode the viewer is running in: one file is inspected, two
/// files are compared.
#[derive(Debug, Clone, Copy, PartialEq, Eq, Structural)]
pub enum AppMode {
    /// Comparing two files.
    Diff,
    /// Exploring a single file: sections list every entry with no diff badges.
    Inspect,
}

impl AppMode {
    /// Whether diff badges and kinds are shown in the sidebar and detail panel.
    pub fn shows_diff_badges(self) -> (res: bool)
        ensures
            res <==> self == AppMode::Diff,
    {
        match self {
            AppMode::Diff => true,
            AppMode::Inspect => false,
        }
    }
}

/// The sections of the sidebar.
#[derive(Debug, Clone, Copy, PartialEq, Eq, Structural)]
pub enum Section {
    Summary,
    Variables,
    Constraints,
    Objectives,
    /// Per-file numerical conditioning view; static like Summary.
    Numerics,
}

impl Section {
    pub open spec fn spec_index(self) -> nat {
        match self {
            Section::Summary => 0,
            Section::Variables => 1,
            Section::Constraints => 2,
            Section::Objectives => 3,
            Section::Numerics => 4,
        }
    }

    pub open spec fn spec_at(index: nat) -> Section {
        if index == 0 {
            Section::Summary
        } else if index == 1 {
            Section::Variables
        } else if index == 2 {
            Section::Constraints
        } else if index == 3 {
            Section::Objectives
        } else {
            Section::Numerics
        }
    }

    pub open spec fn spec_label(self) -> Seq<char> {
        match self {
            Section::Summary => "Summary"@,
            Section::Variables => "Variables"@,
            Section::Constraints => "Constraints"@,
            Section::Objectives => "Objectives"@,
            Section::Numerics => "Numerics"@,
        }
    }

    /// Index into the per-list state: `None` for the static sections.
    pub open spec fn spec_list_index(self) -> Option<nat> {
        match self {
            Section::Summary | Section::Numerics => None,
            Section::Variables => Some(0),
            Section::Constraints => Some(1),
            Section::Objectives => Some(2),
        }
    }

    /// Every section, in selector order.
    pub fn all() -> (res: [Section; 5])
        ensures
            forall|i: int| 0 <= i < 5 ==> (#[trigger] res@[i]) == Section::spec_at(i as nat),
    {
        [Section::Summary, Section::Variables, Section::Constraints, Section::Objectives, Section::Numerics]
    }

    pub fn index(self) -> (res: usize)
        ensures
            res == self.spec_index(),
    {
        match self {
            Section::Summary => 0,
            Section::Variables => 1,
            Section::Constraints => 2,
            Section::Objectives => 3,
            Section::Numerics => 4,
        }
    }

    /// The section at a selector position.
    pub fn from_index(i: usize) -> (res: Section)
        requires
            i < 5,
        ensures
            res == Section::spec_at(i as nat),
            res.spec_index() == i,
    {
        match i {
            0 => Section::Summary,
            1 => Section::Variables,
            2 => Section::Constraints,
            3 => Section::Objectives,
            _ => Section::Numerics,
        }
    }

    pub fn label(self) -> (res: &'static str)
        ensures
            res@ == self.spec_label(),
    {
        match self {
            Section::Summary => "Summary",
            Section::Variables => "Variables",
            Section::Constraints => "Constraints",
            Section::Objectives => "Objectives",
            Section::Numerics => "Numerics",
        }
    }

    /// Index into the per-list state (0-based, static sections excluded).
    /// Returns `None` for Summary and Numerics, which have no entry list.
    pub fn list_index(self) -> (res: Option<usize>)
        ensures
            res matches Some(i) ==> self.spec_list_index() == Some(i as nat),
            res is None <==> self.spec_list_index() is None,
    {
        match self {
            Section::Summary | Section::Numerics => None,
            Section::Variables => Some(0),
            Section::Constraints => Some(1),
            Section::Objectives => Some(2),
        }
    }
}

/// A section's position identifies it, and only the three list sections have
/// a list index, each a different one below three.
pub proof fn lemma_section_index_round_trip(section: Section)
    ensures
        Section::spec_at(section.spec_index()) == section,
        section.spec_index() < 5,
        section.spec_list_index() matches Some(i) ==> i < 3,
        section.spec_list_index() is None <==> (section == Section::Summary || section == Section::Numerics),
{
}

/// Which panel currently has focus.
#[derive(Debug, Clone, Copy, PartialEq, Eq, Structural)]
pub enum Focus {
    /// The top-left section selector.
    SectionSelector,
    /// The name list below the section selector.
    NameList,
    /// The right-hand detail panel.
    Detail,
}

/// Which kinds of entries the name list shows.
#[derive(Debug, Clone, Copy, PartialEq, Eq, Structural)]
pub enum DiffFilter {
    All,
    Added,
    Removed,
    Modified,
    Renamed,
}

impl DiffFilter {
    /// Whether an entry of `kind` passes the filter.
    pub open spec fn spec_matches(self, kind: DiffKind) -> bool {
        match self {
            DiffFilter::All => true,
            DiffFilter::Added => kind == DiffKind::Added,
            DiffFilter::Removed => kind == DiffKind::Removed,
            DiffFilter::Modified => kind == DiffKind::Modified,
            DiffFilter::Renamed => kind == DiffKind::Renamed,
        }
    }

    pub open spec fn spec_label(self) -> Seq<char> {
        match self {
            DiffFilter::All => "All"@,
            DiffFilter::Added => "Added"@,
            DiffFilter::Removed => "Removed"@,
            DiffFilter::Modified => "Modified"@,
            DiffFilter::Renamed => "Renamed"@,
        }
    }

    pub fn matches(self, kind: DiffKind) -> (res: bool)
        ensures
            res == self.spec_matches(kind),
    {
        match self {
            DiffFilter::All => true,
            DiffFilter::Added => kind == DiffKind::Added,
            DiffFilter::Removed => kind == DiffKind::Removed,
            DiffFilter::Modified => kind == DiffKind::Modified,
            DiffFilter::Renamed => kind == DiffKind::Renamed,
        }
    }

    pub fn label(self) -> (res: &'static str)
        ensures
            res@ == self.spec_label(),
    {
        match self {
            DiffFilter::All => "All",
            DiffFilter::Added => "Added",
            DiffFilter::Removed => "Removed",
            DiffFilter::Modified => "Modified",
            DiffFilter::Renamed => "Renamed",
        }
    }
}

/// Each kind filter lets through its own kind and nothing else, and `All`
/// lets through everything.
pub proof fn lemma_filter_selects_one_kind(kind: DiffKind, other: DiffKind)
    ensures
        DiffFilter::All.spec_matches(kind),
        DiffFilter::Added.spec_matches(kind) <==> kind == DiffKind::Added,
        kind != other ==> !(DiffFilter::Added.spec_matches(kind) && DiffFilter::Added.spec_matches(other)),
        kind != other ==> !(DiffFilter::Removed.spec_matches(kind) && DiffFilter::Removed.spec_matches(other)),
        kind != other ==> !(DiffFilter::Modified.spec_matches(kind) && DiffFilter::Modified.spec_matches(other)),
        kind != other ==> !(DiffFilter::Renamed.spec_matches(kind) && DiffFilter::Renamed.spec_matches(other)),
{
}

/// Sort order for the sidebar name lists, cycled with `s` in normal mode.
#[derive(Debug, Clone, Copy, PartialEq, Eq, Structural, Default)]
pub enum SortMode {
    /// Alphabetical by entry name (the report's natural order).
    #[default]
    Name,
    /// Descending absolute delta; no-delta entries follow alphabetically.
    AbsDelta,
    /// Descending relative delta.
    RelDelta,
}

impl SortMode {
    pub open spec fn spec_next(self) -> SortMode {
        match self {
            SortMode::Name => SortMode::AbsDelta,
            SortMode::AbsDelta => SortMode::RelDelta,
            SortMode::RelDelta => SortMode::Name,
        }
    }

    /// Cycle to the next sort mode: Name, then absolute delta, then relative delta.
    pub fn next(self) -> (res: SortMode)
        ensures
            res == self.spec_next(),
    {
        match self {
            SortMode::Name => SortMode::AbsDelta,
            SortMode::AbsDelta => SortMode::RelDelta,
            SortMode::RelDelta => SortMode::Name,
        }
    }

    /// Short status-bar label. `None` for the default name sort (nothing to show).
    pub fn label(self) -> (res: Option<&'static str>)
        ensures
            self == SortMode::Name ==> res is None,
            self == SortMode::AbsDelta ==> (res matches Some(s) && s@ == "sort:|\u{394}|"@),
            self == SortMode::RelDelta ==> (res matches Some(s) && s@ == "sort:rel\u{394}"@),
    {
        match self {
            SortMode::Name => None,
            SortMode::AbsDelta => Some("sort:|\u{394}|"),
            SortMode::RelDelta => Some("sort:rel\u{394}"),
        }
    }

    pub open spec fn spec_flash_text(self) -> Seq<char> {
        match self {
            SortMode::Name => "Sort: name"@,
            SortMode::AbsDelta => "Sort: |\u{394}| (largest first)"@,
            SortMode::RelDelta => "Sort: rel\u{394} (largest first)"@,
        }
    }

    /// The flash that names the sort mode just chosen.
    pub fn flash_text(self) -> (res: &'static str)
        ensures
            res@ == self.spec_flash_text(),
    {
        match self {
            SortMode::Name => "Sort: name",
            SortMode::AbsDelta => "Sort: |\u{394}| (largest first)",
            SortMode::RelDelta => "Sort: rel\u{394} (largest first)",
        }
    }
}

/// Three presses of the sort key return to the mode one started from, and
/// no fewer do.
pub proof fn lemma_sort_mode_cycle(mode: SortMode)
    ensures
        mode.spec_next().spec_next().spec_next() == mode,
        mode.spec_next() != mode,
        mode.spec_next().spec_next() != mode,
{
}

/// A recorded navigation position in the jumplist. The entry is kept by
/// name, so that the position survives the list's rows moving (a filter, a
/// sort, an order toggle) and the report being rebuilt.
#[derive(Debug, Clone)]
pub struct JumpEntry {
    pub section: Section,
    pub entry_name: Option<String>,
    pub detail_scroll: usize,
    pub filter: DiffFilter,
}

/// Maximum number of entries in the jumplist before the oldest are dropped.
pub const JUMPLIST_CAPACITY: usize = 100;

/// A vi-style jumplist for recording and revisiting navigation positions.
///
/// Entries are appended when the user changes section, confirms a search
/// selection, or changes filter. `Ctrl+o` goes back, `Ctrl+i` goes forward.
/// The cursor is the recorded position being visited, or the end of the
/// history while the user is at a position not yet recorded (the live one).
#[derive(Debug)]
pub struct JumpList {
    entries: Vec<JumpEntry>,
    /// The current position: going back decreases it, going forward increases it.
    cursor: usize,
}

/// The history a push leaves: forward history discarded, the new entry
/// appended, and the oldest entries dropped beyond the capacity.
pub open spec fn pushed_history(history: Seq<JumpEntry>, cursor: nat, entry: JumpEntry) -> Seq<JumpEntry> {
    let kept = history.take(cursor as int).push(entry);
    if kept.len() > JUMPLIST_CAPACITY {
        kept.skip(kept.len() - JUMPLIST_CAPACITY)
    } else {
        kept
    }
}

/// The history once going back from the live position has recorded it: the
/// live position appended, the oldest dropped beyond the capacity.
pub open spec fn recorded_history(history: Seq<JumpEntry>, current: JumpEntry) -> Seq<JumpEntry> {
    let kept = history.push(current);
    if kept.len() > JUMPLIST_CAPACITY {
        kept.skip(kept.len() - JUMPLIST_CAPACITY)
    } else {
        kept
    }
}

/// One step back through the history from `position`: nothing at the oldest
/// position; the previous recorded position inside the history; and from the
/// live position (the end of the history), `current` recorded first and the
/// newest recorded position returned.
pub open spec fn back_step(history: Seq<JumpEntry>, position: nat, current: JumpEntry) -> (
    Seq<JumpEntry>,
    nat,
    Option<JumpEntry>,
) {
    if position == 0 {
        (history, 0, None)
    } else if position < history.len() {
        (history, (position - 1) as nat, Some(history[position - 1]))
    } else {
        let recorded = recorded_history(history, current);
        (recorded, (recorded.len() - 2) as nat, Some(history.last()))
    }
}

impl JumpList {
    /// The recorded positions, oldest first.
    pub closed spec fn history(&self) -> Seq<JumpEntry> {
        self.entries@
    }

    /// The cursor: how many recorded positions lie behind the current one.
    pub closed spec fn position(&self) -> nat {
        self.cursor as nat
    }

    /// The cursor never passes the end of the history, and the history never
    /// exceeds its capacity.
    pub closed spec fn wf(&self) -> bool {
        &&& self.cursor <= self.entries.len()
        &&& self.entries.len() <= JUMPLIST_CAPACITY
    }

    pub fn new() -> (res: JumpList)
        ensures
            res.wf(),
            res.history() == Seq::<JumpEntry>::empty(),
            res.position() == 0,
    {
        JumpList { entries: Vec::new(), cursor: 0 }
    }

    /// Push a new jump entry, discarding any forward history.
    pub fn push(&mut self, entry: JumpEntry)
        requires
            old(self).wf(),
        ensures
            final(self).wf(),
            final(self).history() == pushed_history(old(self).history(), old(self).position(), entry),
            final(self).position() == final(self).history().len(),
    {
        let ghost kept = self.entries@.take(self.cursor as int).push(entry);
        self.entries.truncate(self.cursor);
        self.entries.push(entry);
        assert(self.entries@ == kept);
        if self.entries.len() > JUMPLIST_CAPACITY {
            let excess = self.entries.len() - JUMPLIST_CAPACITY;
            let mut removed: usize = 0;
            while removed < excess
                invariant
                    excess == kept.len() - JUMPLIST_CAPACITY,
                    kept.len() > JUMPLIST_CAPACITY,
                    removed <= excess,
                    self.entries@ == kept.skip(removed as int),
                decreases excess - removed,
            {
                self.entries.remove(0);
                removed = removed + 1;
                assert(self.entries@ =~= kept.skip(removed as int));
            }
        }
        self.cursor = self.entries.len();
    }

    /// Move the cursor back and return the entry to restore, if any. Going
    /// back from the live position first records `current`, so that going
    /// forward again returns to it.
    pub fn go_back(&mut self, current: JumpEntry) -> (res: Option<&JumpEntry>)
        requires
            old(self).wf(),
        ensures
            final(self).wf(),
            old(self).position() == 0 ==> final(self).history() == old(self).history() && final(self).position() == 0
                && res is None,
            0 < old(self).position() < old(self).history().len() ==> {
                &&& final(self).history() == old(self).history()
                &&& final(self).position() == old(self).position() - 1
                &&& res matches Some(e) && *e == old(self).history()[old(self).position() - 1]
            },
            0 < old(self).position() == old(self).history().len() ==> {
                &&& final(self).history() == recorded_history(old(self).history(), current)
                &&& final(self).position() == final(self).history().len() - 2
                &&& res matches Some(e) && *e == old(self).history().last()
            },
            back_step(old(self).history(), old(self).position(), current) == (
                final(self).history(),
                final(self).position(),
                match res {
                    Some(e) => Some(*e),
                    None => None,
                },
            ),
    {
        if self.cursor == 0 {
            return None;
        }
        if self.cursor == self.entries.len() {
            let ghost kept = self.entries@.push(current);
            self.entries.push(current);
            if self.entries.len() > JUMPLIST_CAPACITY {
                self.entries.remove(0);
                assert(self.entries@ =~= kept.skip(kept.len() - JUMPLIST_CAPACITY));
            }
            self.cursor = self.entries.len() - 1;
        }
        self.cursor = self.cursor - 1;
        Some(&self.entries[self.cursor])
    }

    /// Move the cursor forward to the next newer recorded position and
    /// return it, if there is one.
    pub fn go_forward(&mut self) -> (res: Option<&JumpEntry>)
        requires
            old(self).wf(),
        ensures
            final(self).wf(),
            final(self).history() == old(self).history(),
            old(self).position() + 1 < old(self).history().len() ==> {
                &&& final(self).position() == old(self).position() + 1
                &&& res matches Some(e) && *e == old(self).history()[old(self).position() + 1int]
            },
            old(self).position() + 1 >= old(self).history().len() ==> final(self).position() == old(self).position()
                && res is None,
    {
        if self.cursor + 1 < self.entries.len() {
            self.cursor = self.cursor + 1;
            Some(&self.entries[self.cursor])
        } else {
            None
        }
    }
}

/// Going back from the live position and then forward returns to the
/// position left behind, not to the one just jumped to: going back records
/// it as the newest entry, right after the one it returns to.
pub proof fn lemma_back_then_forward(history: Seq<JumpEntry>, current: JumpEntry)
    requires
        0 < history.len() <= JUMPLIST_CAPACITY,
    ensures
        recorded_history(history, current).len() >= 2,
        recorded_history(history, current).last() == current,
        recorded_history(history, current)[recorded_history(history, current).len() - 2] == history.last(),
        recorded_history(history, current).len() <= JUMPLIST_CAPACITY,
{
}

/// A push makes the new entry the one going back returns to, discards
/// everything that lay ahead of the cursor, and never grows the history past
/// its capacity.
pub proof fn lemma_push_then_back(history: Seq<JumpEntry>, cursor: nat, entry: JumpEntry)
    requires
        cursor <= history.len(),
        history.len() <= JUMPLIST_CAPACITY,
    ensures
        pushed_history(history, cursor, entry).len() <= JUMPLIST_CAPACITY,
        pushed_history(history, cursor, entry).len() >= 1,
        pushed_history(history, cursor, entry).last() == entry,
        cursor < JUMPLIST_CAPACITY ==> pushed_history(history, cursor, entry) == history.take(cursor as int).push(entry),
{
}

/// The positions going back returns, `steps` calls in a row from `position`,
/// each recording `current` if it leaves the live position.
pub open spec fn backs(history: Seq<JumpEntry>, position: nat, current: JumpEntry, steps: nat) -> Seq<Option<JumpEntry>>
    decreases steps,
{
    if steps == 0 {
        Seq::empty()
    } else {
        let (after, at, found) = back_step(history, position, current);
        seq![found] + backs(after, at, current, (steps - 1) as nat)
    }
}

/// The history that pushing `entries` in order onto an empty jumplist leaves;
/// after each push the position is the end of the history.
pub open spec fn replayed(entries: Seq<JumpEntry>) -> Seq<JumpEntry>
    decreases entries.len(),
{
    if entries.len() == 0 {
        Seq::empty()
    } else {
        let before = replayed(entries.drop_last());
        pushed_history(before, before.len(), entries.last())
    }
}

/// Pushing entries one after another keeps the newest of them, at most the
/// capacity, oldest first: after 101 pushes the first is gone.
pub proof fn lemma_pushes_keep_the_newest(entries: Seq<JumpEntry>)
    ensures
        replayed(entries) == entries.skip(
            if entries.len() > JUMPLIST_CAPACITY {
                entries.len() - JUMPLIST_CAPACITY
            } else {
                0
            },
        ),
    decreases entries.len(),
{
    if entries.len() > 0 {
        let prev = entries.drop_last();
        lemma_pushes_keep_the_newest(prev);
        let before = replayed(prev);
        assert(before.take(before.len() as int) =~= before);
        if entries.len() > JUMPLIST_CAPACITY {
            assert(replayed(entries) =~= entries.skip(entries.len() - JUMPLIST_CAPACITY));
        } else {
            assert(replayed(entries) =~= entries.skip(0));
        }
    }
}

proof fn lemma_backs_inside(history: Seq<JumpEntry>, position: nat, current: JumpEntry, steps: nat)
    requires
        position < history.len(),
    ensures
        backs(history, position, current, steps).len() == steps,
        forall|i: int|
            0 <= i < steps ==> #[trigger] backs(history, position, current, steps)[i] == if i < position {
                Some(history[position - 1 - i])
            } else {
                None::<JumpEntry>
            },
    decreases steps,
{
    if steps > 0 {
        if position == 0 {
            lemma_backs_inside(history, 0, current, (steps - 1) as nat);
        } else {
            lemma_backs_inside(history, (position - 1) as nat, current, (steps - 1) as nat);
        }
        let rest = backs(history, (if position == 0 { 0 } else { position - 1 }) as nat, current, (steps - 1) as nat);
        assert forall|i: int| 0 < i < steps implies #[trigger] backs(history, position, current, steps)[i] == rest[i
            - 1] by {}
    }
}

/// Going back from the live position walks the recorded history newest first,
/// one entry a call, and then stops: from a history of `n` entries the first
/// `min(n, capacity - 1)` calls return the newest entries in turn and every
/// further call returns nothing. A full history loses its oldest entry to the
/// live position the first call records, so that entry is never returned.
pub proof fn lemma_going_back_walks_the_history(history: Seq<JumpEntry>, current: JumpEntry, steps: nat)
    requires
        0 < history.len() <= JUMPLIST_CAPACITY,
    ensures
        backs(history, history.len(), current, steps).len() == steps,
        forall|i: int|
            0 <= i < steps ==> #[trigger] backs(history, history.len(), current, steps)[i] == if i < history.len()
                && i < JUMPLIST_CAPACITY - 1 {
                Some(history[history.len() - 1 - i])
            } else {
                None::<JumpEntry>
            },
{
    if steps > 0 {
        let recorded = recorded_history(history, current);
        let at = (recorded.len() - 2) as nat;
        lemma_backs_inside(recorded, at, current, (steps - 1) as nat);
        let rest = backs(recorded, at, current, (steps - 1) as nat);
        assert forall|i: int| 0 <= i < steps implies #[trigger] backs(history, history.len(), current, steps)[i]
            == if i < history.len() && i < JUMPLIST_CAPACITY - 1 {
            Some(history[history.len() - 1 - i])
        } else {
            None::<JumpEntry>
        } by {
            if i > 0 {
                assert(backs(history, history.len(), current, steps)[i] == rest[i - 1]);
                if i - 1 < at {
                    if history.len() < JUMPLIST_CAPACITY {
                        assert(recorded[at - 1 - (i - 1)] == history[history.len() - 1 - i]);
                    } else {
                        assert(recorded[at - 1 - (i - 1)] == history[history.len() - 1 - i]);
                    }
                }
            }
        }
    }
}

/// Pushing `entries` onto an empty jumplist and then going back walks them
/// newest first: the i-th call returns the entry pushed i places before the
/// last, for the newest `min(n, capacity - 1)` of them, and every further
/// call returns nothing, so an entry pushed earlier than that (the first of
/// 101 pushes, say) is never returned.
pub proof fn lemma_pushes_then_going_back(entries: Seq<JumpEntry>, current: JumpEntry, steps: nat)
    requires
        entries.len() > 0,
    ensures
        backs(replayed(entries), replayed(entries).len(), current, steps).len() == steps,
        forall|i: int|
            0 <= i < steps ==> #[trigger] backs(replayed(entries), replayed(entries).len(), current, steps)[i] == if i
                < entries.len() && i < JUMPLIST_CAPACITY - 1 {
                Some(entries[entries.len() - 1 - i])
            } else {
                None::<JumpEntry>
            },
{
    lemma_pushes_keep_the_newest(entries);
    let history = replayed(entries);
    lemma_going_back_walks_the_history(history, current, steps);
    assert forall|i: int| 0 <= i < steps implies #[trigger] backs(history, history.len(), current, steps)[i] == if i
        < entries.len() && i < JUMPLIST_CAPACITY - 1 {
        Some(entries[entries.len() - 1 - i])
    } else {
        None::<JumpEntry>
    } by {
        if i < history.len() && i < JUMPLIST_CAPACITY - 1 {
            assert(history[history.len() - 1 - i] == entries[entries.len() - 1 - i]);
        }
    }
}

/// Which view to show in the detail panel for constraints and objectives.
#[derive(Debug, Clone, Copy, PartialEq, Eq, Structural, Default)]
pub enum DetailView {
    /// Parsed (structured) diff view, the default.
    #[default]
    Parsed,
    /// Raw file text side-by-side view.
    Raw,
}

/// Pending yank state for multi-key chords (`yo`, `yn`, `yy`).
#[derive(Debug, Clone, Copy, PartialEq, Eq, Structural)]
pub enum PendingYank {
    /// No pending yank operation.
    Idle,
    /// `y` was pressed; waiting for the target key (`o`, `n`, or `y`).
    WaitingForTarget,
}

/// Which side of a diff entry to operate on.
#[derive(Debug, Clone, Copy, PartialEq, Eq, Structural)]
pub enum Side {
    /// The old (file 1) version.
    Old,
    /// The new (file 2) version.
    New,
}

/// A single result from the search pop-up, spanning all sections.
#[derive(Debug, Clone)]
pub struct SearchResult {
    /// Which section this entry belongs to.
    pub section: Section,
    /// Index into the section's entries.
    pub entry_index: usize,
    /// Fuzzy match score (0 for regex/substring modes).
    pub score: u16,
    /// Character positions in the name that matched (for highlighting).
    pub match_indices: Vec<usize>,
    /// Index into the search haystack for name/kind resolution.
    pub haystack_index: usize,
    /// Diff kind for badge rendering.
    pub kind: DiffKind,
}

/// A command exposed in the `Ctrl+P` command palette. Every entry maps onto an
/// action that already has a direct keybinding.
#[derive(Debug, Clone, Copy, PartialEq, Eq, Structural)]
pub enum PaletteCommand {
    GoSummary,
    GoVariables,
    GoConstraints,
    GoObjectives,
    GoNumerics,
    FilterAll,
    FilterAdded,
    FilterRemoved,
    FilterModified,
    FilterRenamed,
    ToggleRawView,
    ToggleIgnoreOrder,
    CycleSort,
    CycleRelTol,
    CycleAbsTol,
    OpenSearch,
    NextMatch,
    PrevMatch,
    JumpBack,
    JumpForward,
    Solve,
    WhatIf,
    ExportCsv,
    YankName,
    YankOld,
    YankNew,
    YankDetail,
    ShowHelp,
    Quit,
}

/// Number of palette commands.
pub const PALETTE_COMMAND_COUNT: usize = 29;

impl PaletteCommand {
    /// The command at a palette position, in display order.
    pub open spec fn spec_at(index: nat) -> PaletteCommand {
        if index == 0 {
            PaletteCommand::GoSummary
        } else if index == 1 {
            PaletteCommand::GoVariables
        } else if index == 2 {
            PaletteCommand::GoConstraints
        } else if index == 3 {
            PaletteCommand::GoObjectives
        } else if index == 4 {
            PaletteCommand::GoNumerics
        } else if index == 5 {
            PaletteCommand::FilterAll
        } else if index == 6 {
            PaletteCommand::FilterAdded
        } else if index == 7 {
            PaletteCommand::FilterRemoved
        } else if index == 8 {
            PaletteCommand::FilterModified
        } else if index == 9 {
            PaletteCommand::FilterRenamed
        } else if index == 10 {
            PaletteCommand::ToggleRawView
        } else if index == 11 {
            PaletteCommand::ToggleIgnoreOrder
        } else if index == 12 {
            PaletteCommand::CycleSort
        } else if index == 13 {
            PaletteCommand::CycleRelTol
        } else if index == 14 {
            PaletteCommand::CycleAbsTol
        } else if index == 15 {
            PaletteCommand::OpenSearch
        } else if index == 16 {
            PaletteCommand::NextMatch
        } else if index == 17 {
            PaletteCommand::PrevMatch
        } else if index == 18 {
            PaletteCommand::JumpBack
        } else if index == 19 {
            PaletteCommand::JumpForward
        } else if index == 20 {
            PaletteCommand::Solve
        } else if index == 21 {
            PaletteCommand::WhatIf
        } else if index == 22 {
            PaletteCommand::ExportCsv
        } else if index == 23 {
            PaletteCommand::YankName
        } else if index == 24 {
            PaletteCommand::YankOld
        } else if index == 25 {
            PaletteCommand::YankNew
        } else if index == 26 {
            PaletteCommand::YankDetail
        } else if index == 27 {
            PaletteCommand::ShowHelp
        } else {
            PaletteCommand::Quit
        }
    }

    pub open spec fn spec_label(self) -> Seq<char> {
        match self {
            PaletteCommand::GoSummary => "Go to Summary"@,
            PaletteCommand::GoVariables => "Go to Variables"@,
            PaletteCommand::GoConstraints => "Go to Constraints"@,
            PaletteCommand::GoObjectives => "Go to Objectives"@,
            PaletteCommand::GoNumerics => "Go to Numerics"@,
            PaletteCommand::FilterAll => "Filter: All"@,
            PaletteCommand::FilterAdded => "Filter: Added"@,
            PaletteCommand::FilterRemoved => "Filter: Removed"@,
            PaletteCommand::FilterModified => "Filter: Modified"@,
            PaletteCommand::FilterRenamed => "Filter: Renamed"@,
            PaletteCommand::ToggleRawView => "Toggle raw text view"@,
            PaletteCommand::ToggleIgnoreOrder => "Toggle ignore coefficient order"@,
            PaletteCommand::CycleSort => "Cycle sort mode"@,
            PaletteCommand::CycleRelTol => "Cycle relative tolerance"@,
            PaletteCommand::CycleAbsTol => "Cycle absolute tolerance"@,
            PaletteCommand::OpenSearch => "Search entries"@,
            PaletteCommand::NextMatch => "Next search match"@,
            PaletteCommand::PrevMatch => "Previous search match"@,
            PaletteCommand::JumpBack => "Jump back (jumplist)"@,
            PaletteCommand::JumpForward => "Jump forward (jumplist)"@,
            PaletteCommand::Solve => "Solve problem (HiGHS)"@,
            PaletteCommand::WhatIf => "What-if: edit constraint RHS & re-solve"@,
            PaletteCommand::ExportCsv => "Export diff to CSV"@,
            PaletteCommand::YankName => "Yank entry name"@,
            PaletteCommand::YankOld => "Yank old side (file 1)"@,
            PaletteCommand::YankNew => "Yank new side (file 2)"@,
            PaletteCommand::YankDetail => "Yank detail panel"@,
            PaletteCommand::ShowHelp => "Show help"@,
            PaletteCommand::Quit => "Quit"@,
        }
    }

    pub open spec fn spec_hint(self) -> Seq<char> {
        match self {
            PaletteCommand::GoSummary => "1"@,
            PaletteCommand::GoVariables => "2"@,
            PaletteCommand::GoConstraints => "3"@,
            PaletteCommand::GoObjectives => "4"@,
            PaletteCommand::GoNumerics => "5"@,
            PaletteCommand::FilterAll => "a"@,
            PaletteCommand::FilterAdded => "+"@,
            PaletteCommand::FilterRemoved => "-"@,
            PaletteCommand::FilterModified => "m"@,
            PaletteCommand::FilterRenamed => "="@,
            PaletteCommand::ToggleRawView => "r"@,
            PaletteCommand::ToggleIgnoreOrder => "o"@,
            PaletteCommand::CycleSort => "s"@,
            PaletteCommand::CycleRelTol => "t"@,
            PaletteCommand::CycleAbsTol => "T"@,
            PaletteCommand::OpenSearch => "/"@,
            PaletteCommand::NextMatch => "n"@,
            PaletteCommand::PrevMatch => "N"@,
            PaletteCommand::JumpBack => "^o"@,
            PaletteCommand::JumpForward => "^i"@,
            PaletteCommand::Solve => "S"@,
            PaletteCommand::WhatIf => "E"@,
            PaletteCommand::ExportCsv => "w"@,
            PaletteCommand::YankName => "yy"@,
            PaletteCommand::YankOld => "yo"@,
            PaletteCommand::YankNew => "yn"@,
            PaletteCommand::YankDetail => "Y"@,
            PaletteCommand::ShowHelp => "?"@,
            PaletteCommand::Quit => "q"@,
        }
    }

    /// Diff-only actions: kind filters, ignore-order, tolerance cycling, the
    /// raw side-by-side view, delta sorts and the per-side yanks.
    pub open spec fn spec_diff_only(self) -> bool {
        match self {
            PaletteCommand::FilterAll
            | PaletteCommand::FilterAdded
            | PaletteCommand::FilterRemoved
            | PaletteCommand::FilterModified
            | PaletteCommand::FilterRenamed
            | PaletteCommand::ToggleRawView
            | PaletteCommand::ToggleIgnoreOrder
            | PaletteCommand::CycleSort
            | PaletteCommand::CycleRelTol
            | PaletteCommand::CycleAbsTol
            | PaletteCommand::YankOld
            | PaletteCommand::YankNew => true,
            _ => false,
        }
    }

    /// The command at a palette position, in display order.
    pub fn at(index: usize) -> (res: PaletteCommand)
        requires
            index < PALETTE_COMMAND_COUNT,
        ensures
            res == PaletteCommand::spec_at(index as nat),
    {
        match index {
            0 => PaletteCommand::GoSummary,
            1 => PaletteCommand::GoVariables,
            2 => PaletteCommand::GoConstraints,
            3 => PaletteCommand::GoObjectives,
            4 => PaletteCommand::GoNumerics,
            5 => PaletteCommand::FilterAll,
            6 => PaletteCommand::FilterAdded,
            7 => PaletteCommand::FilterRemoved,
            8 => PaletteCommand::FilterModified,
            9 => PaletteCommand::FilterRenamed,
            10 => PaletteCommand::ToggleRawView,
            11 => PaletteCommand::ToggleIgnoreOrder,
            12 => PaletteCommand::CycleSort,
            13 => PaletteCommand::CycleRelTol,
            14 => PaletteCommand::CycleAbsTol,
            15 => PaletteCommand::OpenSearch,
            16 => PaletteCommand::NextMatch,
            17 => PaletteCommand::PrevMatch,
            18 => PaletteCommand::JumpBack,
            19 => PaletteCommand::JumpForward,
            20 => PaletteCommand::Solve,
            21 => PaletteCommand::WhatIf,
            22 => PaletteCommand::ExportCsv,
            23 => PaletteCommand::YankName,
            24 => PaletteCommand::YankOld,
            25 => PaletteCommand::YankNew,
            26 => PaletteCommand::YankDetail,
            27 => PaletteCommand::ShowHelp,
            _ => PaletteCommand::Quit,
        }
    }

    /// Every command, in display order.
    pub fn all() -> (res: Vec<PaletteCommand>)
        ensures
            res@.len() == PALETTE_COMMAND_COUNT,
            forall|i: int| 0 <= i < PALETTE_COMMAND_COUNT ==> (#[trigger] res@[i]) == PaletteCommand::spec_at(i as nat),
    {
        let mut res: Vec<PaletteCommand> = Vec::new();
        let mut i: usize = 0;
        while i < PALETTE_COMMAND_COUNT
            invariant
                i <= PALETTE_COMMAND_COUNT,
                res@.len() == i,
                forall|j: int| 0 <= j < i ==> (#[trigger] res@[j]) == PaletteCommand::spec_at(j as nat),
            decreases PALETTE_COMMAND_COUNT - i,
        {
            res.push(PaletteCommand::at(i));
            i = i + 1;
        }
        res
    }

    /// Human-readable label shown in the palette and matched against the query.
    pub fn label(self) -> (res: &'static str)
        ensures
            res@ == self.spec_label(),
    {
        match self {
            PaletteCommand::GoSummary => "Go to Summary",
            PaletteCommand::GoVariables => "Go to Variables",
            PaletteCommand::GoConstraints => "Go to Constraints",
            PaletteCommand::GoObjectives => "Go to Objectives",
            PaletteCommand::GoNumerics => "Go to Numerics",
            PaletteCommand::FilterAll => "Filter: All",
            PaletteCommand::FilterAdded => "Filter: Added",
            PaletteCommand::FilterRemoved => "Filter: Removed",
            PaletteCommand::FilterModified => "Filter: Modified",
            PaletteCommand::FilterRenamed => "Filter: Renamed",
            PaletteCommand::ToggleRawView => "Toggle raw text view",
            PaletteCommand::ToggleIgnoreOrder => "Toggle ignore coefficient order",
            PaletteCommand::CycleSort => "Cycle sort mode",
            PaletteCommand::CycleRelTol => "Cycle relative tolerance",
            PaletteCommand::CycleAbsTol => "Cycle absolute tolerance",
            PaletteCommand::OpenSearch => "Search entries",
            PaletteCommand::NextMatch => "Next search match",
            PaletteCommand::PrevMatch => "Previous search match",
            PaletteCommand::JumpBack => "Jump back (jumplist)",
            PaletteCommand::JumpForward => "Jump forward (jumplist)",
            PaletteCommand::Solve => "Solve problem (HiGHS)",
            PaletteCommand::WhatIf => "What-if: edit constraint RHS & re-solve",
            PaletteCommand::ExportCsv => "Export diff to CSV",
            PaletteCommand::YankName => "Yank entry name",
            PaletteCommand::YankOld => "Yank old side (file 1)",
            PaletteCommand::YankNew => "Yank new side (file 2)",
            PaletteCommand::YankDetail => "Yank detail panel",
            PaletteCommand::ShowHelp => "Show help",
            PaletteCommand::Quit => "Quit",
        }
    }

    /// Whether this command is offered in inspect (single-file) mode: every
    /// command but the diff-only ones.
    pub fn available_in_inspect(self) -> (res: bool)
        ensures
            res == !self.spec_diff_only(),
    {
        match self {
            PaletteCommand::FilterAll
            | PaletteCommand::FilterAdded
            | PaletteCommand::FilterRemoved
            | PaletteCommand::FilterModified
            | PaletteCommand::FilterRenamed
            | PaletteCommand::ToggleRawView
            | PaletteCommand::ToggleIgnoreOrder
            | PaletteCommand::CycleSort
            | PaletteCommand::CycleRelTol
            | PaletteCommand::CycleAbsTol
            | PaletteCommand::YankOld
            | PaletteCommand::YankNew => false,
            _ => true,
        }
    }

    /// The equivalent direct keybinding, shown right-aligned in the palette.
    pub fn hint(self) -> (res: &'static str)
        ensures
            res@ == self.spec_hint(),
    {
        match self {
            PaletteCommand::GoSummary => "1",
            PaletteCommand::GoVariables => "2",
            PaletteCommand::GoConstraints => "3",
            PaletteCommand::GoObjectives => "4",
            PaletteCommand::GoNumerics => "5",
            PaletteCommand::FilterAll => "a",
            PaletteCommand::FilterAdded => "+",
            PaletteCommand::FilterRemoved => "-",
            PaletteCommand::FilterModified => "m",
            PaletteCommand::FilterRenamed => "=",
            PaletteCommand::ToggleRawView => "r",
            PaletteCommand::ToggleIgnoreOrder => "o",
            PaletteCommand::CycleSort => "s",
            PaletteCommand::CycleRelTol => "t",
            PaletteCommand::CycleAbsTol => "T",
            PaletteCommand::OpenSearch => "/",
            PaletteCommand::NextMatch => "n",
            PaletteCommand::PrevMatch => "N",
            PaletteCommand::JumpBack => "^o",
            PaletteCommand::JumpForward => "^i",
            PaletteCommand::Solve => "S",
            PaletteCommand::WhatIf => "E",
            PaletteCommand::ExportCsv => "w",
            PaletteCommand::YankName => "yy",
            PaletteCommand::YankOld => "yo",
            PaletteCommand::YankNew => "yn",
            PaletteCommand::YankDetail => "Y",
            PaletteCommand::ShowHelp => "?",
            PaletteCommand::Quit => "q",
        }
    }
}

} // verus!
