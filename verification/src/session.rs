//! Session state kept across frames: the status-bar flash, the flat search
//! haystack, the sidebar's width target and the cache of completed solves.
use std::time::Instant;
use unicode_width::UnicodeWidthStr;
use vstd::prelude::*;

use crate::diff_model::DiffKind;
use crate::state::Section;
use crate::text::str_eq;

verus! {

#[verifier::external_type_specification]
#[verifier::external_body]
pub struct ExInstant(Instant);

/// How a status-bar flash is coloured, and how long it stays.
#[derive(Debug, Clone, Copy, PartialEq, Eq, Structural, Default)]
pub enum FlashLevel {
    /// Neutral feedback: a mode changed, a match was reached.
    #[default]
    Info,
    /// An action succeeded: a yank, a file written.
    Success,
    /// The action was refused or did nothing, but nothing failed.
    Warn,
    /// An action failed. Stays until the next key press rather than expiring,
    /// so it is not missed.
    Failure,
}

/// Status-bar flash state (it began as the yank confirmation, hence the name).
pub struct YankState {
    /// When the flash was raised; `None` when no flash is showing.
    pub flash: Option<Instant>,
    /// Message displayed in the status bar while the flash shows.
    pub message: String,
    /// Severity: picks the colour, and whether the flash expires on its own.
    pub level: FlashLevel,
}

impl YankState {
    /// Whether the flash clears itself on a timer (everything but errors).
    pub fn expires(&self) -> (res: bool)
        ensures
            res == (self.flash is Some && self.level != FlashLevel::Failure),
    {
        self.flash.is_some() && !matches!(self.level, FlashLevel::Failure)
    }

    /// Drop the flash.
    pub fn clear(&mut self)
        ensures
            final(self).flash is None,
            final(self).message@ == Seq::<char>::empty(),
            final(self).level == old(self).level,
    {
        self.flash = None;
        self.message = String::new();
    }
}

/// A single entry in the pre-built flat search haystack.
///
/// Names are stored separately, at the same index, in a name buffer.
#[derive(Debug, Clone, Copy, PartialEq, Eq, Structural)]
pub struct HaystackEntry {
    pub section: Section,
    pub index: usize,
    pub kind: DiffKind,
}

/// The haystack entries of one section: one per entry, in entry order.
pub open spec fn section_haystack(section: Section, entries: Seq<(String, DiffKind)>) -> Seq<HaystackEntry> {
    Seq::new(entries.len(), |i: int| HaystackEntry { section, index: i as usize, kind: entries[i].1 })
}

/// The names of a section's entries.
pub open spec fn entry_names(entries: Seq<(String, DiffKind)>) -> Seq<Seq<char>> {
    entries.map_values(|entry: (String, DiffKind)| entry.0@)
}

/// The views of a list of strings.
pub open spec fn string_views(strings: Seq<String>) -> Seq<Seq<char>> {
    strings.map_values(|s: String| s@)
}

fn append_section(
    haystack: &mut Vec<HaystackEntry>,
    names: &mut Vec<String>,
    section: Section,
    entries: &Vec<(String, DiffKind)>,
)
    ensures
        final(haystack)@ == old(haystack)@ + section_haystack(section, entries@),
        string_views(final(names)@) == string_views(old(names)@) + entry_names(entries@),
{
    let ghost start_haystack = haystack@;
    let ghost start_names = string_views(names@);
    let mut i: usize = 0;
    while i < entries.len()
        invariant
            i <= entries@.len(),
            haystack@ == start_haystack + section_haystack(section, entries@.take(i as int)),
            string_views(names@) == start_names + entry_names(entries@.take(i as int)),
        decreases entries@.len() - i,
    {
        let entry = &entries[i];
        haystack.push(HaystackEntry { section, index: i, kind: entry.1 });
        let name = entry.0.clone();
        let ghost before = names@;
        names.push(name);
        proof {
            assert(entries@.take(i + 1).drop_last() =~= entries@.take(i as int));
            assert(haystack@ =~= start_haystack + section_haystack(section, entries@.take(i + 1)));
            assert(string_views(names@) =~= string_views(before).push(entries@[i as int].0@));
            assert(string_views(names@) =~= start_names + entry_names(entries@.take(i + 1)));
        }
        i = i + 1;
    }
    assert(entries@.take(i as int) =~= entries@);
}

/// Build the flat search haystack and name buffer from the three list
/// sections, in lockstep so that `names[i]` is the name of `haystack[i]`:
/// variables first, then constraints, then objectives, each in entry order.
pub fn build_haystack(
    variables: &Vec<(String, DiffKind)>,
    constraints: &Vec<(String, DiffKind)>,
    objectives: &Vec<(String, DiffKind)>,
) -> (res: (Vec<HaystackEntry>, Vec<String>))
    ensures
        res.0@ == section_haystack(Section::Variables, variables@) + section_haystack(
            Section::Constraints,
            constraints@,
        ) + section_haystack(Section::Objectives, objectives@),
        string_views(res.1@) == entry_names(variables@) + entry_names(constraints@) + entry_names(objectives@),
        res.0@.len() == res.1@.len(),
{
    let mut haystack: Vec<HaystackEntry> = Vec::new();
    let mut names: Vec<String> = Vec::new();
    assert(string_views(names@) =~= Seq::<Seq<char>>::empty());
    append_section(&mut haystack, &mut names, Section::Variables, variables);
    append_section(&mut haystack, &mut names, Section::Constraints, constraints);
    append_section(&mut haystack, &mut names, Section::Objectives, objectives);
    assert(haystack@ =~= section_haystack(Section::Variables, variables@) + section_haystack(
        Section::Constraints,
        constraints@,
    ) + section_haystack(Section::Objectives, objectives@));
    assert(string_views(names@).len() == names@.len());
    (haystack, names)
}

/// The number of terminal columns a string occupies, as the `unicode-width`
/// crate measures it.
pub uninterp spec fn display_width(s: Seq<char>) -> usize;

/// Display width of a string.
///
/// Wraps `unicode_width::UnicodeWidthStr::width`; the contract names its
/// result as a function of the string's characters.
#[verifier::external_body]
fn str_width(s: &str) -> (res: usize)
    ensures
        res == display_width(s@),
{
    s.width()
}

/// The widest display width among `names`, or 0 for none.
pub open spec fn widest(names: Seq<Seq<char>>) -> nat
    decreases names.len(),
{
    if names.len() == 0 {
        0
    } else {
        let rest = widest(names.drop_last());
        let last = display_width(names.last()) as nat;
        if last > rest { last } else { rest }
    }
}

/// Display width of the longest entry name, which the sidebar grows towards.
pub fn longest_entry_name(names: &Vec<String>) -> (res: usize)
    ensures
        res == widest(string_views(names@)),
{
    let mut longest: usize = 0;
    let mut i: usize = 0;
    while i < names.len()
        invariant
            i <= names@.len(),
            longest == widest(string_views(names@.take(i as int))),
        decreases names@.len() - i,
    {
        let width = str_width(names[i].as_str());
        proof {
            assert(string_views(names@.take(i + 1)).drop_last() =~= string_views(names@.take(i as int)));
            assert(string_views(names@.take(i + 1)).last() == names@[i as int]@);
        }
        if width > longest {
            longest = width;
        }
        i = i + 1;
    }
    assert(names@.take(i as int) =~= names@);
    longest
}

/// How many completed solves are kept: file 1, file 2, both, and one what-if
/// edit.
pub const SOLVE_CACHE_CAPACITY: usize = 4;

/// Completed solves kept across overlay closes, newest last, each filed under
/// the labels of the input it was computed from.
pub struct SolveCache<T> {
    entries: Vec<(String, T)>,
}

/// Whether no key occurs twice.
pub open spec fn keys_distinct<T>(entries: Seq<(Seq<char>, T)>) -> bool {
    forall|a: int, b: int| 0 <= a < b < entries.len() ==> entries[a].0 != entries[b].0
}

/// The entries without the one filed under `key`.
pub open spec fn without_key<T>(entries: Seq<(Seq<char>, T)>, key: Seq<char>) -> Seq<(Seq<char>, T)>
    decreases entries.len(),
{
    if entries.len() == 0 {
        entries
    } else if entries[0].0 == key {
        without_key(entries.drop_first(), key)
    } else {
        seq![entries[0]] + without_key(entries.drop_first(), key)
    }
}

/// The entries after filing `value` under `key`: any older entry for the key
/// goes, the oldest entry goes when the cache is full, and the new one is
/// appended.
pub open spec fn filed<T>(entries: Seq<(Seq<char>, T)>, key: Seq<char>, value: T) -> Seq<(Seq<char>, T)> {
    let kept = without_key(entries, key);
    let room = if kept.len() >= SOLVE_CACHE_CAPACITY { kept.drop_first() } else { kept };
    room.push((key, value))
}

/// The position of the entry filed under `key`, if any.
pub open spec fn key_position<T>(entries: Seq<(Seq<char>, T)>, key: Seq<char>) -> Option<int>
    decreases entries.len(),
{
    if entries.len() == 0 {
        None
    } else if entries[0].0 == key {
        Some(0)
    } else {
        match key_position(entries.drop_first(), key) {
            Some(k) => Some(k + 1),
            None => None,
        }
    }
}

proof fn lemma_without_key_shrinks<T>(entries: Seq<(Seq<char>, T)>, key: Seq<char>)
    ensures
        without_key(entries, key).len() <= entries.len(),
        forall|k: int|
            0 <= k < without_key(entries, key).len() ==> without_key(entries, key)[k].0 != key
                && entries.contains(#[trigger] without_key(entries, key)[k]),
        keys_distinct(entries) ==> keys_distinct(without_key(entries, key)),
    decreases entries.len(),
{
    if entries.len() > 0 {
        lemma_without_key_shrinks(entries.drop_first(), key);
        let rest = without_key(entries.drop_first(), key);
        assert forall|k: int| 0 <= k < rest.len() implies entries.contains(#[trigger] rest[k]) by {
            assert(entries.drop_first().contains(rest[k]));
            let j = choose|j: int| 0 <= j < entries.drop_first().len() && entries.drop_first()[j] == rest[k];
            assert(entries[j + 1] == rest[k]);
        }
        if entries[0].0 != key {
            let whole = seq![entries[0]] + rest;
            assert forall|k: int| 0 <= k < whole.len() implies whole[k].0 != key && entries.contains(
                #[trigger] whole[k],
            ) by {
                if k > 0 {
                    assert(whole[k] == rest[k - 1]);
                } else {
                    assert(entries[0] == whole[0]);
                }
            }
            if keys_distinct(entries) {
                assert(keys_distinct(entries.drop_first()));
                assert forall|a: int, b: int| 0 <= a < b < whole.len() implies whole[a].0 != whole[b].0 by {
                    if a > 0 {
                        assert(whole[a] == rest[a - 1]);
                        assert(whole[b] == rest[b - 1]);
                    } else {
                        assert(whole[b] == rest[b - 1]);
                        assert(entries.drop_first().contains(rest[b - 1]));
                        let j = choose|j: int|
                            0 <= j < entries.drop_first().len() && entries.drop_first()[j] == rest[b - 1];
                        assert(entries[j + 1] == rest[b - 1]);
                    }
                }
            }
        } else {
            if keys_distinct(entries) {
                assert(keys_distinct(entries.drop_first()));
            }
        }
    }
}

impl<T> SolveCache<T> {
    /// The filed entries, oldest first, as `(key, value)`.
    pub closed spec fn contents(&self) -> Seq<(Seq<char>, T)> {
        self.entries@.map_values(|entry: (String, T)| (entry.0@, entry.1))
    }

    /// Well-formedness: within capacity, and no key filed twice.
    pub open spec fn wf(&self) -> bool {
        &&& self.contents().len() <= SOLVE_CACHE_CAPACITY
        &&& keys_distinct(self.contents())
    }

    /// An empty cache.
    pub fn new() -> (res: SolveCache<T>)
        ensures
            res.wf(),
            res.contents() == Seq::<(Seq<char>, T)>::empty(),
    {
        let res = SolveCache { entries: Vec::new() };
        assert(res.contents() =~= Seq::<(Seq<char>, T)>::empty());
        res
    }

    /// How many solves are filed.
    pub fn len(&self) -> (res: usize)
        ensures
            res == self.contents().len(),
    {
        self.entries.len()
    }

    /// File a completed solve under `key`, replacing any older one for the
    /// same key and dropping the oldest when the cache is full.
    pub fn file(&mut self, key: String, value: T)
        requires
            old(self).wf(),
        ensures
            final(self).wf(),
            final(self).contents() == filed(old(self).contents(), key@, value),
    {
        let ghost start = self.contents();
        let mut i: usize = self.entries.len();
        while i > 0
            invariant
                i <= start.len(),
                self.entries@.len() == self.contents().len(),
                i <= self.contents().len(),
                start.len() == old(self).contents().len(),
                start == old(self).contents(),
                self.contents() == start.take(i as int) + without_key(start.skip(i as int), key@),
            decreases i,
        {
            let same = self.entries[i - 1].0 == key;
            proof {
                assert(start.skip(i - 1).drop_first() =~= start.skip(i as int));
                assert(start.skip(i - 1)[0] == start[i - 1]);
                assert(self.contents()[i - 1] == start[i - 1]);
            }
            if same {
                let ghost before = self.contents();
                self.entries.remove(i - 1);
                proof {
                    assert(self.contents() =~= before.take(i - 1) + before.skip(i as int));
                    assert(before.take(i - 1) =~= start.take(i - 1));
                    assert(before.skip(i as int) =~= without_key(start.skip(i as int), key@));
                }
            } else {
                proof {
                    assert(self.contents() =~= start.take(i - 1) + (seq![start[i - 1]] + without_key(
                        start.skip(i as int),
                        key@,
                    )));
                }
            }
            i = i - 1;
        }
        assert(start.take(0) + without_key(start.skip(0), key@) =~= without_key(start, key@)) by {
            assert(start.skip(0) =~= start);
        }
        proof {
            lemma_without_key_shrinks(start, key@);
        }
        if self.entries.len() >= SOLVE_CACHE_CAPACITY {
            let ghost before = self.contents();
            self.entries.remove(0);
            assert(self.contents() =~= before.drop_first());
        }
        let ghost before = self.contents();
        self.entries.push((key, value));
        proof {
            assert(self.contents() =~= before.push((key@, value)));
            let kept = without_key(start, key@);
            assert forall|a: int, b: int| 0 <= a < b < self.contents().len() implies self.contents()[a].0
                != self.contents()[b].0 by {
                if b == self.contents().len() - 1 {
                    if kept.len() >= SOLVE_CACHE_CAPACITY {
                        assert(before[a] == kept[a + 1]);
                    } else {
                        assert(before[a] == kept[a]);
                    }
                } else if kept.len() >= SOLVE_CACHE_CAPACITY {
                    assert(before[a] == kept[a + 1]);
                    assert(before[b] == kept[b + 1]);
                }
            }
        }
    }

    /// Take back the solve filed under `key`, if one is held; it leaves the
    /// cache.
    pub fn take(&mut self, key: &str) -> (res: Option<T>)
        requires
            old(self).wf(),
        ensures
            final(self).wf(),
            match key_position(old(self).contents(), key@) {
                Some(k) => res == Some(old(self).contents()[k].1) && final(self).contents() == old(
                    self,
                ).contents().remove(k),
                None => res is None && final(self).contents() == old(self).contents(),
            },
    {
        let ghost start = self.contents();
        let mut i: usize = 0;
        assert(start.skip(0) =~= start);
        while i < self.entries.len()
            invariant
                i <= start.len(),
                start == self.contents(),
                start == old(self).contents(),
                keys_distinct(start),
                start.len() <= SOLVE_CACHE_CAPACITY,
                self.entries@.len() == start.len(),
                key_position(start, key@) == match key_position(start.skip(i as int), key@) {
                    Some(k) => Some(k + i),
                    None => None,
                },
            decreases start.len() - i,
        {
            assert(start.skip(i as int).drop_first() =~= start.skip(i + 1));
            assert(start.skip(i as int)[0] == start[i as int]);
            if str_eq(self.entries[i].0.as_str(), key) {
                let (_, value) = self.entries.remove(i);
                proof {
                    assert(self.contents() =~= start.remove(i as int));
                    assert forall|a: int, b: int| 0 <= a < b < self.contents().len() implies self.contents()[a].0
                        != self.contents()[b].0 by {
                        let x = if a < i { a } else { a + 1 };
                        let y = if b < i { b } else { b + 1 };
                        assert(self.contents()[a] == start[x]);
                        assert(self.contents()[b] == start[y]);
                    }
                }
                return Some(value);
            }
            i = i + 1;
        }
        assert(start.skip(i as int) =~= Seq::<(Seq<char>, T)>::empty());
        None
    }
}

/// Filing a solve and then taking its key back gives the solve back, and a
/// full cache never grows: what the overlay relies on to reopen a solve
/// without re-running it.
pub proof fn lemma_file_then_take<T>(entries: Seq<(Seq<char>, T)>, key: Seq<char>, value: T)
    requires
        entries.len() <= SOLVE_CACHE_CAPACITY,
        keys_distinct(entries),
    ensures
        filed(entries, key, value).len() <= SOLVE_CACHE_CAPACITY,
        keys_distinct(filed(entries, key, value)),
        key_position(filed(entries, key, value), key) == Some(filed(entries, key, value).len() - 1),
        filed(entries, key, value).last() == (key, value),
{
    lemma_without_key_shrinks(entries, key);
    let kept = without_key(entries, key);
    let room = if kept.len() >= SOLVE_CACHE_CAPACITY { kept.drop_first() } else { kept };
    let all = room.push((key, value));
    assert forall|k: int| 0 <= k < room.len() implies #[trigger] room[k].0 != key by {
        if kept.len() >= SOLVE_CACHE_CAPACITY {
            assert(room[k] == kept[k + 1]);
        }
    }
    assert forall|a: int, b: int| 0 <= a < b < all.len() implies all[a].0 != all[b].0 by {
        if b < room.len() && kept.len() >= SOLVE_CACHE_CAPACITY {
            assert(room[a] == kept[a + 1]);
            assert(room[b] == kept[b + 1]);
        }
    }
    lemma_key_position_last(room, key, value);
}

proof fn lemma_key_position_last<T>(room: Seq<(Seq<char>, T)>, key: Seq<char>, value: T)
    requires
        forall|k: int| 0 <= k < room.len() ==> #[trigger] room[k].0 != key,
    ensures
        key_position(room.push((key, value)), key) == Some(room.len() as int),
    decreases room.len(),
{
    if room.len() > 0 {
        let all = room.push((key, value));
        assert(all.drop_first() =~= room.drop_first().push((key, value)));
        assert forall|k: int| 0 <= k < room.drop_first().len() implies #[trigger] room.drop_first()[k].0 != key by {
            assert(room.drop_first()[k] == room[k + 1]);
        }
        lemma_key_position_last(room.drop_first(), key, value);
    }
}

} // verus!
