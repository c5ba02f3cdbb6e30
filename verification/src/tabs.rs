//! The labels of the section tabs: each list section carries its entry or
//! change counts, and Numerics its issue badge.
use vstd::prelude::*;

use crate::diff_model::{DiffCounts, DiffKind, DiffSummary};
use crate::state::{AppMode, DiffFilter, Section};
use crate::text::{decimal, push_decimal, push_str};

verus! {

/// How a piece of a tab label is coloured.
#[derive(Debug, Clone, Copy, PartialEq, Eq, Structural)]
pub enum PieceStyle {
    /// In the colour of a change kind.
    Kind(DiffKind),
    /// Muted: the section total under a kind filter.
    Muted,
    /// In the colour of the worst numerical issue.
    Severity,
}

/// One coloured piece of a tab label.
pub struct TabPiece {
    pub style: PieceStyle,
    pub text: String,
}

/// A tab label: the section's name and the coloured count pieces after it.
pub struct TabLabel {
    pub name: String,
    pub counts: Vec<TabPiece>,
}

/// The mark a change kind carries in counts: `+`, `-`, `~` and `>`.
pub open spec fn spec_count_prefix(kind: DiffKind) -> Seq<char> {
    match kind {
        DiffKind::Added => "+"@,
        DiffKind::Removed => "-"@,
        DiffKind::Modified => "~"@,
        DiffKind::Renamed => ">"@,
    }
}

/// The mark a change kind carries in counts: `+`, `-`, `~` and `>`.
pub fn count_prefix(kind: DiffKind) -> (res: &'static str)
    ensures
        res@ == spec_count_prefix(kind),
{
    match kind {
        DiffKind::Added => "+",
        DiffKind::Removed => "-",
        DiffKind::Modified => "~",
        DiffKind::Renamed => ">",
    }
}

/// How many entries of `kind` a section's counts hold.
pub open spec fn count_of(counts: DiffCounts, kind: DiffKind) -> nat {
    match kind {
        DiffKind::Added => counts.added as nat,
        DiffKind::Removed => counts.removed as nat,
        DiffKind::Modified => counts.modified as nat,
        DiffKind::Renamed => counts.renamed as nat,
    }
}

/// The kind a filter selects, if it selects one.
pub open spec fn filtered_kind(filter: DiffFilter) -> Option<DiffKind> {
    match filter {
        DiffFilter::All => None,
        DiffFilter::Added => Some(DiffKind::Added),
        DiffFilter::Removed => Some(DiffKind::Removed),
        DiffFilter::Modified => Some(DiffKind::Modified),
        DiffFilter::Renamed => Some(DiffKind::Renamed),
    }
}

/// A piece as the contracts see it: its style and its characters.
pub open spec fn piece_view(piece: TabPiece) -> (PieceStyle, Seq<char>) {
    (piece.style, piece.text@)
}

pub open spec fn pieces_view(pieces: Seq<TabPiece>) -> Seq<(PieceStyle, Seq<char>)> {
    pieces.map_values(|p: TabPiece| piece_view(p))
}

/// The count of one kind as a piece, or nothing when there is none of it.
pub open spec fn nonzero_piece(counts: DiffCounts, kind: DiffKind) -> Seq<(PieceStyle, Seq<char>)> {
    if count_of(counts, kind) > 0 {
        seq![(PieceStyle::Kind(kind), spec_count_prefix(kind) + decimal(count_of(counts, kind)))]
    } else {
        seq![]
    }
}

/// The count pieces of a list tab in diff mode. With no kind filter, the
/// non-zero counts of each kind in the order added, removed, modified,
/// renamed (`+3`, `~1`); under a kind filter, that kind's count and then the
/// section total, muted (`~5`, `/12`), so a filtered list is never mistaken
/// for the whole section.
pub open spec fn count_pieces(counts: DiffCounts, filter: DiffFilter) -> Seq<(PieceStyle, Seq<char>)> {
    match filtered_kind(filter) {
        None => nonzero_piece(counts, DiffKind::Added) + nonzero_piece(counts, DiffKind::Removed)
            + nonzero_piece(counts, DiffKind::Modified) + nonzero_piece(counts, DiffKind::Renamed),
        Some(kind) => seq![
            (PieceStyle::Kind(kind), spec_count_prefix(kind) + decimal(count_of(counts, kind))),
            (PieceStyle::Muted, "/"@ + decimal(counts.spec_total() as nat)),
        ],
    }
}

fn kind_count(counts: &DiffCounts, kind: DiffKind) -> (res: usize)
    ensures
        res == count_of(*counts, kind),
{
    match kind {
        DiffKind::Added => counts.added,
        DiffKind::Removed => counts.removed,
        DiffKind::Modified => counts.modified,
        DiffKind::Renamed => counts.renamed,
    }
}

fn kind_piece(counts: &DiffCounts, kind: DiffKind) -> (res: TabPiece)
    ensures
        piece_view(res) == (PieceStyle::Kind(kind), spec_count_prefix(kind) + decimal(count_of(*counts, kind))),
{
    let mut text = String::new();
    push_str(&mut text, count_prefix(kind));
    push_decimal(&mut text, kind_count(counts, kind) as u64);
    TabPiece { style: PieceStyle::Kind(kind), text }
}

fn push_nonzero(pieces: &mut Vec<TabPiece>, counts: &DiffCounts, kind: DiffKind)
    ensures
        pieces_view(final(pieces)@) == pieces_view(old(pieces)@) + nonzero_piece(*counts, kind),
{
    let ghost before = old(pieces)@;
    if kind_count(counts, kind) > 0 {
        pieces.push(kind_piece(counts, kind));
        assert(pieces_view(pieces@) =~= pieces_view(before) + nonzero_piece(*counts, kind));
    } else {
        assert(pieces_view(pieces@) =~= pieces_view(before) + nonzero_piece(*counts, kind));
    }
}

/// The count pieces of a list tab in diff mode: see [`count_pieces`].
pub fn tab_counts(counts: &DiffCounts, filter: DiffFilter) -> (res: Vec<TabPiece>)
    requires
        counts.spec_total() <= usize::MAX,
    ensures
        pieces_view(res@) == count_pieces(*counts, filter),
{
    let mut pieces: Vec<TabPiece> = Vec::new();
    let kind = match filter {
        DiffFilter::All => {
            push_nonzero(&mut pieces, counts, DiffKind::Added);
            push_nonzero(&mut pieces, counts, DiffKind::Removed);
            push_nonzero(&mut pieces, counts, DiffKind::Modified);
            push_nonzero(&mut pieces, counts, DiffKind::Renamed);
            assert(pieces_view(pieces@) =~= count_pieces(*counts, filter));
            return pieces;
        },
        DiffFilter::Added => DiffKind::Added,
        DiffFilter::Removed => DiffKind::Removed,
        DiffFilter::Modified => DiffKind::Modified,
        DiffFilter::Renamed => DiffKind::Renamed,
    };
    pieces.push(kind_piece(counts, kind));
    let mut total = String::new();
    push_str(&mut total, "/");
    push_decimal(&mut total, counts.total() as u64);
    pieces.push(TabPiece { style: PieceStyle::Muted, text: total });
    assert(pieces_view(pieces@) =~= count_pieces(*counts, filter));
    pieces
}

/// Under a kind filter a tab reads two pieces: the filtered kind's own count
/// with its mark, then, muted, `/` and the whole section's entry count, every
/// state included: added, removed, modified, unchanged and renamed pairs
/// (each pair once). The total is the same whichever kind is filtered.
pub proof fn lemma_filtered_tab_reads_kind_then_total(counts: DiffCounts, filter: DiffFilter, other: DiffFilter)
    requires
        filter != DiffFilter::All,
        other != DiffFilter::All,
    ensures
        count_pieces(counts, filter).len() == 2,
        count_pieces(counts, filter)[1] == (
            PieceStyle::Muted,
            "/"@ + decimal((counts.added + counts.removed + counts.modified + counts.unchanged + counts.renamed) as nat),
        ),
        count_pieces(counts, filter)[1] == count_pieces(counts, other)[1],
        filter == DiffFilter::Added ==> count_pieces(counts, filter)[0] == (
            PieceStyle::Kind(DiffKind::Added),
            "+"@ + decimal(counts.added as nat),
        ),
        filter == DiffFilter::Removed ==> count_pieces(counts, filter)[0] == (
            PieceStyle::Kind(DiffKind::Removed),
            "-"@ + decimal(counts.removed as nat),
        ),
        filter == DiffFilter::Modified ==> count_pieces(counts, filter)[0] == (
            PieceStyle::Kind(DiffKind::Modified),
            "~"@ + decimal(counts.modified as nat),
        ),
        filter == DiffFilter::Renamed ==> count_pieces(counts, filter)[0] == (
            PieceStyle::Kind(DiffKind::Renamed),
            ">"@ + decimal(counts.renamed as nat),
        ),
{
}

/// With no filter a tab shows one piece per kind that has entries, in the
/// order added, removed, modified, renamed, and nothing for a section
/// without changes.
pub proof fn lemma_unfiltered_tab_lists_nonzero_kinds(counts: DiffCounts)
    ensures
        count_pieces(counts, DiffFilter::All).len() == (if counts.added > 0 { 1int } else { 0 }) + (if counts.removed
            > 0 { 1int } else { 0 }) + (if counts.modified > 0 { 1int } else { 0 }) + (if counts.renamed > 0 {
            1int
        } else {
            0
        }),
        counts.added > 0 ==> count_pieces(counts, DiffFilter::All)[0] == (
            PieceStyle::Kind(DiffKind::Added),
            "+"@ + decimal(counts.added as nat),
        ),
        (counts.added == 0 && counts.removed == 0 && counts.modified == 0 && counts.renamed == 0) ==> count_pieces(
            counts,
            DiffFilter::All,
        ).len() == 0,
        (counts.added > 0 && counts.removed > 0 && counts.modified > 0 && counts.renamed > 0) ==> count_pieces(
            counts,
            DiffFilter::All,
        ) == seq![
            (PieceStyle::Kind(DiffKind::Added), "+"@ + decimal(counts.added as nat)),
            (PieceStyle::Kind(DiffKind::Removed), "-"@ + decimal(counts.removed as nat)),
            (PieceStyle::Kind(DiffKind::Modified), "~"@ + decimal(counts.modified as nat)),
            (PieceStyle::Kind(DiffKind::Renamed), ">"@ + decimal(counts.renamed as nat)),
        ],
{
    if counts.added > 0 && counts.removed > 0 && counts.modified > 0 && counts.renamed > 0 {
        assert(count_pieces(counts, DiffFilter::All) =~= seq![
            (PieceStyle::Kind(DiffKind::Added), "+"@ + decimal(counts.added as nat)),
            (PieceStyle::Kind(DiffKind::Removed), "-"@ + decimal(counts.removed as nat)),
            (PieceStyle::Kind(DiffKind::Modified), "~"@ + decimal(counts.modified as nat)),
            (PieceStyle::Kind(DiffKind::Renamed), ">"@ + decimal(counts.renamed as nat)),
        ]);
    }
}

/// The counts a list section's tab reads from the summary; `None` for the
/// static sections.
pub open spec fn section_counts(summary: DiffSummary, section: Section) -> Option<DiffCounts> {
    match section {
        Section::Summary | Section::Numerics => None,
        Section::Variables => Some(summary.variables),
        Section::Constraints => Some(summary.constraints),
        Section::Objectives => Some(summary.objectives),
    }
}

/// Whether every count that a tab label sums fits a `usize`.
pub open spec fn counts_fit(summary: DiffSummary) -> bool {
    &&& summary.variables.spec_total() <= usize::MAX
    &&& summary.constraints.spec_total() <= usize::MAX
    &&& summary.objectives.spec_total() <= usize::MAX
}

/// The tab label of a section. Numerics carries `!N` for its `N` issues when
/// there are any; in inspect mode a list section's name carries its entry
/// count, `Variables (12)`; in diff mode it carries the count pieces of
/// [`count_pieces`]; the Summary tab is its bare name.
pub open spec fn tab_label_view(
    section: Section,
    mode: AppMode,
    filter: DiffFilter,
    summary: DiffSummary,
    issues: Option<usize>,
) -> (Seq<char>, Seq<(PieceStyle, Seq<char>)>) {
    match section_counts(summary, section) {
        None => (section.spec_label(), if section == Section::Numerics && issues is Some {
            seq![(PieceStyle::Severity, "!"@ + decimal(issues->0 as nat))]
        } else {
            seq![]
        }),
        Some(counts) => match mode {
            AppMode::Inspect => (
                section.spec_label() + " ("@ + decimal(counts.spec_changed() as nat) + ")"@,
                seq![],
            ),
            AppMode::Diff => (section.spec_label(), count_pieces(counts, filter)),
        },
    }
}

/// The tab label of `section`: see [`tab_label_view`].
pub fn section_label(
    section: Section,
    mode: AppMode,
    filter: DiffFilter,
    summary: &DiffSummary,
    issues: Option<usize>,
) -> (res: TabLabel)
    requires
        counts_fit(*summary),
    ensures
        (res.name@, pieces_view(res.counts@)) == tab_label_view(section, mode, filter, *summary, issues),
{
    let counts = match section {
        Section::Summary | Section::Numerics => {
            let mut pieces: Vec<TabPiece> = Vec::new();
            if section == Section::Numerics {
                if let Some(count) = issues {
                    let mut text = String::new();
                    push_str(&mut text, "!");
                    push_decimal(&mut text, count as u64);
                    pieces.push(TabPiece { style: PieceStyle::Severity, text });
                }
            }
            let mut name = String::new();
            push_str(&mut name, section.label());
            assert(pieces_view(pieces@) =~= tab_label_view(section, mode, filter, *summary, issues).1);
            return TabLabel { name, counts: pieces };
        },
        Section::Variables => &summary.variables,
        Section::Constraints => &summary.constraints,
        Section::Objectives => &summary.objectives,
    };
    let mut name = String::new();
    push_str(&mut name, section.label());
    match mode {
        AppMode::Inspect => {
            push_str(&mut name, " (");
            push_decimal(&mut name, counts.changed() as u64);
            push_str(&mut name, ")");
            let pieces: Vec<TabPiece> = Vec::new();
            assert(pieces_view(pieces@) =~= seq![]);
            TabLabel { name, counts: pieces }
        },
        AppMode::Diff => TabLabel { name, counts: tab_counts(counts, filter) },
    }
}

/// The labels of all five tabs, in selector order.
pub fn section_labels(mode: AppMode, filter: DiffFilter, summary: &DiffSummary, issues: Option<usize>) -> (res: Vec<
    TabLabel,
>)
    requires
        counts_fit(*summary),
    ensures
        res@.len() == 5,
        forall|i: int|
            0 <= i < 5 ==> (#[trigger] res@[i].name@, pieces_view(res@[i].counts@)) == tab_label_view(
                Section::spec_at(i as nat),
                mode,
                filter,
                *summary,
                issues,
            ),
{
    let mut labels: Vec<TabLabel> = Vec::new();
    let mut i: usize = 0;
    while i < 5
        invariant
            i <= 5,
            labels@.len() == i,
            counts_fit(*summary),
            forall|j: int|
                0 <= j < i ==> (#[trigger] labels@[j].name@, pieces_view(labels@[j].counts@)) == tab_label_view(
                    Section::spec_at(j as nat),
                    mode,
                    filter,
                    *summary,
                    issues,
                ),
        decreases 5 - i,
    {
        labels.push(section_label(Section::from_index(i), mode, filter, summary, issues));
        i = i + 1;
    }
    labels
}

} // verus!
