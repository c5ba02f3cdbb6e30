use lp_diff::diff_model::{DiffCounts, DiffKind, DiffSummary};
use lp_diff::state::{AppMode, DiffFilter, Section};
use lp_diff::tabs::{PieceStyle, TabLabel, count_prefix, section_label, section_labels, tab_counts};

fn counts(added: usize, removed: usize, modified: usize, unchanged: usize, renamed: usize) -> DiffCounts {
    DiffCounts { added, removed, modified, unchanged, order_only: 0, renamed }
}

fn texts(label: &TabLabel) -> Vec<String> {
    label.counts.iter().map(|piece| piece.text.clone()).collect()
}

#[test]
fn unfiltered_tab_lists_only_the_nonzero_kinds_in_order() {
    let pieces = tab_counts(&counts(3, 0, 1, 8, 2), DiffFilter::All);
    let texts: Vec<&str> = pieces.iter().map(|piece| piece.text.as_str()).collect();
    assert_eq!(texts, vec!["+3", "~1", ">2"]);
    assert_eq!(pieces[0].style, PieceStyle::Kind(DiffKind::Added));
    assert_eq!(pieces[2].style, PieceStyle::Kind(DiffKind::Renamed));
}

#[test]
fn filtered_tab_shows_the_kind_over_the_section_total() {
    let pieces = tab_counts(&counts(2, 1, 5, 4, 0), DiffFilter::Modified);
    let texts: Vec<&str> = pieces.iter().map(|piece| piece.text.as_str()).collect();
    assert_eq!(texts, vec!["~5", "/12"]);
    assert_eq!(pieces[1].style, PieceStyle::Muted);
}

#[test]
fn filtered_tab_shows_a_zero_count_too() {
    let pieces = tab_counts(&counts(2, 0, 0, 4, 0), DiffFilter::Removed);
    let texts: Vec<&str> = pieces.iter().map(|piece| piece.text.as_str()).collect();
    assert_eq!(texts, vec!["-0", "/6"]);
}

#[test]
fn an_unchanged_section_has_no_count_pieces() {
    assert!(tab_counts(&counts(0, 0, 0, 7, 0), DiffFilter::All).is_empty());
}

#[test]
fn inspect_tabs_carry_the_entry_count_in_the_name() {
    let summary = DiffSummary { variables: counts(12, 0, 0, 0, 0), constraints: counts(4, 0, 0, 0, 0), objectives: counts(1, 0, 0, 0, 0) };
    let label = section_label(Section::Variables, AppMode::Inspect, DiffFilter::All, &summary, None);
    assert_eq!(label.name, "Variables (12)");
    assert!(label.counts.is_empty());
}

#[test]
fn numerics_tab_carries_the_issue_badge() {
    let summary = DiffSummary::default();
    let label = section_label(Section::Numerics, AppMode::Diff, DiffFilter::All, &summary, Some(3));
    assert_eq!(label.name, "Numerics");
    assert_eq!(texts(&label), vec!["!3".to_string()]);
    assert_eq!(label.counts[0].style, PieceStyle::Severity);
    let quiet = section_label(Section::Numerics, AppMode::Diff, DiffFilter::All, &summary, None);
    assert!(quiet.counts.is_empty());
}

#[test]
fn diff_tabs_follow_the_selector_order() {
    let summary = DiffSummary { variables: counts(1, 0, 0, 0, 0), constraints: counts(0, 2, 0, 3, 0), objectives: counts(0, 0, 0, 1, 0) };
    let labels = section_labels(AppMode::Diff, DiffFilter::All, &summary, None);
    let names: Vec<&str> = labels.iter().map(|label| label.name.as_str()).collect();
    assert_eq!(names, vec!["Summary", "Variables", "Constraints", "Objectives", "Numerics"]);
    assert_eq!(texts(&labels[1]), vec!["+1".to_string()]);
    assert_eq!(texts(&labels[2]), vec!["-2".to_string()]);
    assert!(labels[3].counts.is_empty());
}

#[test]
fn count_prefixes_match_the_badges() {
    assert_eq!(count_prefix(DiffKind::Added), "+");
    assert_eq!(count_prefix(DiffKind::Removed), "-");
    assert_eq!(count_prefix(DiffKind::Modified), "~");
    assert_eq!(count_prefix(DiffKind::Renamed), ">");
}
