use lp_diff::diff_model::DiffKind;
use lp_diff::state::{AppMode, DiffFilter, JumpEntry, JumpList, PaletteCommand, Section, SolveTab, SortMode};

#[test]
fn test_diff_mode_shows_badges_inspect_does_not() {
    assert!(AppMode::Diff.shows_diff_badges(), "diff mode decorates entries with kind badges");
    assert!(!AppMode::Inspect.shows_diff_badges(), "inspect mode lists plain entries");
}

#[test]
fn test_diff_only_palette_commands_hidden_in_inspect() {
    // Diff-only actions: kind filters, ignore-order, tolerance, raw view, delta sorts.
    let disabled = [
        PaletteCommand::FilterAll,
        PaletteCommand::FilterAdded,
        PaletteCommand::FilterRemoved,
        PaletteCommand::FilterModified,
        PaletteCommand::FilterRenamed,
        PaletteCommand::ToggleRawView,
        PaletteCommand::ToggleIgnoreOrder,
        PaletteCommand::CycleSort,
        PaletteCommand::CycleRelTol,
        PaletteCommand::CycleAbsTol,
        PaletteCommand::YankOld,
        PaletteCommand::YankNew,
    ];
    for command in disabled {
        assert!(!command.available_in_inspect(), "{command:?} must be hidden in inspect mode");
    }
}

#[test]
fn test_core_palette_commands_available_in_inspect() {
    // Everything that still does something in a single-file view stays offered.
    let available = [
        PaletteCommand::GoSummary,
        PaletteCommand::GoVariables,
        PaletteCommand::GoConstraints,
        PaletteCommand::GoObjectives,
        PaletteCommand::GoNumerics,
        PaletteCommand::OpenSearch,
        PaletteCommand::NextMatch,
        PaletteCommand::PrevMatch,
        PaletteCommand::JumpBack,
        PaletteCommand::JumpForward,
        PaletteCommand::Solve,
        PaletteCommand::WhatIf,
        PaletteCommand::ExportCsv,
        PaletteCommand::YankName,
        PaletteCommand::YankDetail,
        PaletteCommand::ShowHelp,
        PaletteCommand::Quit,
    ];
    for command in available {
        assert!(command.available_in_inspect(), "{command:?} must remain available in inspect mode");
    }
}

#[test]
fn solve_tabs_cycle_in_both_directions() {
    for tab in SolveTab::all() {
        assert_eq!(tab.next().prev(), tab);
        assert_eq!(tab.prev().next(), tab);
    }
    assert_eq!(SolveTab::all()[4].next(), SolveTab::all()[0], "the last tab wraps to the first");
}

#[test]
fn section_indices_round_trip() {
    for (position, section) in Section::all().into_iter().enumerate() {
        assert_eq!(section.index(), position);
        assert_eq!(Section::from_index(position), section);
    }
    assert_eq!(Section::Summary.list_index(), None);
    assert_eq!(Section::Numerics.list_index(), None);
    assert_eq!(Section::Objectives.list_index(), Some(2));
    assert_eq!(Section::Constraints.label(), "Constraints");
}

#[test]
fn a_filter_selects_only_its_kind() {
    assert!(DiffFilter::All.matches(DiffKind::Renamed));
    assert!(DiffFilter::Added.matches(DiffKind::Added));
    assert!(!DiffFilter::Added.matches(DiffKind::Removed));
    assert!(!DiffFilter::Modified.matches(DiffKind::Renamed));
}

#[test]
fn sort_modes_cycle_through_all_three() {
    let start = SortMode::Name;
    assert_ne!(start.next(), start);
    assert_ne!(start.next().next(), start);
    assert_eq!(start.next().next().next(), start);
    assert_eq!(SortMode::Name.label(), None);
}

fn jump(name: &str) -> JumpEntry {
    JumpEntry { section: Section::Variables, entry_name: Some(name.to_owned()), detail_scroll: 0, filter: DiffFilter::All }
}

fn name_of(entry: Option<&JumpEntry>) -> Option<String> {
    entry.and_then(|entry| entry.entry_name.clone())
}

#[test]
fn jumplist_push_then_back_returns_to_the_pushed_entry() {
    let mut jumps = JumpList::new();
    assert!(jumps.go_back(jump("live")).is_none(), "an empty jumplist has nowhere to go");
    jumps.push(jump("x1"));
    jumps.push(jump("x2"));
    assert_eq!(name_of(jumps.go_back(jump("x3"))), Some("x2".to_owned()));
    assert_eq!(name_of(jumps.go_back(jump("unused"))), Some("x1".to_owned()));
    assert!(jumps.go_back(jump("unused")).is_none());
    assert_eq!(name_of(jumps.go_forward()), Some("x2".to_owned()));
    // A push discards the forward history.
    jumps.push(jump("x4"));
    assert!(jumps.go_forward().is_none());
    assert_eq!(name_of(jumps.go_back(jump("x5"))), Some("x4".to_owned()));
}

#[test]
fn jumping_back_then_forward_returns_to_the_newer_position() {
    let mut jumps = JumpList::new();
    jumps.push(JumpEntry { section: Section::Summary, entry_name: None, detail_scroll: 0, filter: DiffFilter::All });
    jumps.push(JumpEntry { section: Section::Constraints, entry_name: Some("c1".to_owned()), detail_scroll: 0, filter: DiffFilter::All });
    let newest = JumpEntry { section: Section::Variables, entry_name: None, detail_scroll: 0, filter: DiffFilter::All };

    let back = jumps.go_back(newest).map(|entry| (entry.section, entry.entry_name.clone()));
    assert_eq!(back, Some((Section::Constraints, Some("c1".to_owned()))), "Ctrl+o returns to Constraints");

    assert_eq!(jumps.go_forward().map(|entry| entry.section), Some(Section::Variables), "Ctrl+i returns to the newer position");
    assert!(jumps.go_forward().is_none(), "there is nothing newer to go forward to");
    let again = jumps.go_back(JumpEntry { section: Section::Variables, entry_name: None, detail_scroll: 0, filter: DiffFilter::All });
    assert_eq!(again.map(|entry| entry.section), Some(Section::Constraints), "and Ctrl+o still goes back");
}

#[test]
fn jumplist_keeps_at_most_its_capacity() {
    let mut jumps = JumpList::new();
    for index in 0..150 {
        jumps.push(jump(&format!("x{index}")));
    }
    let mut steps = 0;
    let mut oldest = None;
    while let Some(entry) = jumps.go_back(jump("live")) {
        oldest = entry.entry_name.clone();
        steps += 1;
    }
    assert_eq!(steps, 99, "the history is capped, the live position taking the newest slot");
    assert_eq!(oldest, Some("x51".to_owned()), "the oldest entries are the ones dropped");
}

#[test]
fn after_101_pushes_going_back_walks_newest_first_and_never_reaches_the_first() {
    let mut jumps = JumpList::new();
    for index in 0..=100 {
        jumps.push(jump(&format!("e{index}")));
    }
    let mut seen = Vec::new();
    while let Some(entry) = jumps.go_back(jump("live")) {
        seen.push(entry.entry_name.clone().unwrap());
    }
    let expected: Vec<String> = (2..=100).rev().map(|index| format!("e{index}")).collect();
    assert_eq!(seen, expected);
    assert!(seen.len() <= 100);
    assert!(!seen.contains(&"e0".to_owned()));
}

#[test]
fn palette_commands_are_listed_in_order() {
    let all = PaletteCommand::all();
    assert_eq!(all[0], PaletteCommand::GoSummary);
    for (index, command) in all.iter().enumerate() {
        assert_eq!(PaletteCommand::at(index), *command);
    }
    assert!(!PaletteCommand::Quit.label().is_empty());
}

#[test]
fn each_sort_mode_names_itself_when_chosen() {
    assert_eq!(SortMode::Name.flash_text(), "Sort: name");
    assert_eq!(SortMode::AbsDelta.flash_text(), "Sort: |\u{394}| (largest first)");
    assert_eq!(SortMode::RelDelta.flash_text(), "Sort: rel\u{394} (largest first)");
}
