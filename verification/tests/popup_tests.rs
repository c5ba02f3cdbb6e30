use lp_diff::diff_model::DiffKind;
use lp_diff::popup::{all_results, fuzzy_search, palette_filter, search_results, sorted_positions, visible_indices};
use lp_diff::search::CompiledSearch;
use lp_diff::session::HaystackEntry;
use lp_diff::state::{DiffFilter, PaletteCommand, Section};

fn haystack() -> (Vec<HaystackEntry>, Vec<String>) {
    let entries = vec![
        HaystackEntry { section: Section::Variables, index: 0, kind: DiffKind::Added },
        HaystackEntry { section: Section::Constraints, index: 0, kind: DiffKind::Modified },
        HaystackEntry { section: Section::Constraints, index: 1, kind: DiffKind::Removed },
    ];
    let names = vec!["flow_var".to_owned(), "capacity".to_owned(), "cap_limit".to_owned()];
    (entries, names)
}

#[test]
fn a_list_shows_the_entries_its_filter_passes() {
    let entries = vec![(DiffKind::Added, false), (DiffKind::Modified, true), (DiffKind::Modified, false), (DiffKind::Removed, false)];
    assert_eq!(visible_indices(&entries, DiffFilter::All, false), vec![0, 1, 2, 3]);
    assert_eq!(visible_indices(&entries, DiffFilter::All, true), vec![0, 2, 3], "order-only entries hidden");
    assert_eq!(visible_indices(&entries, DiffFilter::Modified, false), vec![1, 2]);
    assert_eq!(visible_indices(&entries, DiffFilter::Renamed, false), Vec::<usize>::new());
}

#[test]
fn an_empty_query_lists_every_entry() {
    let (entries, _) = haystack();
    let results = all_results(&entries);
    assert_eq!(results.len(), 3);
    assert_eq!((results[2].section, results[2].entry_index, results[2].haystack_index), (Section::Constraints, 1, 2));
    assert!(results.iter().all(|result| result.score == 0 && result.match_indices.is_empty()));
}

#[test]
fn a_substring_search_keeps_matching_entries_in_order() {
    let (entries, names) = haystack();
    let results = search_results(&entries, &names, &CompiledSearch::compile("s:CAP"));
    let hits: Vec<usize> = results.iter().map(|result| result.haystack_index).collect();
    assert_eq!(hits, vec![1, 2]);
    assert_eq!(results[1].kind, DiffKind::Removed);
    let none = search_results(&entries, &names, &CompiledSearch::compile("r:[bad"));
    assert!(none.is_empty(), "an invalid regex matches nothing");
}

#[test]
fn a_fuzzy_search_ranks_names_and_sorts_the_matched_positions() {
    let (entries, names) = haystack();
    let results = fuzzy_search("cap", &entries, &names);
    assert!(!results.is_empty(), "two names start with cap");
    for result in &results {
        assert!(names[result.haystack_index].starts_with("cap"));
        assert_eq!(entries[result.haystack_index].index, result.entry_index);
        assert!(result.match_indices.windows(2).all(|pair| pair[0] <= pair[1]), "ascending positions");
    }
    assert!(fuzzy_search("zzzz", &entries, &names).is_empty());
}

#[test]
fn matched_positions_come_back_ascending() {
    assert_eq!(sorted_positions(&vec![5, 2, 9, 2]), vec![2, 2, 5, 9]);
    assert_eq!(sorted_positions(&vec![]), Vec::<usize>::new());
}

#[test]
fn the_palette_offers_only_what_the_mode_can_do() {
    let everything = palette_filter("", false);
    assert_eq!(everything.len(), PaletteCommand::all().len());
    let inspect = palette_filter("", true);
    assert!(inspect.iter().all(|&index| PaletteCommand::at(index).available_in_inspect()));
    assert!(inspect.len() < everything.len());
    let quit = PaletteCommand::all().iter().position(|command| *command == PaletteCommand::Quit).expect("quit is listed");
    assert!(palette_filter("quit", true).contains(&quit));
}
