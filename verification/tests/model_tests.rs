use lp_diff::diff_model::{Classified, DiffCounts, DiffKind, PairResult, classify_section};
use lp_diff::merge::{NameOrder, Pairing, compare_names, merge_names, names_reordered, sort_by_name};
use lp_diff::rename::{Slot, apply_renames, build_rename_rules, pair_renames, rename_buckets, rewrite_name, splice_renames};

fn strings(names: &[&str]) -> Vec<String> {
    names.iter().map(|name| (*name).to_owned()).collect()
}

#[test]
fn merging_sorted_lists_pairs_equal_names() {
    let old = strings(&["a", "c", "d"]);
    let new = strings(&["b", "c", "e"]);
    assert_eq!(
        merge_names(&old, &new),
        vec![Pairing::OnlyOld(0), Pairing::OnlyNew(0), Pairing::Both(1, 1), Pairing::OnlyOld(2), Pairing::OnlyNew(2)]
    );
    assert_eq!(merge_names(&strings(&[]), &strings(&["x"])), vec![Pairing::OnlyNew(0)]);
}

#[test]
fn names_order_by_bytes() {
    assert_eq!(compare_names(&"Z".to_owned(), &"a".to_owned()), NameOrder::Less, "upper case sorts first");
    assert_eq!(compare_names(&"ab".to_owned(), &"a".to_owned()), NameOrder::Greater, "a prefix sorts first");
    assert_eq!(compare_names(&"x".to_owned(), &"x".to_owned()), NameOrder::Equal);
}

#[test]
fn test_rename_rules_apply_in_sequence() {
    // Rule 1 strips `_vN` suffix; rule 2 renames `x` to `y`.
    // Neither rule alone matches `x_v1` with `y`, so both must run, in order.
    let rules = build_rename_rules(&strings(&[r"_v\d+$", "", "^x$", "y"])).expect("valid rules");
    assert_eq!(rewrite_name(&rules, "x_v1"), "y");
    let first_only = build_rename_rules(&strings(&[r"_v\d+$", ""])).expect("valid rule");
    assert_eq!(rewrite_name(&first_only, "x_v1"), "x", "the first rule alone leaves x");
    assert_eq!(rewrite_name(&Vec::new(), "x_v1"), "x_v1", "no rules leave the name unchanged");
}

#[test]
fn rename_rules_collapse_indices() {
    let rules = build_rename_rules(&strings(&[r"\[\d+\]$", "[idx]"])).expect("valid rule");
    assert_eq!(rewrite_name(&rules, "c[1]"), "c[idx]");
    assert_eq!(rewrite_name(&rules, "c[9]"), "c[idx]");
    assert_eq!(rewrite_name(&rules, "c"), "c", "no match leaves the name");
}

#[test]
fn rename_rules_are_checked_before_use() {
    let odd = build_rename_rules(&strings(&["a"]));
    assert_eq!(odd.err(), Some("--rename requires pairs of PATTERN REPLACEMENT".to_owned()));
    let bad = build_rename_rules(&strings(&["ok", "x", "[bad", "y"])).err().expect("an unclosed class is refused");
    assert!(bad.starts_with("invalid --rename pattern '[bad': "), "{bad}");
    assert!(build_rename_rules(&strings(&[])).expect("no rules").is_empty());
}

#[test]
fn renames_pair_greedily_and_each_candidate_once() {
    // Removed 0 matches added 0 and 1; removed 1 matches only added 0, which is taken.
    let table = vec![vec![true, true], vec![true, false], vec![false, true]];
    assert_eq!(pair_renames(&table, 2), vec![(0, 0), (2, 1)]);
    assert_eq!(pair_renames(&vec![], 3), vec![]);
    assert_eq!(pair_renames(&vec![vec![false]], 1), vec![]);
}

#[test]
fn oversized_rename_buckets_are_skipped() {
    let table = vec![vec![true; 1000]; 251];
    assert!(pair_renames(&table, 1000).is_empty(), "251 x 1000 candidate pairs exceed the cap");
    let table = vec![vec![true; 1000]; 250];
    assert_eq!(pair_renames(&table, 1000).len(), 250, "250 x 1000 is within the cap");
}

#[test]
fn a_rename_counts_once() {
    let counts = DiffCounts { added: 3, removed: 2, modified: 1, unchanged: 4, order_only: 0, renamed: 0 };
    let renamed = apply_renames(counts, 2);
    assert_eq!((renamed.added, renamed.removed, renamed.renamed), (1, 0, 2));
    assert_eq!(renamed.total(), counts.total() - 2);
    assert_eq!(renamed.changed(), counts.changed() - 2);
}

#[test]
fn reordering_needs_the_same_names_in_another_order() {
    let names = |list: &[&str]| list.iter().map(|name| (*name).to_owned()).collect::<Vec<String>>();
    assert!(names_reordered(&names(&["x", "y", "z"]), &names(&["z", "x", "y"])));
    assert!(!names_reordered(&names(&["x", "y"]), &names(&["x", "y"])), "the same order is no reordering");
    assert!(!names_reordered(&names(&["x", "y"]), &names(&["x", "w"])), "a different name is a change, not a reordering");
    assert!(!names_reordered(&names(&["x", "y"]), &names(&["y"])), "lists of different lengths");
    assert!(names_reordered(&names(&["x", "x", "y"]), &names(&["x", "y", "x"])), "repeated names count as often as they occur");
    assert!(!names_reordered(&names(&["x", "x", "y"]), &names(&["x", "y", "y"])));
}

#[test]
fn a_model_text_parses_and_places_its_constraints() {
    let text = "Minimize\n obj: x + 2 y\nSubject To\n c1: x + y >= 1\n c2: x - y <= 3\nEnd\n";
    let parsed = lp_diff::source::parse_lp_source("m.lp", text).expect("a well-formed model parses");
    assert_eq!(parsed.lines.len(), parsed.offsets.len());
    assert_eq!(parsed.lines.len(), 2);
    assert_eq!(parsed.lines, vec![Some(4), Some(5)]);
}

#[test]
fn a_text_that_does_not_parse_names_its_source() {
    let failed = lp_diff::source::parse_lp_source("broken.lp", "Minimize\n obj: x +\nSubject To\n c1: >= >=\n");
    let message = failed.err().expect("malformed text is refused");
    assert!(message.starts_with("failed to parse 'broken.lp': "), "{message}");
}

#[test]
fn a_section_is_classified_step_by_step_and_counted() {
    let old: Vec<String> = ["a", "b", "c"].iter().map(|s| s.to_string()).collect();
    let new: Vec<String> = ["b", "c", "d"].iter().map(|s| s.to_string()).collect();
    let steps = merge_names(&old, &new);
    assert_eq!(steps, vec![Pairing::OnlyOld(0), Pairing::Both(1, 0), Pairing::Both(2, 1), Pairing::OnlyNew(2)]);
    let results = vec![PairResult::Unchanged, PairResult::Modified { order_only: true }];
    let (entries, counts) = classify_section(&steps, &results);
    assert_eq!(
        entries,
        vec![
            Classified { step: 0, kind: DiffKind::Removed, order_only: false },
            Classified { step: 2, kind: DiffKind::Modified, order_only: true },
            Classified { step: 3, kind: DiffKind::Added, order_only: false },
        ]
    );
    assert_eq!(
        (counts.added, counts.removed, counts.modified, counts.unchanged, counts.order_only, counts.renamed),
        (1, 1, 1, 1, 1, 0)
    );
    assert_eq!(counts.total(), steps.len(), "every step is counted once");
    assert_eq!(counts.changed(), entries.len(), "only the changed steps are stored");
}

#[test]
fn rename_candidates_share_a_bucket_exactly_when_their_keys_agree() {
    let keys = vec![(1u8, 2usize), (0, 2), (1, 2), (1, 3), (0, 2)];
    let (buckets, distinct) = rename_buckets(&keys);
    assert_eq!(distinct, vec![(1, 2), (0, 2), (1, 3)], "first appearances, in order");
    assert_eq!(buckets, vec![0, 1, 0, 2, 1]);
    assert_eq!(rename_buckets(&Vec::new()), (Vec::new(), Vec::new()));
}

#[test]
fn renamed_pairs_are_spliced_in_by_name() {
    let names = strings(&["a", "b_old", "c", "d", "z_new"]);
    // "b_old" (removed) and "z_new" (added) are one constraint renamed.
    let order = splice_renames(&names, &vec![(1, 4)]);
    assert_eq!(order, vec![Slot::Kept(0), Slot::Kept(2), Slot::Kept(3), Slot::Renamed(0)]);
    let names = strings(&["a", "c_new", "m", "x_old", "y"]);
    assert_eq!(splice_renames(&names, &vec![(3, 1)]), vec![Slot::Kept(0), Slot::Renamed(0), Slot::Kept(2), Slot::Kept(4)]);
    assert_eq!(splice_renames(&names, &Vec::new()), (0..5).map(Slot::Kept).collect::<Vec<_>>());
}

#[test]
fn names_sort_by_bytes_keeping_equal_names_in_place() {
    let names = strings(&["c2", "a", "c10", "b", "a"]);
    let (sorted, order) = sort_by_name(&names);
    assert_eq!(sorted, strings(&["a", "a", "b", "c10", "c2"]));
    assert_eq!(order, vec![1, 4, 3, 2, 0]);
}
