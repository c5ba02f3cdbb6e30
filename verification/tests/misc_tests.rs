use lp_diff::diff_model::{DiffCounts, DiffKind, DiffSummary};
use lp_diff::export::{
    ConstraintChange, ConstraintShape, constraint_csv_detail, diff_report_filename, objective_csv_detail, stamp_from, variable_csv_detail,
};
use lp_diff::highs_query::{Iis, bound_status};
use lp_diff::profile::{fastest, presets};

#[test]
fn test_renamed_counts_in_total_and_changed() {
    let counts = DiffCounts { added: 1, removed: 2, modified: 3, unchanged: 4, order_only: 0, renamed: 5 };
    assert_eq!(counts.total(), 15);
    assert_eq!(counts.changed(), 11);
}

#[test]
fn bound_status_codes_map_to_their_highs_names() {
    assert_eq!(bound_status(-1), "dropped");
    assert_eq!(bound_status(2), "lower");
    assert_eq!(bound_status(3), "upper");
    assert_eq!(bound_status(4), "both");
}

#[test]
fn the_baseline_is_first_and_unconfigured() {
    // Every other row is compared against it, so a configured baseline
    // would silently rebase the whole sweep.
    let presets = presets();
    assert_eq!(presets[0].label, "default");
    assert!(presets[0].options.is_empty(), "the baseline must apply no options");
    assert!(!presets[0].rewrite, "the baseline must solve the model as written");
}

#[test]
fn bound_status_has_a_dash_for_other_codes() {
    assert_eq!(bound_status(1), "free");
    assert_eq!(bound_status(0), "\u{2014}");
    assert_eq!(bound_status(9), "\u{2014}");
}

#[test]
fn an_iis_without_rows_or_columns_is_empty() {
    let empty = Iis {
        status: "Infeasible".to_owned(),
        rows: Vec::new(),
        cols: Vec::new(),
        relaxed_integrality: 0,
        skipped_sos: 0,
        duration: lp_diff::format::Elapsed { secs: 0, nanos: 0 },
    };
    assert!(empty.is_empty());
    let found = Iis { rows: vec![("c1".to_owned(), "upper")], ..empty };
    assert!(!found.is_empty());
}

#[test]
fn ignoring_order_moves_order_only_entries_to_unchanged() {
    let counts = DiffCounts { added: 1, removed: 0, modified: 5, unchanged: 2, order_only: 3, renamed: 0 };
    let ignored = counts.ignoring_order();
    assert_eq!(ignored.modified, 2);
    assert_eq!(ignored.unchanged, 5);
    assert_eq!(ignored.total(), counts.total(), "the section holds as many entries");
}

#[test]
fn the_summary_adds_up_its_sections() {
    let section = |added, removed| DiffCounts { added, removed, modified: 1, unchanged: 9, order_only: 0, renamed: 0 };
    let summary = DiffSummary { variables: section(1, 2), constraints: section(3, 0), objectives: section(0, 1) };
    assert_eq!(summary.total_changes(), 10);
    let all = summary.aggregate_counts();
    assert_eq!((all.added, all.removed, all.modified, all.unchanged), (4, 3, 3, 27));
    assert_eq!(DiffKind::Renamed.label(), "Renamed");
}

#[test]
fn presets_sweep_six_configurations_in_order() {
    let labels: Vec<&str> = presets().iter().map(|preset| preset.label).collect();
    assert_eq!(labels, ["default", "presolve off", "simplex dual", "simplex primal", "ipm", "local presolve"]);
    assert_eq!(presets()[4].options, vec![("solver", "ipm")]);
    assert!(presets()[5].rewrite, "the last preset rewrites before solving");
}

#[test]
fn the_fastest_candidate_wins_and_ties_go_to_the_first() {
    assert_eq!(fastest(&vec![Some(30), None, Some(10), Some(10), Some(20)]), Some(2));
    assert_eq!(fastest(&vec![None, None]), None);
    assert_eq!(fastest(&vec![]), None);
}

#[test]
fn export_names_carry_the_stamp() {
    assert_eq!(diff_report_filename(1_700_000_000), "lp_diff_report_1700000000.csv");
    assert_eq!(stamp_from(None), 0);
    assert_eq!(stamp_from(Some(42)), 42);
}

#[test]
fn variable_rows_name_the_types() {
    assert_eq!(variable_csv_detail(DiffKind::Added, None, Some("Integer")), "Integer");
    assert_eq!(variable_csv_detail(DiffKind::Removed, Some("Binary"), None), "Binary");
    assert_eq!(variable_csv_detail(DiffKind::Modified, Some("Continuous"), Some("Integer")), "Continuous -> Integer");
    assert_eq!(variable_csv_detail(DiffKind::Modified, None, Some("Integer")), "? -> Integer");
    assert_eq!(variable_csv_detail(DiffKind::Renamed, Some("Binary"), Some("Binary")), "");
}

#[test]
fn constraint_rows_list_what_changed() {
    let standard = ConstraintChange::Standard {
        operator: Some(("<=".to_owned(), ">=".to_owned())),
        rhs: Some(("8".to_owned(), "9".to_owned())),
        coefficients: 2,
        order_changed: true,
    };
    assert_eq!(
        constraint_csv_detail(None, false, DiffKind::Modified, &standard),
        "operator: <= -> >=; rhs: 8 -> 9; 2 coefficient(s) changed; order changed"
    );
    let rhs_only = ConstraintChange::Standard { operator: None, rhs: Some(("8".to_owned(), "9".to_owned())), coefficients: 0, order_changed: false };
    assert_eq!(constraint_csv_detail(None, false, DiffKind::Modified, &rhs_only), "rhs: 8 -> 9");
    let sos = ConstraintChange::Sos { sos_type: Some(("S1".to_owned(), "S2".to_owned())), weights: 1, order_changed: false };
    assert_eq!(constraint_csv_detail(None, false, DiffKind::Modified, &sos), "SOS type: S1 -> S2; 1 weight(s) changed");
    assert_eq!(constraint_csv_detail(Some("c_old"), false, DiffKind::Renamed, &ConstraintChange::OneSided), "renamed from c_old");
    assert_eq!(constraint_csv_detail(None, true, DiffKind::Modified, &standard), "order change only");
    assert_eq!(constraint_csv_detail(None, false, DiffKind::Added, &ConstraintChange::OneSided), "");
    let swapped = ConstraintChange::TypeChanged(
        ConstraintShape::Standard { terms: 3, operator: "<=".to_owned(), rhs: "10".to_owned() },
        ConstraintShape::Sos { sos_type: "S1".to_owned(), weights: 2 },
    );
    assert_eq!(constraint_csv_detail(None, false, DiffKind::Modified, &swapped), "Standard(3 coeffs, <=, 10) -> SOS(S1, 2 weights)");
}

#[test]
fn objective_rows_count_the_changes() {
    assert_eq!(objective_csv_detail(false, 3, true), "3 coefficient(s) changed; order changed");
    assert_eq!(objective_csv_detail(true, 0, true), "order change only");
    assert_eq!(objective_csv_detail(false, 0, false), "");
}
