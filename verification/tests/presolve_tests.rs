use lp_diff::diagnostics::{Degeneracy, Verdict, aggregate_degeneracy, judge, parse_presolve_reductions, parse_telemetry};
use lp_diff::format::Elapsed;
use lp_diff::highs_presolve::{HighsPresolveReport, removed};
use lp_diff::presolve::{MAX_PASSES, PassStats, PresolveStats, Rule, after_pass, all_rules, enabled, runs_rule};

#[test]
fn rules_are_indexed_in_application_order() {
    for (position, rule) in Rule::all().into_iter().enumerate() {
        assert_eq!(rule.index(), position);
        assert!(!rule.label().is_empty() && !rule.detail().is_empty());
    }
    assert_eq!(Rule::SingletonToBound.label(), "Singleton rows \u{2192} bounds");
    let mut rules = all_rules();
    assert!(enabled(rules, Rule::RowScaling));
    rules[Rule::RowScaling.index()] = false;
    assert!(!enabled(rules, Rule::RowScaling));
    assert!(enabled(rules, Rule::ColumnScaling));
}

#[test]
fn after_infeasibility_only_the_first_two_rules_run() {
    let rules = all_rules();
    assert!(runs_rule(rules, Rule::FixedToRhs, true));
    assert!(runs_rule(rules, Rule::SingletonToBound, true));
    assert!(!runs_rule(rules, Rule::BoundPropagation, true));
    assert!(runs_rule(rules, Rule::BoundPropagation, false));
    let mut none = all_rules();
    none[Rule::FixedToRhs.index()] = false;
    assert!(!runs_rule(none, Rule::FixedToRhs, false));
}

#[test]
fn a_run_stops_at_the_fixpoint_or_on_infeasibility() {
    let empty = PassStats::default();
    let busy = PassStats { rows_removed: 1, ..PassStats::default() };
    assert!(empty.is_empty() && !busy.is_empty());
    assert_eq!(after_pass(empty, false, 0), (false, true), "an empty pass is the fixpoint");
    assert_eq!(after_pass(busy, false, 0), (true, false));
    assert_eq!(after_pass(busy, true, 0), (true, true), "infeasibility stops the run");
    assert_eq!(after_pass(busy, false, MAX_PASSES - 1), (true, true), "the last pass allowed");
}

#[test]
fn with_every_rule_disabled_a_run_is_a_no_op() {
    let none = [false; 8];
    for rule in Rule::all() {
        assert!(!runs_rule(none, rule, false), "{} does not run", rule.label());
        assert!(!runs_rule(none, rule, true));
    }
    assert_eq!(after_pass(PassStats::default(), false, 0), (false, true), "nothing recorded, and the run stops");
}

fn stats(per_pass: Vec<PassStats>, infeasible: Option<String>) -> PresolveStats {
    PresolveStats { per_pass, rows_before: 10, rows_after: 7, cols: 5, duration: Elapsed { secs: 0, nanos: 12_340_000 }, infeasible }
}

#[test]
fn presolve_headline_reports_totals() {
    let passes = vec![
        PassStats { rows_removed: 2, cols_fixed: 1, bounds_tightened: 3, terms_removed: 4, ..PassStats::default() },
        PassStats { rows_removed: 1, cols_fixed: 1, rows_scaled: 2, ..PassStats::default() },
    ];
    let run = stats(passes, None);
    assert_eq!((run.rows_removed(), run.cols_fixed(), run.bounds_tightened()), (3, 2, 3));
    assert_eq!(run.headline(), "presolve: -3 rows, 2 cols fixed, 3 bounds, -4 nnz, 2r/0c scaled, 2 pass(es), 12.3ms");
    assert_eq!(stats(Vec::new(), None).headline(), "presolve: no change");
    assert!(stats(Vec::new(), None).is_noop());
    assert_eq!(stats(Vec::new(), Some("row c1 cannot hold".to_owned())).headline(), "presolve: infeasible \u{2014} row c1 cannot hold");
    let quiet = stats(vec![PassStats { bounds_tightened: 1, ..PassStats::default() }], None);
    assert_eq!(quiet.headline_parts(0, 60_000), "presolve: -3 rows, 0 cols fixed, 1 bounds, 1 pass(es), 0.1ms");
}

fn report(rows_after: usize, cols_after: usize, infeasible: bool) -> HighsPresolveReport {
    HighsPresolveReport {
        rows_before: 3,
        rows_after,
        cols_before: 2,
        cols_after,
        nnz_after: 4,
        removed_rows: vec!["c2".to_owned()],
        removed_cols: Vec::new(),
        infeasible,
        skipped_sos: 1,
        duration: Elapsed { secs: 0, nanos: 2_000_000 },
    }
}

#[test]
fn highs_presolve_reports_read_as_a_headline_and_a_log() {
    assert_eq!(report(2, 2, false).headline(), "HiGHS presolve: -1 rows, -0 cols, 2 rows x 2 cols x 4 nnz left, 2.0ms");
    assert_eq!(report(0, 0, false).headline(), "HiGHS presolve: solved the model outright \u{2014} nothing left, 2.0ms");
    assert_eq!(report(3, 2, false).headline(), "HiGHS presolve: no reduction, 2.0ms");
    assert_eq!(report(0, 0, true).headline(), "HiGHS presolve: proved the model infeasible");
    assert!(report(3, 2, false).is_noop() && report(0, 0, false).reduced_to_empty());
    assert_eq!(
        report(2, 2, false).log_text(),
        "HiGHS presolve: -1 rows, -0 cols, 2 rows x 2 cols x 4 nnz left, 2.0ms\n1 SOS set(s) are not part of the model HiGHS sees\n\nrow removed  c2\n"
    );
}

#[test]
fn removed_names_keep_the_order_they_were_passed_in() {
    let passed = vec!["a".to_owned(), "b".to_owned(), "c".to_owned(), "d".to_owned()];
    let survivors = vec!["d".to_owned(), "b".to_owned()];
    assert_eq!(removed(&passed, &survivors), vec!["a".to_owned(), "c".to_owned()]);
    assert!(removed(&passed, &passed).is_empty());
}

#[test]
fn telemetry_is_read_out_of_a_real_highs_log() {
    let log = "\
LP has 140 rows; 162 cols; 1215 nonzeros
Presolve reductions: rows 122(-18); columns 162(-0); nonzeros 813(-402)
Model status        : Optimal
Simplex   iterations: 131
P-D objective error :  1.8015862075e-16
HiGHS run time      :          0.04
";
    let telemetry = parse_telemetry(log);

    assert_eq!(telemetry.iterations, Some(131));
    assert_eq!(telemetry.presolved, Some((122, 162, 813)));
    let run_time = telemetry.run_time.as_deref().and_then(|text| text.parse::<f64>().ok());
    assert_eq!(run_time, Some(0.04));
    let objective_error = telemetry.objective_error.as_deref().and_then(|text| text.parse::<f64>().ok());
    assert!(objective_error.is_some_and(|error| error < 1e-15));
}

#[test]
fn a_missing_log_line_leaves_its_field_empty() {
    let telemetry = parse_telemetry("Model status        : Optimal\n");

    assert_eq!(telemetry.iterations, None);
    assert_eq!(telemetry.presolved, None);
}

#[test]
fn telemetry_lines_are_trimmed_and_the_last_one_wins() {
    assert_eq!(parse_telemetry("  Simplex iterations: 7  \r\n").iterations, Some(7), "trimmed, the short form");
    let log = "HiGHS run time      : 0.5\nHiGHS run time      :   1.25  \n";
    assert_eq!(parse_telemetry(log).run_time.as_deref(), Some("1.25"));
    assert_eq!(parse_telemetry("P-D objective error : n/a\n").objective_error.as_deref(), Some("n/a"), "kept as printed");
}

#[test]
fn reductions_need_all_three_counts() {
    assert_eq!(parse_presolve_reductions("Presolve reductions: rows 122(-18); columns 162(-0); nonzeros 813(-402)"), Some((122, 162, 813)));
    assert_eq!(parse_presolve_reductions("Presolve reductions: rows 122(-18); columns 162(-0)"), None);
    assert_eq!(parse_presolve_reductions("rows x; columns 1; nonzeros 2"), None);
}

#[test]
fn the_verdict_follows_the_iteration_count_then_its_cause() {
    let degenerate = Degeneracy { rows_binding: 10, rows_degenerate: 3, vars_at_bound: 0, vars_degenerate: 0 };
    let healthy_dual = Degeneracy { rows_degenerate: 2, ..degenerate };
    assert_eq!(judge(false, Some(1000), 2, Some(degenerate), true), Verdict::Unknown);
    assert_eq!(judge(true, None, 2, None, true), Verdict::Healthy, "settled by the solver's presolve");
    assert_eq!(judge(true, Some(9), 2, None, true), Verdict::Healthy, "under five per row");
    assert_eq!(judge(true, Some(10), 2, Some(degenerate), true), Verdict::Degenerate, "30% degenerate");
    assert_eq!(judge(true, Some(10), 2, Some(healthy_dual), true), Verdict::IllConditioned);
    assert_eq!(judge(true, Some(10), 2, Some(healthy_dual), false), Verdict::Elevated);
    assert!(Verdict::Unknown.advice().is_empty() && !Verdict::Degenerate.advice().is_empty());
    assert!(Verdict::Healthy.summary().starts_with("Iteration count is in the normal range"));
}

#[test]
fn degeneracy_totals_count_the_flags() {
    let totals = aggregate_degeneracy(&vec![true, true, false], &vec![true, false, false], &vec![false], &vec![]);
    assert_eq!(totals, Degeneracy { rows_binding: 2, rows_degenerate: 1, vars_at_bound: 0, vars_degenerate: 0 });
}

#[test]
fn the_highs_log_opens_with_its_headline() {
    for shape in [report(2, 2, false), report(0, 0, false), report(3, 2, false), report(0, 0, true)] {
        let head = shape.headline();
        assert!(shape.log_text().starts_with(&format!("{head}\n")));
    }
}
