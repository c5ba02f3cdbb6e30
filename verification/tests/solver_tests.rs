use lp_diff::merge::Pairing;
use lp_diff::solver::{NameRef, RowPresence, count_diffs, name_ref, parse_options, status_is_infeasible, status_is_unbounded};

#[test]
fn parse_options_handles_comments_blanks_and_reserved_keys() {
    let text = "\
# a comment\n\
solver = ipm\n\
\n\
run_crossover=off   # trailing comment\n\
time_limit = 300\n\
log_file = /tmp/hijack.log\n\
output_flag = false\n\
malformed line\n\
empty =\n";

    assert_eq!(
        parse_options(text),
        vec![("solver", "ipm"), ("run_crossover", "off"), ("time_limit", "300")],
        "comments, blanks, malformed and reserved keys must all be dropped"
    );
}

#[test]
fn test_status_is_infeasible() {
    assert!(status_is_infeasible("Infeasible"));
    assert!(status_is_infeasible("UnboundedOrInfeasible"));
    assert!(!status_is_infeasible("Optimal"));
    assert!(!status_is_infeasible("Unbounded"));
}

#[test]
fn the_undecided_status_offers_both_diagnoses() {
    assert!(status_is_unbounded("Unbounded"));
    assert!(status_is_unbounded("UnboundedOrInfeasible"));
    assert!(!status_is_unbounded("Infeasible"));
    assert!(!status_is_unbounded("Optimal"));
    for status in ["Optimal", "Infeasible", "Unbounded", "UnboundedOrInfeasible", ""] {
        assert_eq!(status_is_infeasible(status) && status_is_unbounded(status), status == "UnboundedOrInfeasible");
    }
}

#[test]
fn options_keep_the_first_equals_sign_and_crlf_lines() {
    assert_eq!(parse_options("a = b = c\r\nkey=value"), vec![("a", "b = c"), ("key", "value")]);
    assert_eq!(parse_options("# only a comment"), Vec::<(&str, &str)>::new());
    assert_eq!(parse_options("x = 1 # log_file = y"), vec![("x", "1")]);
}

#[test]
fn diff_counts_read_presence_and_change() {
    let rows = vec![
        RowPresence { in_first: false, in_second: true, changed: true },
        RowPresence { in_first: true, in_second: false, changed: true },
        RowPresence { in_first: true, in_second: true, changed: true },
        RowPresence { in_first: true, in_second: true, changed: false },
        RowPresence { in_first: false, in_second: true, changed: true },
    ];
    let counts = count_diffs(&rows);
    assert_eq!((counts.added, counts.removed, counts.modified), (2, 1, 1));
}

#[test]
fn a_shared_name_is_read_from_the_first_result() {
    assert_eq!(name_ref(Pairing::Both(3, 7)), NameRef { from_result2: false, index: 3 });
    assert_eq!(name_ref(Pairing::OnlyNew(7)), NameRef { from_result2: true, index: 7 });
    assert_eq!(name_ref(Pairing::OnlyOld(2)), NameRef { from_result2: false, index: 2 });
}
