use lp_diff::format::{Elapsed, fmt_duration, fmt_duration_parts, plural};

#[test]
fn fmt_duration_scales_its_unit() {
    assert_eq!(fmt_duration(Elapsed { secs: 0, nanos: 0 }), "0.0ms");
    assert_eq!(fmt_duration(Elapsed { secs: 0, nanos: 400_000 }), "0.4ms");
    assert_eq!(fmt_duration(Elapsed { secs: 0, nanos: 38_000_000 }), "38ms");
    assert_eq!(fmt_duration(Elapsed { secs: 1, nanos: 240_000_000 }), "1.24s");
    assert_eq!(fmt_duration(Elapsed { secs: 125, nanos: 0 }), "2m 05s");
}

#[test]
fn plural_agrees_with_the_count() {
    assert_eq!(plural(1, "pass", "passes"), "1 pass");
    assert_eq!(plural(3, "row", "rows"), "3 rows");
    assert_eq!(plural(0, "row", "rows"), "0 rows");
}

#[test]
fn fmt_duration_rounds_at_each_boundary() {
    assert_eq!(fmt_duration_parts(0, 9_999_999), "10.0ms");
    assert_eq!(fmt_duration_parts(0, 10_000_000), "10ms");
    assert_eq!(fmt_duration_parts(0, 999_400_000), "999ms");
    assert_eq!(fmt_duration_parts(59, 994_000_000), "59.99s");
    assert_eq!(fmt_duration_parts(60, 0), "1m 00s");
    assert_eq!(fmt_duration_parts(3_725, 0), "62m 05s");
}

#[test]
fn fmt_duration_reads_the_duration_it_is_given() {
    // Not the zero duration: the seconds and nanoseconds are read from the argument.
    assert_eq!(fmt_duration(Elapsed { secs: 2, nanos: 500_000_000 }), "2.50s");
}

#[test]
fn fmt_duration_rounds_exact_halves_to_even() {
    assert_eq!(fmt_duration_parts(0, 250_000), "0.2ms");
    assert_eq!(fmt_duration_parts(0, 750_000), "0.8ms");
    assert_eq!(fmt_duration_parts(0, 12_500_000), "12ms");
    assert_eq!(fmt_duration_parts(0, 13_500_000), "14ms");
    assert_eq!(fmt_duration_parts(1, 125_000_000), "1.12s");
    assert_eq!(fmt_duration_parts(0, 250_001), "0.3ms");
}
