//! Model conditioning diagnostics: the overall reading of why a solve took
//! the iterations it did, the degeneracy totals behind it, and the figures
//! the solver's own log reports about the run.
use vstd::prelude::*;

use crate::lines::{line_ranges, range_texts, ranges_within, text_lines};
use crate::text::{
    chars_of, string_from, is_digit, is_white_space, parse_unsigned, parse_unsigned_chars, sub_chars, trim, trim_bounds,
    trim_start, trim_start_chars,
};

verus! {

/// Degeneracy totals, aggregated from the per-entity records.
#[derive(Debug, Clone, Copy, Default, PartialEq, Eq, Structural)]
pub struct Degeneracy {
    pub rows_binding: usize,
    pub rows_degenerate: usize,
    pub vars_at_bound: usize,
    pub vars_degenerate: usize,
}

/// The overall reading, so the pane can lead with a conclusion, not a table.
#[derive(Debug, Clone, Copy, PartialEq, Eq, Structural)]
pub enum Verdict {
    /// No solve yet: nothing to judge.
    Unknown,
    Healthy,
    /// Iteration count is high and degeneracy looks like the reason.
    Degenerate,
    /// Iteration count is high and the coefficient ranges are wide.
    IllConditioned,
    /// Iteration count is high without an obvious structural cause.
    Elevated,
}

impl Verdict {
    pub open spec fn spec_summary(self) -> Seq<char> {
        match self {
            Verdict::Unknown => "No solve yet \u{2014} press S to solve, then reopen for a reading"@,
            Verdict::Healthy => "Iteration count is in the normal range for this model size"@,
            Verdict::Degenerate => "Degeneracy is the prime suspect: many active rows carry a zero dual"@,
            Verdict::IllConditioned => "Wide coefficient ranges: the model is ill-conditioned"@,
            Verdict::Elevated => "Iteration count is high with no single structural cause"@,
        }
    }

    pub open spec fn spec_advice(self) -> Seq<char> {
        match self {
            Verdict::Unknown | Verdict::Healthy => ""@,
            Verdict::Degenerate => "Scaling will not help. Look at the degenerate rows below \u{2014} redundant or near-parallel constraints are the usual source."@,
            Verdict::IllConditioned => "Rescale the worst rows/columns below, or re-express their units so coefficients sit nearer 1."@,
            Verdict::Elevated => "Check the worst-conditioned and densest entries below; compare against a presolved run (P)."@,
        }
    }

    /// Headline shown at the top of the pane.
    pub fn summary(self) -> (res: &'static str)
        ensures
            res@ == self.spec_summary(),
    {
        match self {
            Verdict::Unknown => "No solve yet \u{2014} press S to solve, then reopen for a reading",
            Verdict::Healthy => "Iteration count is in the normal range for this model size",
            Verdict::Degenerate => "Degeneracy is the prime suspect: many active rows carry a zero dual",
            Verdict::IllConditioned => "Wide coefficient ranges: the model is ill-conditioned",
            Verdict::Elevated => "Iteration count is high with no single structural cause",
        }
    }

    /// What to do about it.
    pub fn advice(self) -> (res: &'static str)
        ensures
            res@ == self.spec_advice(),
    {
        match self {
            Verdict::Unknown | Verdict::Healthy => "",
            Verdict::Degenerate => "Scaling will not help. Look at the degenerate rows below \u{2014} redundant or near-parallel constraints are the usual source.",
            Verdict::IllConditioned => "Rescale the worst rows/columns below, or re-express their units so coefficients sit nearer 1.",
            Verdict::Elevated => "Check the worst-conditioned and densest entries below; compare against a presolved run (P).",
        }
    }
}

/// How many of a list of flags are set.
pub open spec fn count_set(flags: Seq<bool>) -> nat
    decreases flags.len(),
{
    if flags.len() == 0 {
        0
    } else {
        count_set(flags.drop_last()) + if flags.last() { 1nat } else { 0nat }
    }
}

proof fn lemma_count_set_bounded(flags: Seq<bool>)
    ensures
        count_set(flags) <= flags.len(),
    decreases flags.len(),
{
    if flags.len() > 0 {
        lemma_count_set_bounded(flags.drop_last());
    }
}

fn count_flags(flags: &Vec<bool>) -> (res: usize)
    ensures
        res == count_set(flags@),
{
    let mut count: usize = 0;
    let mut i: usize = 0;
    while i < flags.len()
        invariant
            i <= flags@.len(),
            count == count_set(flags@.take(i as int)),
        decreases flags@.len() - i,
    {
        proof {
            assert(flags@.take(i + 1).drop_last() =~= flags@.take(i as int));
            lemma_count_set_bounded(flags@.take(i as int));
        }
        if flags[i] {
            count = count + 1;
        }
        i = i + 1;
    }
    assert(flags@.take(i as int) =~= flags@);
    count
}

/// Totals over the per-entity records, for the headline: how many rows are
/// binding and how many of those degenerate, how many variables sit at a
/// bound and how many of those degenerate.
pub fn aggregate_degeneracy(
    rows_binding: &Vec<bool>,
    rows_degenerate: &Vec<bool>,
    vars_at_bound: &Vec<bool>,
    vars_degenerate: &Vec<bool>,
) -> (res: Degeneracy)
    ensures
        res.rows_binding == count_set(rows_binding@),
        res.rows_degenerate == count_set(rows_degenerate@),
        res.vars_at_bound == count_set(vars_at_bound@),
        res.vars_degenerate == count_set(vars_degenerate@),
{
    Degeneracy {
        rows_binding: count_flags(rows_binding),
        rows_degenerate: count_flags(rows_degenerate),
        vars_at_bound: count_flags(vars_at_bound),
        vars_degenerate: count_flags(vars_degenerate),
    }
}

/// Iterations per row at which a solve stops looking healthy.
pub const ITERATIONS_PER_ROW_ELEVATED: u64 = 5;

/// The reading: unknown without a solve; healthy when the solve reported no
/// iterations, the model has no rows, or it took fewer than five iterations
/// per row; otherwise degenerate when at least 30% of the binding rows are
/// degenerate, ill-conditioned when the matrix's coefficient range is wide,
/// and elevated when neither explains it. Degeneracy is checked first: it is
/// the more common cause and the one scaling will not fix.
pub open spec fn spec_judge(
    solved: bool,
    iterations: Option<u64>,
    rows: nat,
    degeneracy: Option<Degeneracy>,
    wide_matrix: bool,
) -> Verdict {
    if !solved {
        Verdict::Unknown
    } else if iterations is None || rows == 0 || iterations->0 < ITERATIONS_PER_ROW_ELEVATED * rows {
        Verdict::Healthy
    } else if degeneracy matches Some(d) && d.rows_binding > 0 && 10 * d.rows_degenerate >= 3 * d.rows_binding {
        Verdict::Degenerate
    } else if wide_matrix {
        Verdict::IllConditioned
    } else {
        Verdict::Elevated
    }
}

/// Reduce the measurements to a single reading. `solved` says whether the
/// solver's log was read at all, and `wide_matrix` whether the matrix's
/// coefficients span the range the Numerics pane warns about.
pub fn judge(
    solved: bool,
    iterations: Option<u64>,
    rows: usize,
    degeneracy: Option<Degeneracy>,
    wide_matrix: bool,
) -> (res: Verdict)
    ensures
        res == spec_judge(solved, iterations, rows as nat, degeneracy, wide_matrix),
{
    if !solved {
        return Verdict::Unknown;
    }
    let iterations = match iterations {
        Some(count) => count,
        None => {
            return Verdict::Healthy;
        },
    };
    if rows == 0 || (iterations as u128) < (ITERATIONS_PER_ROW_ELEVATED as u128) * (rows as u128) {
        return Verdict::Healthy;
    }
    match degeneracy {
        Some(d) => {
            if d.rows_binding > 0 && 10 * (d.rows_degenerate as u128) >= 3 * (d.rows_binding as u128) {
                return Verdict::Degenerate;
            }
        },
        None => {},
    }
    if wide_matrix {
        Verdict::IllConditioned
    } else {
        Verdict::Elevated
    }
}

/// Whether `pattern` occurs in `s` at `i`.
pub open spec fn occurs_at(s: Seq<char>, pattern: Seq<char>, i: int) -> bool {
    0 <= i && i + pattern.len() <= s.len() && s.subrange(i, i + pattern.len()) == pattern
}

/// The first index at or after `from` where `pattern` occurs in `s`.
pub open spec fn find_from(s: Seq<char>, pattern: Seq<char>, from: int) -> Option<int>
    decreases s.len() - from,
{
    if from < 0 || from + pattern.len() > s.len() {
        None
    } else if occurs_at(s, pattern, from) {
        Some(from)
    } else if from >= s.len() {
        None
    } else {
        find_from(s, pattern, from + 1)
    }
}

/// Whether `s` starts with `prefix`.
pub open spec fn starts_with(s: Seq<char>, prefix: Seq<char>) -> bool {
    occurs_at(s, prefix, 0)
}

/// The piece of `s` that `str::split(label).nth(1)` yields: the text after
/// the first occurrence of `label` up to the next one, if it occurs at all.
pub open spec fn second_piece(s: Seq<char>, label: Seq<char>) -> Option<Seq<char>> {
    match find_from(s, label, 0) {
        Some(i) => {
            let rest = s.skip(i + label.len());
            Some(
                match find_from(rest, label, 0) {
                    Some(j) => rest.take(j),
                    None => rest,
                },
            )
        },
        None => None,
    }
}

/// The leading run of ASCII digits of `s`.
pub open spec fn digit_prefix(s: Seq<char>) -> Seq<char>
    decreases s.len(),
{
    if s.len() > 0 && is_digit(s[0]) {
        seq![s[0]] + digit_prefix(s.drop_first())
    } else {
        Seq::empty()
    }
}

/// The number after `label` in a reductions line: the digits that open the
/// second piece of the split, after leading white space.
pub open spec fn labelled_count(line: Seq<char>, label: Seq<char>) -> Option<nat> {
    match second_piece(line, label) {
        Some(piece) => parse_unsigned(digit_prefix(trim_start(piece)), u64::MAX as nat),
        None => None,
    }
}

/// The rows, columns and non-zeros a reductions line reports.
pub open spec fn reductions(line: Seq<char>) -> Option<(nat, nat, nat)> {
    match (labelled_count(line, "rows "@), labelled_count(line, "columns "@), labelled_count(line, "nonzeros "@)) {
        (Some(rows), Some(columns), Some(nonzeros)) => Some((rows, columns, nonzeros)),
        _ => None,
    }
}

proof fn lemma_find_from_result(s: Seq<char>, pattern: Seq<char>, from: int)
    requires
        from >= 0,
    ensures
        find_from(s, pattern, from) matches Some(i) ==> from <= i && occurs_at(s, pattern, i),
    decreases s.len() - from,
{
    if !(from + pattern.len() > s.len()) && !occurs_at(s, pattern, from) && from < s.len() {
        lemma_find_from_result(s, pattern, from + 1);
    }
}

fn occurs_at_exec(chars: &Vec<char>, pattern: &Vec<char>, i: usize) -> (res: bool)
    requires
        i + pattern@.len() <= chars@.len(),
    ensures
        res == occurs_at(chars@, pattern@, i as int),
{
    let n = chars.len();
    let mut k: usize = 0;
    while k < pattern.len()
        invariant
            n == chars@.len(),
            k <= pattern@.len(),
            i + pattern@.len() <= chars@.len(),
            forall|m: int| 0 <= m < k ==> chars@[i + m] == pattern@[m],
        decreases pattern@.len() - k,
    {
        if chars[i + k] != pattern[k] {
            assert(chars@.subrange(i as int, i + pattern@.len())[k as int] != pattern@[k as int]);
            return false;
        }
        k = k + 1;
    }
    assert(chars@.subrange(i as int, i + pattern@.len()) =~= pattern@);
    true
}

/// The first occurrence of `pattern` in `chars` at or after `from`.
fn find_exec(chars: &Vec<char>, pattern: &Vec<char>, from: usize) -> (res: Option<usize>)
    requires
        from <= chars@.len(),
    ensures
        match find_from(chars@, pattern@, from as int) {
            Some(i) => res == Some(i as usize),
            None => res is None,
        },
{
    if pattern.len() == 0 {
        assert(chars@.subrange(from as int, from as int) =~= pattern@);
        return Some(from);
    }
    if pattern.len() > chars.len() {
        return None;
    }
    let n = chars.len();
    let last = n - pattern.len();
    let mut i: usize = from;
    while i <= last
        invariant
            n == chars@.len(),
            from <= i,
            pattern@.len() > 0,
            last + pattern@.len() == chars@.len(),
            find_from(chars@, pattern@, from as int) == find_from(chars@, pattern@, i as int),
        decreases last + 1 - i,
    {
        if occurs_at_exec(chars, pattern, i) {
            return Some(i);
        }
        i = i + 1;
    }
    None
}

fn digit_prefix_chars(chars: &Vec<char>) -> (res: Vec<char>)
    ensures
        res@ == digit_prefix(chars@),
{
    let mut j: usize = 0;
    while j < chars.len() && '0' <= chars[j] && chars[j] <= '9'
        invariant
            j <= chars@.len(),
            forall|k: int| 0 <= k < j ==> is_digit(#[trigger] chars@[k]),
        decreases chars@.len() - j,
    {
        j = j + 1;
    }
    proof {
        lemma_digit_prefix_at(chars@, j as int);
    }
    sub_chars(chars, 0, j)
}

proof fn lemma_digit_prefix_at(s: Seq<char>, j: int)
    requires
        0 <= j <= s.len(),
        forall|k: int| 0 <= k < j ==> is_digit(#[trigger] s[k]),
        j < s.len() ==> !is_digit(s[j]),
    ensures
        digit_prefix(s) == s.subrange(0, j),
    decreases j,
{
    if j > 0 {
        lemma_digit_prefix_at(s.drop_first(), j - 1);
        assert(seq![s[0]] + s.drop_first().subrange(0, j - 1) =~= s.subrange(0, j));
    } else {
        assert(s.subrange(0, 0) =~= Seq::<char>::empty());
    }
}

fn labelled_count_exec(line: &Vec<char>, label: &str) -> (res: Option<u64>)
    ensures
        match labelled_count(line@, label@) {
            Some(v) => res == Some(v as u64),
            None => res is None,
        },
{
    let label_chars = chars_of(label);
    let first = find_exec(line, &label_chars, 0);
    match first {
        None => None,
        Some(i) => {
            proof {
                lemma_find_from_result(line@, label@, 0);
            }
            let line_len = line.len();
            assert(i + label_chars@.len() <= line_len);
            let rest = sub_chars(line, i + label_chars.len(), line_len);
            assert(rest@ =~= line@.skip(i + label@.len()));
            let next = find_exec(&rest, &label_chars, 0);
            let piece = match next {
                Some(j) => {
                    proof {
                        lemma_find_from_result(rest@, label@, 0);
                    }
                    let piece = sub_chars(&rest, 0, j);
                    assert(piece@ =~= rest@.take(j as int));
                    piece
                },
                None => rest,
            };
            let trimmed = trim_start_chars(&piece);
            let digits = digit_prefix_chars(&trimmed);
            let parsed = parse_unsigned_chars(&digits, u64::MAX);
            parsed
        },
    }
}

/// Parse `Presolve reductions: rows 122(-18); columns 162(-0); nonzeros 813(-402)`
/// into the rows, columns and non-zeros left.
pub fn parse_presolve_reductions(line: &str) -> (res: Option<(u64, u64, u64)>)
    ensures
        match reductions(line@) {
            Some((rows, columns, nonzeros)) => res == Some((rows as u64, columns as u64, nonzeros as u64)),
            None => res is None,
        },
{
    let chars = chars_of(line);
    let rows = labelled_count_exec(&chars, "rows ");
    let columns = labelled_count_exec(&chars, "columns ");
    let nonzeros = labelled_count_exec(&chars, "nonzeros ");
    match (rows, columns, nonzeros) {
        (Some(r), Some(c), Some(n)) => Some((r, c, n)),
        _ => None,
    }
}

/// The iteration count a log line sets, if it is an iteration line: the
/// outer `None` for any other line, the inner one for a count that does not
/// parse.
pub open spec fn iterations_of_line(line: Seq<char>) -> Option<Option<nat>> {
    let t = trim(line);
    if starts_with(t, "Simplex   iterations:"@) {
        Some(parse_unsigned(trim(t.skip("Simplex   iterations:"@.len() as int)), u64::MAX as nat))
    } else if starts_with(t, "Simplex iterations:"@) {
        Some(parse_unsigned(trim(t.skip("Simplex iterations:"@.len() as int)), u64::MAX as nat))
    } else {
        None
    }
}

/// The reductions a log line sets, if it is a reductions line.
pub open spec fn presolved_of_line(line: Seq<char>) -> Option<Option<(nat, nat, nat)>> {
    if starts_with(trim(line), "Presolve reductions:"@) {
        Some(reductions(trim(line)))
    } else {
        None
    }
}

/// The iteration count and reductions a log reports: each is what the last
/// line that sets it says.
pub open spec fn log_counts(lines: Seq<Seq<char>>) -> (Option<nat>, Option<(nat, nat, nat)>)
    decreases lines.len(),
{
    if lines.len() == 0 {
        (None, None)
    } else {
        let (iterations, presolved) = log_counts(lines.drop_last());
        (
            match iterations_of_line(lines.last()) {
                Some(value) => value,
                None => iterations,
            },
            match presolved_of_line(lines.last()) {
                Some(value) => value,
                None => presolved,
            },
        )
    }
}

/// The text after `label` on a line that starts with it (both trimmed).
pub open spec fn value_of_line(line: Seq<char>, label: Seq<char>) -> Option<Seq<char>> {
    if starts_with(trim(line), label) {
        Some(trim(trim(line).skip(label.len() as int)))
    } else {
        None
    }
}

/// What the last line that starts with `label` says after it.
pub open spec fn last_value(lines: Seq<Seq<char>>, label: Seq<char>) -> Option<Seq<char>>
    decreases lines.len(),
{
    if lines.len() == 0 {
        None
    } else {
        match value_of_line(lines.last(), label) {
            Some(value) => Some(value),
            None => last_value(lines.drop_last(), label),
        }
    }
}

/// The label of the primal-dual objective error line.
pub open spec fn objective_error_label() -> Seq<char> {
    "P-D objective error :"@
}

/// The label of the run time line.
pub open spec fn run_time_label() -> Seq<char> {
    "HiGHS run time      :"@
}

/// The figures the solver prints about its own run. The objective error and
/// the run time are kept as printed: they are decimal fractions, which the
/// caller reads as numbers.
#[derive(Debug, Clone)]
pub struct Telemetry {
    pub iterations: Option<u64>,
    /// Rows, columns and non-zeros left after the solver's own presolve.
    pub presolved: Option<(u64, u64, u64)>,
    /// The primal-dual objective error, as printed.
    pub objective_error: Option<String>,
    /// The solver's run time in seconds, as printed.
    pub run_time: Option<String>,
}

/// Whether the counts hold exactly what `log_counts` gives.
pub open spec fn counts_match(counts: Telemetry, expected: (Option<nat>, Option<(nat, nat, nat)>)) -> bool {
    &&& match expected.0 {
        Some(v) => counts.iterations == Some(v as u64),
        None => counts.iterations is None,
    }
    &&& match expected.1 {
        Some((r, c, n)) => counts.presolved == Some((r as u64, c as u64, n as u64)),
        None => counts.presolved is None,
    }
}

/// Whether an optional string holds exactly an optional text.
pub open spec fn text_matches(text: Option<String>, expected: Option<Seq<char>>) -> bool {
    match expected {
        Some(value) => text matches Some(s) && s@ == value,
        None => text is None,
    }
}

/// Whether the telemetry holds exactly what the log's lines say: each field
/// is what the last line that sets it says.
pub open spec fn telemetry_of(telemetry: Telemetry, lines: Seq<Seq<char>>) -> bool {
    &&& counts_match(telemetry, log_counts(lines))
    &&& text_matches(telemetry.objective_error, last_value(lines, objective_error_label()))
    &&& text_matches(telemetry.run_time, last_value(lines, run_time_label()))
}

fn starts_with_exec(chars: &Vec<char>, from: usize, to: usize, prefix: &Vec<char>) -> (res: bool)
    requires
        from <= to <= chars@.len(),
    ensures
        res == starts_with(chars@.subrange(from as int, to as int), prefix@),
{
    if prefix.len() > to - from {
        return false;
    }
    let res = occurs_at_exec(chars, prefix, from);
    assert(chars@.subrange(from as int, to as int).subrange(0, prefix@.len() as int) =~= chars@.subrange(
        from as int,
        from + prefix@.len(),
    ));
    res
}

fn count_after(chars: &Vec<char>, from: usize, to: usize) -> (res: Option<u64>)
    requires
        from <= to <= chars@.len(),
    ensures
        match parse_unsigned(trim(chars@.subrange(from as int, to as int)), u64::MAX as nat) {
            Some(v) => res == Some(v as u64),
            None => res is None,
        },
{
    let (a, b) = trim_bounds(chars, from, to);
    let value = sub_chars(chars, a, b);
    parse_unsigned_chars(&value, u64::MAX)
}

/// Set `field` to the text after `label` when the trimmed line `chars[a..b]`
/// starts with it; otherwise leave it.
fn take_labelled(field: &mut Option<String>, chars: &Vec<char>, a: usize, b: usize, label: &Vec<char>)
    requires
        a <= b <= chars@.len(),
    ensures
        starts_with(chars@.subrange(a as int, b as int), label@) ==> text_matches(
            *final(field),
            Some(trim(chars@.subrange(a as int, b as int).skip(label@.len() as int))),
        ),
        !starts_with(chars@.subrange(a as int, b as int), label@) ==> *final(field) == *old(field),
{
    if starts_with_exec(chars, a, b, label) {
        *field = Some(text_after(chars, a + label.len(), b));
        assert(chars@.subrange(a + label@.len(), b as int) =~= chars@.subrange(a as int, b as int).skip(
            label@.len() as int,
        ));
    }
}

fn text_after(chars: &Vec<char>, from: usize, to: usize) -> (res: String)
    requires
        from <= to <= chars@.len(),
    ensures
        res@ == trim(chars@.subrange(from as int, to as int)),
{
    let (a, b) = trim_bounds(chars, from, to);
    string_from(&sub_chars(chars, a, b))
}

/// Pull the figures the solver prints about its own run out of the captured
/// log: the iteration count, the presolve reductions, the objective error
/// and the run time. Parsing the log rather than recomputing keeps them
/// authoritative. A missing line leaves its field empty.
pub fn parse_telemetry(log: &str) -> (res: Telemetry)
    ensures
        telemetry_of(res, text_lines(log@)),
{
    let chars = chars_of(log);
    let ranges = line_ranges(&chars);
    let ghost lines = text_lines(chars@);
    let wide = chars_of("Simplex   iterations:");
    let narrow = chars_of("Simplex iterations:");
    let reductions_label = chars_of("Presolve reductions:");
    let error_label = chars_of("P-D objective error :");
    let time_label = chars_of("HiGHS run time      :");
    let mut counts = Telemetry { iterations: None, presolved: None, objective_error: None, run_time: None };
    let mut n: usize = 0;
    while n < ranges.len()
        invariant
            chars@ == log@,
            lines == text_lines(chars@),
            ranges_within(ranges@, chars@.len()),
            range_texts(chars@, ranges@) == lines,
            wide@ == "Simplex   iterations:"@,
            narrow@ == "Simplex iterations:"@,
            reductions_label@ == "Presolve reductions:"@,
            error_label@ == objective_error_label(),
            time_label@ == run_time_label(),
            n <= ranges@.len(),
            telemetry_of(counts, lines.take(n as int)),
        decreases ranges@.len() - n,
    {
        let (start, end) = ranges[n];
        assert(ranges@[n as int].0 <= ranges@[n as int].1 && ranges@[n as int].1 <= chars@.len());
        let ghost line = chars@.subrange(start as int, end as int);
        assert(lines[n as int] == line);
        assert(lines.take(n + 1).drop_last() =~= lines.take(n as int));
        assert(lines.take(n + 1).last() == line);
        let (a, b) = trim_bounds(&chars, start, end);
        let ghost t = chars@.subrange(a as int, b as int);
        assert(t == trim(line));
        if starts_with_exec(&chars, a, b, &wide) {
            counts.iterations = count_after(&chars, a + wide.len(), b);
            assert(chars@.subrange(a + wide@.len(), b as int) =~= t.skip(wide@.len() as int));
        } else if starts_with_exec(&chars, a, b, &narrow) {
            counts.iterations = count_after(&chars, a + narrow.len(), b);
            assert(chars@.subrange(a + narrow@.len(), b as int) =~= t.skip(narrow@.len() as int));
        }
        if starts_with_exec(&chars, a, b, &reductions_label) {
            let text = sub_chars(&chars, a, b);
            let rows = labelled_count_exec(&text, "rows ");
            let columns = labelled_count_exec(&text, "columns ");
            let nonzeros = labelled_count_exec(&text, "nonzeros ");
            counts.presolved = match (rows, columns, nonzeros) {
                (Some(r), Some(c), Some(z)) => Some((r, c, z)),
                _ => None,
            };
        }
        take_labelled(&mut counts.objective_error, &chars, a, b, &error_label);
        take_labelled(&mut counts.run_time, &chars, a, b, &time_label);
        n = n + 1;
    }
    assert(lines.take(n as int) =~= lines);
    counts
}

} // verus!
