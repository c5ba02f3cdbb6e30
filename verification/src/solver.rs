//! What the library decides about solves: which statuses call for which
//! diagnosis, how a solve comparison's rows are counted and named, and how a
//! solver options file is read.
use vstd::prelude::*;
use vstd::string::StrSliceExecFns;

use crate::lines::{line_ranges, range_texts, ranges_within, text_lines};
use crate::merge::Pairing;
use crate::text::{before_first, chars_of, find_char, str_eq, trim, trim_bounds};

verus! {

/// Pre-computed diff counts, avoiding per-frame iteration.
#[derive(Debug, Clone, Copy, PartialEq, Eq, Structural)]
pub struct DiffCounts {
    pub added: usize,
    pub removed: usize,
    pub modified: usize,
}

/// Zero-copy name reference into a solve result's variable or row-value
/// list: which of the two results holds the name, and at which index.
#[derive(Debug, Clone, Copy, PartialEq, Eq, Structural)]
pub struct NameRef {
    /// `false`: the name lives in the first result; `true`: in the second.
    pub from_result2: bool,
    /// Index into the source result's list.
    pub index: u32,
}

/// What the counts read of one row of a solve comparison: whether each
/// result has a value for it, and whether the two values differ beyond the
/// comparison's threshold.
#[derive(Debug, Clone, Copy, PartialEq, Eq, Structural)]
pub struct RowPresence {
    pub in_first: bool,
    pub in_second: bool,
    pub changed: bool,
}

/// Rows only the second result has count as added, rows only the first has
/// as removed, and rows both have and that changed as modified.
pub open spec fn counted(rows: Seq<RowPresence>) -> (nat, nat, nat)
    decreases rows.len(),
{
    if rows.len() == 0 {
        (0, 0, 0)
    } else {
        let (added, removed, modified) = counted(rows.drop_last());
        let row = rows.last();
        if !row.in_first {
            (added + 1, removed, modified)
        } else if !row.in_second {
            (added, removed + 1, modified)
        } else if row.changed {
            (added, removed, modified + 1)
        } else {
            (added, removed, modified)
        }
    }
}

proof fn lemma_counted_bounded(rows: Seq<RowPresence>)
    ensures
        counted(rows).0 + counted(rows).1 + counted(rows).2 <= rows.len(),
    decreases rows.len(),
{
    if rows.len() > 0 {
        lemma_counted_bounded(rows.drop_last());
    }
}

/// Count a solve comparison's rows in a single pass.
pub fn count_diffs(rows: &Vec<RowPresence>) -> (res: DiffCounts)
    ensures
        res.added == counted(rows@).0,
        res.removed == counted(rows@).1,
        res.modified == counted(rows@).2,
{
    let mut counts = DiffCounts { added: 0, removed: 0, modified: 0 };
    let mut i: usize = 0;
    while i < rows.len()
        invariant
            i <= rows@.len(),
            counts.added == counted(rows@.take(i as int)).0,
            counts.removed == counted(rows@.take(i as int)).1,
            counts.modified == counted(rows@.take(i as int)).2,
        decreases rows@.len() - i,
    {
        proof {
            lemma_counted_bounded(rows@.take(i as int));
            assert(rows@.take(i + 1).drop_last() =~= rows@.take(i as int));
        }
        let row = rows[i];
        if !row.in_first {
            counts.added = counts.added + 1;
        } else if !row.in_second {
            counts.removed = counts.removed + 1;
        } else if row.changed {
            counts.modified = counts.modified + 1;
        }
        i = i + 1;
    }
    assert(rows@.take(i as int) =~= rows@);
    counts
}

/// The name reference of one step of a merge of two results' name lists: a
/// name both results hold is taken from the first.
pub open spec fn spec_name_ref(step: Pairing) -> NameRef {
    match step {
        Pairing::OnlyOld(i) => NameRef { from_result2: false, index: i as u32 },
        Pairing::OnlyNew(j) => NameRef { from_result2: true, index: j as u32 },
        Pairing::Both(i, _) => NameRef { from_result2: false, index: i as u32 },
    }
}

/// The name reference of one step of a merge of two results' name lists.
pub fn name_ref(step: Pairing) -> (res: NameRef)
    requires
        match step {
            Pairing::OnlyOld(i) => i <= u32::MAX,
            Pairing::OnlyNew(j) => j <= u32::MAX,
            Pairing::Both(i, _) => i <= u32::MAX,
        },
    ensures
        res == spec_name_ref(step),
{
    match step {
        Pairing::OnlyOld(i) => NameRef { from_result2: false, index: i as u32 },
        Pairing::OnlyNew(j) => NameRef { from_result2: true, index: j as u32 },
        Pairing::Both(i, _) => NameRef { from_result2: false, index: i as u32 },
    }
}

/// The statuses that call for an infeasibility diagnosis.
pub open spec fn spec_status_is_infeasible(status: Seq<char>) -> bool {
    status == "Infeasible"@ || status == "UnboundedOrInfeasible"@
}

/// The statuses that call for an unboundedness diagnosis.
pub open spec fn spec_status_is_unbounded(status: Seq<char>) -> bool {
    status == "Unbounded"@ || status == "UnboundedOrInfeasible"@
}

/// Return `true` if a solve status string indicates infeasibility.
pub fn status_is_infeasible(status: &str) -> (res: bool)
    ensures
        res == spec_status_is_infeasible(status@),
{
    str_eq(status, "Infeasible") || str_eq(status, "UnboundedOrInfeasible")
}

/// Return `true` if a solve status string indicates unboundedness.
///
/// `UnboundedOrInfeasible` appears here *and* in [`status_is_infeasible`]: it
/// is exactly the case where presolve declined to say which, so both
/// diagnoses are worth offering.
pub fn status_is_unbounded(status: &str) -> (res: bool)
    ensures
        res == spec_status_is_unbounded(status@),
{
    str_eq(status, "Unbounded") || str_eq(status, "UnboundedOrInfeasible")
}

/// Both diagnoses are offered for exactly one status: the one where the
/// solver could not say which of the two holds.
pub proof fn lemma_both_diagnoses_only_when_undecided(status: Seq<char>)
    ensures
        spec_status_is_infeasible(status) && spec_status_is_unbounded(status) <==> status
            == "UnboundedOrInfeasible"@,
{
    reveal_strlit("Infeasible");
    reveal_strlit("Unbounded");
    reveal_strlit("UnboundedOrInfeasible");
    assert("Infeasible"@.len() == 10);
    assert("Unbounded"@.len() == 9);
    assert("UnboundedOrInfeasible"@.len() == 21);
}

/// Options the library sets itself; a file must not redirect the log the
/// pane reads back.
pub open spec fn is_reserved_option(key: Seq<char>) -> bool {
    key == "log_file"@ || key == "output_flag"@
}

/// What one line of an options file sets: `key = value` before any `#`
/// comment, both trimmed, neither empty, and the key not reserved.
pub open spec fn option_of_line(line: Seq<char>) -> Option<(Seq<char>, Seq<char>)> {
    let body = before_first(line, '#');
    let key = before_first(body, '=');
    if key.len() == body.len() {
        None
    } else {
        let value = body.skip(key.len() + 1int);
        if trim(key).len() > 0 && trim(value).len() > 0 && !is_reserved_option(trim(key)) {
            Some((trim(key), trim(value)))
        } else {
            None
        }
    }
}

/// The options a list of lines sets, in order.
pub open spec fn options_of_lines(lines: Seq<Seq<char>>) -> Seq<(Seq<char>, Seq<char>)>
    decreases lines.len(),
{
    if lines.len() == 0 {
        Seq::empty()
    } else {
        match option_of_line(lines.last()) {
            Some(option) => options_of_lines(lines.drop_last()).push(option),
            None => options_of_lines(lines.drop_last()),
        }
    }
}

/// The options a file's text sets, in order.
pub open spec fn options_of_text(text: Seq<char>) -> Seq<(Seq<char>, Seq<char>)> {
    options_of_lines(text_lines(text))
}

proof fn lemma_before_first_len(s: Seq<char>, c: char)
    ensures
        before_first(s, c).len() <= s.len(),
        before_first(s, c) == s.take(before_first(s, c).len() as int),
    decreases s.len(),
{
    if s.len() > 0 && s[0] != c {
        lemma_before_first_len(s.drop_first(), c);
        let rest = before_first(s.drop_first(), c);
        assert(seq![s[0]] + s.drop_first().take(rest.len() as int) =~= s.take(rest.len() + 1int));
    } else if s.len() > 0 {
        assert(s.take(0) =~= Seq::<char>::empty());
    }
}

proof fn lemma_options_step(lines: Seq<Seq<char>>, n: int)
    requires
        0 <= n < lines.len(),
    ensures
        options_of_lines(lines.take(n + 1)) == match option_of_line(lines[n]) {
            Some(option) => options_of_lines(lines.take(n)).push(option),
            None => options_of_lines(lines.take(n)),
        },
{
    assert(lines.take(n + 1).drop_last() =~= lines.take(n));
    assert(lines.take(n + 1).last() == lines[n]);
}

/// Parse a solver options file: `key = value` per line, `#` comments, blanks
/// skipped, reserved keys dropped.
///
/// Same format as the solver's own `--options_file`, so one file serves both.
pub fn parse_options(text: &str) -> (res: Vec<(&str, &str)>)
    ensures
        res@.len() == options_of_text(text@).len(),
        forall|k: int| 0 <= k < res@.len() ==> (#[trigger] res@[k]).0@ == options_of_text(text@)[k].0,
        forall|k: int| 0 <= k < res@.len() ==> (#[trigger] res@[k]).1@ == options_of_text(text@)[k].1,
{
    let chars = chars_of(text);
    let ranges = line_ranges(&chars);
    let ghost lines = text_lines(chars@);
    let mut options: Vec<(&str, &str)> = Vec::new();
    let mut n: usize = 0;
    while n < ranges.len()
        invariant
            chars@ == text@,
            lines == text_lines(chars@),
            ranges_within(ranges@, chars@.len()),
            range_texts(chars@, ranges@) == lines,
            n <= ranges@.len(),
            options@.len() == options_of_lines(lines.take(n as int)).len(),
            forall|k: int|
                0 <= k < options@.len() ==> (#[trigger] options@[k]).0@ == options_of_lines(lines.take(n as int))[k].0,
            forall|k: int|
                0 <= k < options@.len() ==> (#[trigger] options@[k]).1@ == options_of_lines(lines.take(n as int))[k].1,
        decreases ranges@.len() - n,
    {
        let ghost prior = options@;
        proof {
            lemma_options_step(lines, n as int);
        }
        let (start, end) = ranges[n];
        assert(ranges@[n as int].0 <= ranges@[n as int].1 && ranges@[n as int].1 <= chars@.len());
        let ghost line = chars@.subrange(start as int, end as int);
        assert(lines[n as int] == line);
        assert(lines.take(n + 1).drop_last() =~= lines.take(n as int));
        assert(lines.take(n + 1).last() == line);
        let comment = find_char(&chars, start, end, '#');
        let ghost body = chars@.subrange(start as int, comment as int);
        assert(body == before_first(line, '#'));
        let equals = find_char(&chars, start, comment, '=');
        proof {
            assert(chars@.subrange(start as int, comment as int) =~= body);
            lemma_before_first_len(body, '=');
        }
        if equals < comment {
            let ghost key = chars@.subrange(start as int, equals as int);
            let ghost value = chars@.subrange(equals + 1, comment as int);
            assert(key == before_first(body, '='));
            assert(value =~= body.skip(key.len() + 1int));
            let (key_start, key_end) = trim_bounds(&chars, start, equals);
            let (value_start, value_end) = trim_bounds(&chars, equals + 1, comment);
            let keep = key_start < key_end && value_start < value_end;
            if keep {
                let key_text = text.substring_char(key_start, key_end);
                if !(str_eq(key_text, "log_file") || str_eq(key_text, "output_flag")) {
                    let value_text = text.substring_char(value_start, value_end);
                    let ghost before = options@;
                    options.push((key_text, value_text));
                    proof {
                        assert(option_of_line(line) == Some((trim(key), trim(value))));
                        assert(options_of_lines(lines.take(n + 1)) == options_of_lines(lines.take(n as int)).push(
                            (trim(key), trim(value)),
                        ));
                        assert(key_text@ == trim(key));
                        assert(value_text@ == trim(value));
                    }
                } else {
                    assert(option_of_line(line) is None);
                    assert(options_of_lines(lines.take(n + 1)) == options_of_lines(lines.take(n as int)));
                }
            } else {
                assert(option_of_line(line) is None);
                assert(options_of_lines(lines.take(n + 1)) == options_of_lines(lines.take(n as int)));
            }
        } else {
            assert(option_of_line(line) is None);
            assert(options_of_lines(lines.take(n + 1)) == options_of_lines(lines.take(n as int)));
        }
        proof {
            let next = options_of_lines(lines.take(n + 1));
            assert forall|k: int| 0 <= k < options@.len() implies (#[trigger] options@[k]).0@ == next[k].0
                && options@[k].1@ == next[k].1 by {
                if k < prior.len() {
                    assert(options@[k] == prior[k]);
                    assert(prior[k].0@ == options_of_lines(lines.take(n as int))[k].0);
                    assert(prior[k].1@ == options_of_lines(lines.take(n as int))[k].1);
                }
            }
        }
        n = n + 1;
    }
    assert(lines.take(n as int) =~= lines);
    assert(options_of_text(text@) == options_of_lines(lines));

    options
}

} // verus!
