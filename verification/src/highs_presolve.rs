//! What the solver's own presolve removes, by name: the report built from the
//! names passed in and the names the reduced model still carries.
use vstd::prelude::*;

use crate::format::{millis_text, push_millis, Elapsed};
use crate::text::{decimal, push_char, push_decimal, push_str};

verus! {

/// What the solver's presolve did to a model.
#[derive(Debug)]
pub struct HighsPresolveReport {
    pub rows_before: usize,
    pub rows_after: usize,
    pub cols_before: usize,
    pub cols_after: usize,
    /// Non-zeros left in the reduced model.
    pub nnz_after: usize,
    /// Rows the solver dropped, in the model's row order.
    pub removed_rows: Vec<String>,
    /// Columns the solver dropped.
    pub removed_cols: Vec<String>,
    /// Set when presolve proved the model infeasible without solving it.
    pub infeasible: bool,
    /// SOS sets left out of the model, as the ordinary solve leaves them out.
    pub skipped_sos: usize,
    pub duration: Elapsed,
}

/// The lines listing removed names, each under `label`.
pub open spec fn name_lines(label: Seq<char>, names: Seq<String>) -> Seq<char>
    decreases names.len(),
{
    if names.len() == 0 {
        Seq::empty()
    } else {
        name_lines(label, names.drop_last()) + label + names.last()@ + seq!['\n']
    }
}

impl HighsPresolveReport {
    pub open spec fn spec_is_noop(&self) -> bool {
        self.rows_after == self.rows_before && self.cols_after == self.cols_before
    }

    pub open spec fn spec_reduced_to_empty(&self) -> bool {
        self.rows_after == 0 && self.cols_after == 0
    }

    /// Whether presolve left the model exactly as it found it.
    pub fn is_noop(&self) -> (res: bool)
        ensures
            res == self.spec_is_noop(),
    {
        self.rows_after == self.rows_before && self.cols_after == self.cols_before
    }

    /// Whether presolve solved the model outright, leaving nothing behind.
    pub fn reduced_to_empty(&self) -> (res: bool)
        ensures
            res == self.spec_reduced_to_empty(),
    {
        self.rows_after == 0 && self.cols_after == 0
    }

    /// The one-line summary for a presolve that took `secs` seconds and
    /// `nanos` nanoseconds.
    pub open spec fn headline_text(&self, secs: nat, nanos: nat) -> Seq<char> {
        if self.infeasible {
            "HiGHS presolve: proved the model infeasible"@
        } else if self.spec_reduced_to_empty() {
            "HiGHS presolve: solved the model outright \u{2014} nothing left, "@ + millis_text(secs, nanos)
        } else if self.spec_is_noop() {
            "HiGHS presolve: no reduction, "@ + millis_text(secs, nanos)
        } else {
            "HiGHS presolve: -"@ + decimal(self.removed_rows@.len()) + " rows, -"@ + decimal(self.removed_cols@.len())
                + " cols, "@ + decimal(self.rows_after as nat) + " rows x "@ + decimal(self.cols_after as nat)
                + " cols x "@ + decimal(self.nnz_after as nat) + " nnz left, "@ + millis_text(secs, nanos)
        }
    }

    /// The report as plain text for a presolve of `secs` seconds and `nanos`
    /// nanoseconds: the headline, a note on SOS sets left out, a blank line,
    /// then one line per removed row and per removed column.
    pub open spec fn log_text_spec(&self, secs: nat, nanos: nat) -> Seq<char> {
        self.headline_text(secs, nanos) + seq!['\n'] + (if self.skipped_sos > 0 {
            decimal(self.skipped_sos as nat) + " SOS set(s) are not part of the model HiGHS sees\n"@
        } else {
            Seq::empty()
        }) + seq!['\n'] + name_lines("row removed  "@, self.removed_rows@) + name_lines(
            "col removed  "@,
            self.removed_cols@,
        )
    }

    #[verifier::rlimit(30)]
    fn push_headline(&self, out: &mut String, secs: u64, nanos: u32)
        requires
            nanos < 1_000_000_000,
        ensures
            final(out)@ == old(out)@ + self.headline_text(secs as nat, nanos as nat),
    {
        let ghost start = out@;
        if self.infeasible {
            push_str(out, "HiGHS presolve: proved the model infeasible");
        } else if self.reduced_to_empty() {
            push_str(out, "HiGHS presolve: solved the model outright \u{2014} nothing left, ");
            push_millis(out, secs, nanos);
        } else if self.is_noop() {
            push_str(out, "HiGHS presolve: no reduction, ");
            push_millis(out, secs, nanos);
        } else {
            push_str(out, "HiGHS presolve: -");
            push_decimal(out, self.removed_rows.len() as u64);
            push_str(out, " rows, -");
            push_decimal(out, self.removed_cols.len() as u64);
            push_str(out, " cols, ");
            push_decimal(out, self.rows_after as u64);
            push_str(out, " rows x ");
            push_decimal(out, self.cols_after as u64);
            push_str(out, " cols x ");
            push_decimal(out, self.nnz_after as u64);
            push_str(out, " nnz left, ");
            push_millis(out, secs, nanos);
            assert(out@ =~= start + self.headline_text(secs as nat, nanos as nat));
            return;
        }
        assert(out@ =~= start + self.headline_text(secs as nat, nanos as nat));
    }

    /// One-line summary.
    pub fn headline(&self) -> (res: String)
        requires
            self.duration.wf(),
        ensures
            res@ == self.headline_text(self.duration.secs as nat, self.duration.nanos as nat),
    {
        let mut out = String::new();
        self.push_headline(&mut out, self.duration.secs, self.duration.nanos);
        assert(out@ =~= self.headline_text(self.duration.secs as nat, self.duration.nanos as nat));
        out
    }

    /// The report as plain text, for a presolve of `secs` seconds and
    /// `nanos` nanoseconds.
    pub fn log_text_parts(&self, secs: u64, nanos: u32) -> (res: String)
        requires
            nanos < 1_000_000_000,
        ensures
            res@ == self.log_text_spec(secs as nat, nanos as nat),
    {
        let mut out = String::new();
        self.push_headline(&mut out, secs, nanos);
        push_char(&mut out, '\n');
        let ghost head = out@;
        if self.skipped_sos > 0 {
            push_decimal(&mut out, self.skipped_sos as u64);
            push_str(&mut out, " SOS set(s) are not part of the model HiGHS sees\n");
        }
        push_char(&mut out, '\n');
        let ghost before_rows = out@;
        push_name_lines(&mut out, "row removed  ", &self.removed_rows);
        push_name_lines(&mut out, "col removed  ", &self.removed_cols);
        proof {
            assert(before_rows =~= self.headline_text(secs as nat, nanos as nat) + seq!['\n'] + (
            if self.skipped_sos > 0 {
                decimal(self.skipped_sos as nat) + " SOS set(s) are not part of the model HiGHS sees\n"@
            } else {
                Seq::empty()
            }) + seq!['\n']);
        }
        assert(out@ =~= self.log_text_spec(secs as nat, nanos as nat));
        out
    }

    /// The report as plain text, for the log pane and the file it writes.
    pub fn log_text(&self) -> (res: String)
        requires
            self.duration.wf(),
        ensures
            res@ == self.log_text_spec(self.duration.secs as nat, self.duration.nanos as nat),
    {
        self.log_text_parts(self.duration.secs, self.duration.nanos)
    }

    /// The plain-text report opens with the headline on a line of its own.
    pub proof fn lemma_log_opens_with_headline(&self, secs: nat, nanos: nat)
        ensures
            self.log_text_spec(secs, nanos).take(self.headline_text(secs, nanos).len() as int + 1)
                == self.headline_text(secs, nanos) + seq!['\n'],
    {
        let head = self.headline_text(secs, nanos) + seq!['\n'];
        let rest = (if self.skipped_sos > 0 {
            decimal(self.skipped_sos as nat) + " SOS set(s) are not part of the model HiGHS sees\n"@
        } else {
            Seq::empty()
        }) + seq!['\n'] + name_lines("row removed  "@, self.removed_rows@) + name_lines(
            "col removed  "@,
            self.removed_cols@,
        );
        assert(self.log_text_spec(secs, nanos) =~= head + rest);
        assert((head + rest).take(head.len() as int) =~= head);
    }
}

fn push_name_lines(out: &mut String, label: &str, names: &Vec<String>)
    ensures
        final(out)@ == old(out)@ + name_lines(label@, names@),
{
    let ghost start = out@;
    let mut i: usize = 0;
    while i < names.len()
        invariant
            i <= names@.len(),
            out@ == start + name_lines(label@, names@.take(i as int)),
        decreases names@.len() - i,
    {
        push_str(out, label);
        push_str(out, names[i].as_str());
        push_char(out, '\n');
        proof {
            assert(names@.take(i + 1).drop_last() =~= names@.take(i as int));
            assert(out@ =~= start + name_lines(label@, names@.take(i + 1)));
        }
        i = i + 1;
    }
    assert(names@.take(i as int) =~= names@);
}

/// The names that went: those passed to the solver that are not among the
/// survivors, in the order they were passed.
pub open spec fn removed_names(passed: Seq<Seq<char>>, survivors: Seq<Seq<char>>) -> Seq<Seq<char>> {
    passed.filter(|name: Seq<char>| !survivors.contains(name))
}

/// The views of a list of strings.
pub open spec fn views(strings: Seq<String>) -> Seq<Seq<char>> {
    strings.map_values(|s: String| s@)
}

fn contains_name(names: &Vec<String>, name: &String) -> (res: bool)
    ensures
        res == views(names@).contains(name@),
{
    let mut i: usize = 0;
    while i < names.len()
        invariant
            i <= names@.len(),
            forall|k: int| 0 <= k < i ==> names@[k]@ != name@,
        decreases names@.len() - i,
    {
        if names[i] == *name {
            assert(views(names@)[i as int] == name@);
            return true;
        }
        i = i + 1;
    }
    assert forall|k: int| 0 <= k < views(names@).len() implies views(names@)[k] != name@ by {
        assert(views(names@)[k] == names@[k]@);
    }
    false
}

/// The names that went, in the order they were passed to the solver (which
/// is sorted by name, so the report is stable across runs).
pub fn removed(passed: &Vec<String>, survivors: &Vec<String>) -> (res: Vec<String>)
    ensures
        views(res@) == removed_names(views(passed@), views(survivors@)),
{
    let mut out: Vec<String> = Vec::new();
    let mut i: usize = 0;
    while i < passed.len()
        invariant
            i <= passed@.len(),
            views(out@) == removed_names(views(passed@.take(i as int)), views(survivors@)),
        decreases passed@.len() - i,
    {
        let present = contains_name(survivors, &passed[i]);
        proof {
            assert(views(passed@.take(i + 1)) =~= views(passed@.take(i as int)).push(passed@[i as int]@));
            views(passed@.take(i as int)).lemma_filter_push(
                passed@[i as int]@,
                |name: Seq<char>| !views(survivors@).contains(name),
            );
        }
        if !present {
            let ghost before = out@;
            out.push(passed[i].clone());
            assert(views(out@) =~= views(before).push(passed@[i as int]@));
        }
        i = i + 1;
    }
    assert(passed@.take(i as int) =~= passed@);
    out
}

} // verus!
