//! The rules of the solution-preserving rewrite ("presolve"), which of them a
//! pass runs, and what a run reports.
//!
//! Each rule removes work from the model without changing the set of optimal
//! solutions. The rules feed each other, so they are run in passes to a
//! fixpoint, at most [`MAX_PASSES`] of them.
use vstd::prelude::*;

use crate::format::{millis_text, push_millis, Elapsed};
use crate::text::{decimal, push_decimal, push_str};

verus! {

/// Hard cap on fixpoint iterations. Rules only ever narrow bounds and drop
/// rows, so they converge on their own; this bounds the worst case.
pub const MAX_PASSES: usize = 10;

/// Number of rules: the width of a [`RuleSet`].
pub const RULE_COUNT: usize = 8;

/// A single rewrite rule. Declaration order is application order within a
/// pass.
#[derive(Debug, Clone, Copy, PartialEq, Eq, Structural)]
pub enum Rule {
    /// Fold fixed variables into the right-hand side and drop their terms.
    FixedToRhs,
    /// A row with one variable is a bound in disguise: `3x <= 12` gives `x <= 4`.
    SingletonToBound,
    /// Derive implied bounds from each row's minimum and maximum activity.
    BoundPropagation,
    /// Round fractional bounds on integer variables inwards: `x <= 3.7` gives `x <= 3`.
    IntegerRounding,
    /// Drop rows that hold everywhere in the box; fix variables in rows that
    /// can only be satisfied at a single point.
    RedundantRows,
    /// Drop rows with no terms; fix variables that appear in no row.
    EmptyRowsCols,
    /// Divide each row by a power of two so its largest coefficient is near 1.
    RowScaling,
    /// Rescale each continuous variable's units by a power of two so its
    /// largest coefficient is near 1. Undone in the reported solution.
    ColumnScaling,
}

/// Which rules are enabled, indexed by the rule's position.
pub type RuleSet = [bool; 8];

impl Rule {
    /// The rule's position in application order.
    pub open spec fn spec_index(self) -> nat {
        match self {
            Rule::FixedToRhs => 0,
            Rule::SingletonToBound => 1,
            Rule::BoundPropagation => 2,
            Rule::IntegerRounding => 3,
            Rule::RedundantRows => 4,
            Rule::EmptyRowsCols => 5,
            Rule::RowScaling => 6,
            Rule::ColumnScaling => 7,
        }
    }

    /// The rule at a position in application order.
    pub open spec fn spec_at(index: nat) -> Rule {
        if index == 0 {
            Rule::FixedToRhs
        } else if index == 1 {
            Rule::SingletonToBound
        } else if index == 2 {
            Rule::BoundPropagation
        } else if index == 3 {
            Rule::IntegerRounding
        } else if index == 4 {
            Rule::RedundantRows
        } else if index == 5 {
            Rule::EmptyRowsCols
        } else if index == 6 {
            Rule::RowScaling
        } else {
            Rule::ColumnScaling
        }
    }

    pub open spec fn spec_label(self) -> Seq<char> {
        match self {
            Rule::FixedToRhs => "Fixed columns \u{2192} rhs (thins rows)"@,
            Rule::SingletonToBound => "Singleton rows \u{2192} bounds"@,
            Rule::BoundPropagation => "Bound propagation"@,
            Rule::IntegerRounding => "Integer bound rounding"@,
            Rule::RedundantRows => "Redundant & forcing rows"@,
            Rule::EmptyRowsCols => "Empty rows & columns"@,
            Rule::RowScaling => "Row scaling (powers of two)"@,
            Rule::ColumnScaling => "Column scaling (powers of two)"@,
        }
    }

    pub open spec fn spec_detail(self) -> Seq<char> {
        match self {
            Rule::FixedToRhs => "a fixed variable's term is a constant: move it to the rhs and drop it"@,
            Rule::SingletonToBound => "a row with one term is a bound: 3x <= 12 becomes x <= 4"@,
            Rule::BoundPropagation => "implied bounds from each row's min/max activity"@,
            Rule::IntegerRounding => "round fractional bounds inwards on integer variables"@,
            Rule::RedundantRows => "drop rows that can never bind; fix variables pinned by forcing rows"@,
            Rule::EmptyRowsCols => "drop termless rows; fix variables appearing in no row"@,
            Rule::RowScaling => "divide each row by 2^k so its largest coefficient is near 1"@,
            Rule::ColumnScaling => "rescale continuous variables by 2^k; the solution is unscaled back"@,
        }
    }

    /// Every rule, in application order.
    pub fn all() -> (res: [Rule; 8])
        ensures
            forall|i: int| 0 <= i < 8 ==> (#[trigger] res@[i]) == Rule::spec_at(i as nat),
    {
        [
            Rule::FixedToRhs,
            Rule::SingletonToBound,
            Rule::BoundPropagation,
            Rule::IntegerRounding,
            Rule::RedundantRows,
            Rule::EmptyRowsCols,
            Rule::RowScaling,
            Rule::ColumnScaling,
        ]
    }

    /// The rule's position in application order, its index in a [`RuleSet`].
    pub fn index(self) -> (res: usize)
        ensures
            res == self.spec_index(),
            res < RULE_COUNT,
    {
        match self {
            Rule::FixedToRhs => 0,
            Rule::SingletonToBound => 1,
            Rule::BoundPropagation => 2,
            Rule::IntegerRounding => 3,
            Rule::RedundantRows => 4,
            Rule::EmptyRowsCols => 5,
            Rule::RowScaling => 6,
            Rule::ColumnScaling => 7,
        }
    }

    /// Short name shown in the picker.
    pub fn label(self) -> (res: &'static str)
        ensures
            res@ == self.spec_label(),
    {
        match self {
            Rule::FixedToRhs => "Fixed columns \u{2192} rhs (thins rows)",
            Rule::SingletonToBound => "Singleton rows \u{2192} bounds",
            Rule::BoundPropagation => "Bound propagation",
            Rule::IntegerRounding => "Integer bound rounding",
            Rule::RedundantRows => "Redundant & forcing rows",
            Rule::EmptyRowsCols => "Empty rows & columns",
            Rule::RowScaling => "Row scaling (powers of two)",
            Rule::ColumnScaling => "Column scaling (powers of two)",
        }
    }

    /// One-line explanation shown under the picker.
    pub fn detail(self) -> (res: &'static str)
        ensures
            res@ == self.spec_detail(),
    {
        match self {
            Rule::FixedToRhs => "a fixed variable's term is a constant: move it to the rhs and drop it",
            Rule::SingletonToBound => "a row with one term is a bound: 3x <= 12 becomes x <= 4",
            Rule::BoundPropagation => "implied bounds from each row's min/max activity",
            Rule::IntegerRounding => "round fractional bounds inwards on integer variables",
            Rule::RedundantRows => "drop rows that can never bind; fix variables pinned by forcing rows",
            Rule::EmptyRowsCols => "drop termless rows; fix variables appearing in no row",
            Rule::RowScaling => "divide each row by 2^k so its largest coefficient is near 1",
            Rule::ColumnScaling => "rescale continuous variables by 2^k; the solution is unscaled back",
        }
    }
}

/// A rule's position identifies it.
pub proof fn lemma_rule_index_round_trip(rule: Rule)
    ensures
        Rule::spec_at(rule.spec_index()) == rule,
        rule.spec_index() < RULE_COUNT,
{
}

/// All rules enabled: the default for the picker.
pub fn all_rules() -> (res: RuleSet)
    ensures
        forall|i: int| 0 <= i < 8 ==> #[trigger] res@[i],
{
    [true, true, true, true, true, true, true, true]
}

/// Whether `rule` is enabled in `rules`.
pub fn enabled(rules: RuleSet, rule: Rule) -> (res: bool)
    ensures
        res == rules@[rule.spec_index() as int],
{
    rules[rule.index()]
}

/// Whether a pass runs `rule`: it must be enabled, and once a rule has
/// proved the model infeasible only the two rules that come before any such
/// proof still run.
pub open spec fn spec_runs_rule(rules: RuleSet, rule: Rule, infeasible: bool) -> bool {
    rules@[rule.spec_index() as int] && (rule == Rule::FixedToRhs || rule == Rule::SingletonToBound || !infeasible)
}

/// Whether a pass runs `rule`, given whether infeasibility has been proved.
pub fn runs_rule(rules: RuleSet, rule: Rule, infeasible: bool) -> (res: bool)
    ensures
        res == spec_runs_rule(rules, rule, infeasible),
{
    match rule {
        Rule::FixedToRhs | Rule::SingletonToBound => enabled(rules, rule),
        _ => !infeasible && enabled(rules, rule),
    }
}

/// What one fixpoint pass achieved.
#[derive(Debug, Clone, Copy, Default, PartialEq, Eq, Structural)]
pub struct PassStats {
    pub rows_removed: usize,
    pub cols_fixed: usize,
    pub bounds_tightened: usize,
    /// Non-zeros dropped from rows by folding fixed columns into the rhs.
    pub terms_removed: usize,
    /// Rows divided by a power of two by the scaling rule.
    pub rows_scaled: usize,
    /// Columns rescaled by a power of two by the scaling rule.
    pub cols_scaled: usize,
}

impl PassStats {
    pub open spec fn spec_is_empty(self) -> bool {
        self.rows_removed == 0 && self.cols_fixed == 0 && self.bounds_tightened == 0 && self.terms_removed == 0
            && self.rows_scaled == 0 && self.cols_scaled == 0
    }

    /// Whether the pass changed nothing: the fixpoint has been reached.
    pub fn is_empty(self) -> (res: bool)
        ensures
            res == self.spec_is_empty(),
    {
        self.rows_removed == 0 && self.cols_fixed == 0 && self.bounds_tightened == 0 && self.terms_removed == 0
            && self.rows_scaled == 0 && self.cols_scaled == 0
    }
}

/// What the run does after a pass: record the pass unless it changed
/// nothing, and stop when it changed nothing, when infeasibility was proved,
/// or when this was the last pass allowed.
pub open spec fn spec_after_pass(pass: PassStats, infeasible: bool, pass_number: nat) -> (bool, bool) {
    (!pass.spec_is_empty(), pass.spec_is_empty() || infeasible || pass_number + 1 >= MAX_PASSES)
}

/// Decide what follows pass number `pass_number` (counting from 0): whether
/// to record it, and whether the run stops.
pub fn after_pass(pass: PassStats, infeasible: bool, pass_number: usize) -> (res: (bool, bool))
    requires
        pass_number < MAX_PASSES,
    ensures
        res == spec_after_pass(pass, infeasible, pass_number as nat),
{
    let converged = pass.is_empty();
    (!converged, converged || infeasible || pass_number + 1 >= MAX_PASSES)
}

/// With every rule disabled a pass runs nothing, so the run is a no-op:
/// the pass changes nothing, is not recorded, and the run stops after it.
pub proof fn lemma_disabled_rules_change_nothing(rules: RuleSet, rule: Rule, infeasible: bool)
    requires
        forall|i: int| 0 <= i < 8 ==> !(#[trigger] rules@[i]),
    ensures
        !spec_runs_rule(rules, rule, infeasible),
        spec_after_pass(
            (PassStats {
                rows_removed: 0,
                cols_fixed: 0,
                bounds_tightened: 0,
                terms_removed: 0,
                rows_scaled: 0,
                cols_scaled: 0,
            }),
            infeasible,
            0,
        ) == (false, true),
{
    lemma_rule_index_round_trip(rule);
}

/// A run records exactly the passes that changed something, stops at the
/// first that changed nothing or proved infeasibility, and never runs more
/// than `MAX_PASSES` passes.
pub proof fn lemma_passes_are_bounded(pass: PassStats, infeasible: bool, pass_number: nat)
    requires
        pass_number < MAX_PASSES,
    ensures
        spec_after_pass(pass, infeasible, pass_number).0 <==> !pass.spec_is_empty(),
        pass.spec_is_empty() || infeasible ==> spec_after_pass(pass, infeasible, pass_number).1,
        pass_number + 1 == MAX_PASSES ==> spec_after_pass(pass, infeasible, pass_number).1,
{
}

/// The sum of one counter over a run's passes.
pub open spec fn pass_total(passes: Seq<PassStats>, field: spec_fn(PassStats) -> usize) -> nat
    decreases passes.len(),
{
    if passes.len() == 0 {
        0
    } else {
        pass_total(passes.drop_last(), field) + field(passes.last()) as nat
    }
}

pub open spec fn cols_fixed_of(pass: PassStats) -> usize {
    pass.cols_fixed
}

pub open spec fn bounds_tightened_of(pass: PassStats) -> usize {
    pass.bounds_tightened
}

pub open spec fn terms_removed_of(pass: PassStats) -> usize {
    pass.terms_removed
}

pub open spec fn rows_scaled_of(pass: PassStats) -> usize {
    pass.rows_scaled
}

pub open spec fn cols_scaled_of(pass: PassStats) -> usize {
    pass.cols_scaled
}

fn sum_passes(passes: &Vec<PassStats>, field: u8) -> (res: usize)
    requires
        field < 5,
        pass_total(
            passes@,
            if field == 0 {
                |p: PassStats| cols_fixed_of(p)
            } else if field == 1 {
                |p: PassStats| bounds_tightened_of(p)
            } else if field == 2 {
                |p: PassStats| terms_removed_of(p)
            } else if field == 3 {
                |p: PassStats| rows_scaled_of(p)
            } else {
                |p: PassStats| cols_scaled_of(p)
            },
        ) <= usize::MAX,
    ensures
        res == pass_total(
            passes@,
            if field == 0 {
                |p: PassStats| cols_fixed_of(p)
            } else if field == 1 {
                |p: PassStats| bounds_tightened_of(p)
            } else if field == 2 {
                |p: PassStats| terms_removed_of(p)
            } else if field == 3 {
                |p: PassStats| rows_scaled_of(p)
            } else {
                |p: PassStats| cols_scaled_of(p)
            },
        ),
{
    let ghost f = if field == 0 {
        |p: PassStats| cols_fixed_of(p)
    } else if field == 1 {
        |p: PassStats| bounds_tightened_of(p)
    } else if field == 2 {
        |p: PassStats| terms_removed_of(p)
    } else if field == 3 {
        |p: PassStats| rows_scaled_of(p)
    } else {
        |p: PassStats| cols_scaled_of(p)
    };
    let mut total: usize = 0;
    let mut i: usize = 0;
    while i < passes.len()
        invariant
            i <= passes@.len(),
            total == pass_total(passes@.take(i as int), f),
            pass_total(passes@, f) <= usize::MAX,
            field < 5,
            f == (if field == 0 {
                |p: PassStats| cols_fixed_of(p)
            } else if field == 1 {
                |p: PassStats| bounds_tightened_of(p)
            } else if field == 2 {
                |p: PassStats| terms_removed_of(p)
            } else if field == 3 {
                |p: PassStats| rows_scaled_of(p)
            } else {
                |p: PassStats| cols_scaled_of(p)
            }),
        decreases passes@.len() - i,
    {
        let pass = passes[i];
        proof {
            assert(passes@.take(i + 1).drop_last() =~= passes@.take(i as int));
            lemma_pass_total_prefix(passes@, f, i + 1);
        }
        let value = if field == 0 {
            pass.cols_fixed
        } else if field == 1 {
            pass.bounds_tightened
        } else if field == 2 {
            pass.terms_removed
        } else if field == 3 {
            pass.rows_scaled
        } else {
            pass.cols_scaled
        };
        total = total + value;
        i = i + 1;
    }
    assert(passes@.take(i as int) =~= passes@);
    total
}

proof fn lemma_pass_total_prefix(passes: Seq<PassStats>, field: spec_fn(PassStats) -> usize, n: int)
    requires
        0 <= n <= passes.len(),
    ensures
        pass_total(passes.take(n), field) <= pass_total(passes, field),
    decreases passes.len() - n,
{
    if n < passes.len() {
        assert(passes.drop_last().take(n) =~= passes.take(n));
        lemma_pass_total_prefix(passes.drop_last(), field, n);
    } else {
        assert(passes.take(n) =~= passes);
    }
}

/// Outcome of a presolve run, apart from the scale factors it applied.
#[derive(Debug)]
pub struct PresolveStats {
    /// Per-pass totals; length is the number of passes that changed something.
    pub per_pass: Vec<PassStats>,
    /// Row count before any rule ran.
    pub rows_before: usize,
    /// Row count after the fixpoint.
    pub rows_after: usize,
    /// Column count (unchanged: presolve fixes columns, it never removes them).
    pub cols: usize,
    /// Wall-clock time for the whole run.
    pub duration: Elapsed,
    /// Set when a rule proved the model infeasible. The rewritten problem is
    /// not usable in that case and the run stops immediately.
    pub infeasible: Option<String>,
}

impl PresolveStats {
    pub open spec fn spec_cols_fixed(&self) -> nat {
        pass_total(self.per_pass@, |p: PassStats| cols_fixed_of(p))
    }

    pub open spec fn spec_bounds_tightened(&self) -> nat {
        pass_total(self.per_pass@, |p: PassStats| bounds_tightened_of(p))
    }

    pub open spec fn spec_terms_removed(&self) -> nat {
        pass_total(self.per_pass@, |p: PassStats| terms_removed_of(p))
    }

    pub open spec fn spec_rows_scaled(&self) -> nat {
        pass_total(self.per_pass@, |p: PassStats| rows_scaled_of(p))
    }

    pub open spec fn spec_cols_scaled(&self) -> nat {
        pass_total(self.per_pass@, |p: PassStats| cols_scaled_of(p))
    }

    /// What a run can report: it never adds rows, its totals fit the
    /// counters, and its time is a proper duration.
    pub open spec fn consistent(&self) -> bool {
        &&& self.rows_after <= self.rows_before
        &&& self.duration.wf()
        &&& self.spec_cols_fixed() <= usize::MAX
        &&& self.spec_bounds_tightened() <= usize::MAX
        &&& self.spec_terms_removed() <= usize::MAX
        &&& self.spec_rows_scaled() <= usize::MAX
        &&& self.spec_cols_scaled() <= usize::MAX
    }

    /// Total rows removed across all passes.
    pub fn rows_removed(&self) -> (res: usize)
        requires
            self.rows_after <= self.rows_before,
        ensures
            res == self.rows_before - self.rows_after,
    {
        self.rows_before - self.rows_after
    }

    /// Total columns fixed across all passes.
    pub fn cols_fixed(&self) -> (res: usize)
        requires
            self.spec_cols_fixed() <= usize::MAX,
        ensures
            res == self.spec_cols_fixed(),
    {
        sum_passes(&self.per_pass, 0)
    }

    /// Total bound tightenings across all passes.
    pub fn bounds_tightened(&self) -> (res: usize)
        requires
            self.spec_bounds_tightened() <= usize::MAX,
        ensures
            res == self.spec_bounds_tightened(),
    {
        sum_passes(&self.per_pass, 1)
    }

    /// Total non-zeros dropped from rows across all passes.
    pub fn terms_removed(&self) -> (res: usize)
        requires
            self.spec_terms_removed() <= usize::MAX,
        ensures
            res == self.spec_terms_removed(),
    {
        sum_passes(&self.per_pass, 2)
    }

    /// Total rows rescaled across all passes.
    pub fn rows_scaled(&self) -> (res: usize)
        requires
            self.spec_rows_scaled() <= usize::MAX,
        ensures
            res == self.spec_rows_scaled(),
    {
        sum_passes(&self.per_pass, 3)
    }

    /// Total columns rescaled across all passes.
    pub fn cols_scaled(&self) -> (res: usize)
        requires
            self.spec_cols_scaled() <= usize::MAX,
        ensures
            res == self.spec_cols_scaled(),
    {
        sum_passes(&self.per_pass, 4)
    }

    /// Whether the rewrite left the model untouched.
    pub fn is_noop(&self) -> (res: bool)
        ensures
            res == (self.per_pass@.len() == 0),
    {
        self.per_pass.len() == 0
    }

    /// The one-line summary for a run that took `secs` seconds and `nanos`
    /// nanoseconds. The two structural counts appear only when their rule
    /// fired.
    pub open spec fn headline_text(&self, secs: nat, nanos: nat) -> Seq<char> {
        match self.infeasible {
            Some(reason) => "presolve: infeasible \u{2014} "@ + reason@,
            None => if self.per_pass@.len() == 0 {
                "presolve: no change"@
            } else {
                "presolve: -"@ + decimal((self.rows_before - self.rows_after) as nat) + " rows, "@ + decimal(
                    self.spec_cols_fixed(),
                ) + " cols fixed, "@ + decimal(self.spec_bounds_tightened()) + " bounds"@ + (if self.spec_terms_removed()
                    > 0 {
                    ", -"@ + decimal(self.spec_terms_removed()) + " nnz"@
                } else {
                    Seq::empty()
                }) + (if self.spec_rows_scaled() + self.spec_cols_scaled() > 0 {
                    ", "@ + decimal(self.spec_rows_scaled()) + "r/"@ + decimal(self.spec_cols_scaled()) + "c scaled"@
                } else {
                    Seq::empty()
                }) + ", "@ + decimal(self.per_pass@.len()) + " pass(es), "@ + millis_text(secs, nanos)
            },
        }
    }

    /// One-line summary, used as the comparison label for the rewritten side.
    pub fn headline(&self) -> (res: String)
        requires
            self.consistent(),
        ensures
            res@ == self.headline_text(self.duration.secs as nat, self.duration.nanos as nat),
    {
        self.headline_parts(self.duration.secs, self.duration.nanos)
    }

    /// The one-line summary, for a run of `secs` seconds and `nanos`
    /// nanoseconds.
    pub fn headline_parts(&self, secs: u64, nanos: u32) -> (res: String)
        requires
            self.consistent(),
            nanos < 1_000_000_000,
        ensures
            res@ == self.headline_text(secs as nat, nanos as nat),
    {
        let mut out = String::new();
        match &self.infeasible {
            Some(reason) => {
                push_str(&mut out, "presolve: infeasible \u{2014} ");
                push_str(&mut out, reason.as_str());
                return out;
            },
            None => {},
        }
        if self.is_noop() {
            push_str(&mut out, "presolve: no change");
            return out;
        }
        let terms = self.terms_removed();
        let rows_scaled = self.rows_scaled();
        let cols_scaled = self.cols_scaled();
        push_str(&mut out, "presolve: -");
        push_decimal(&mut out, self.rows_removed() as u64);
        push_str(&mut out, " rows, ");
        push_decimal(&mut out, self.cols_fixed() as u64);
        push_str(&mut out, " cols fixed, ");
        push_decimal(&mut out, self.bounds_tightened() as u64);
        push_str(&mut out, " bounds");
        let ghost base = out@;
        if terms > 0 {
            push_str(&mut out, ", -");
            push_decimal(&mut out, terms as u64);
            push_str(&mut out, " nnz");
        }
        let ghost with_terms = out@;
        if rows_scaled > 0 || cols_scaled > 0 {
            push_str(&mut out, ", ");
            push_decimal(&mut out, rows_scaled as u64);
            push_str(&mut out, "r/");
            push_decimal(&mut out, cols_scaled as u64);
            push_str(&mut out, "c scaled");
        }
        push_str(&mut out, ", ");
        push_decimal(&mut out, self.per_pass.len() as u64);
        push_str(&mut out, " pass(es), ");
        push_millis(&mut out, secs, nanos);
        proof {
            assert(with_terms =~= base + (if self.spec_terms_removed() > 0 {
                ", -"@ + decimal(self.spec_terms_removed()) + " nnz"@
            } else {
                Seq::empty()
            }));
        }
        assert(out@ =~= self.headline_text(secs as nat, nanos as nat));
        out
    }
}

} // verus!
