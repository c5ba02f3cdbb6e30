//! Exported files: their names and the detail column of the diff report.
use std::time::{Duration, SystemTime, UNIX_EPOCH};
use vstd::prelude::*;

use crate::diff_model::DiffKind;
use crate::text::{decimal, push_decimal, push_str};

verus! {

#[verifier::external_type_specification]
#[verifier::external_body]
pub struct ExSystemTime(SystemTime);

/// The system clock's reading.
///
/// Wraps `SystemTime::now`; the reading depends on the clock, so nothing is
/// stated of it.
#[verifier::external_body]
fn clock_now() -> (res: SystemTime) {
    SystemTime::now()
}

/// How long after the Unix epoch a reading lies, or `None` for a reading
/// before the epoch.
///
/// Wraps `SystemTime::duration_since` with `UNIX_EPOCH`; the answer depends
/// on the reading, which nothing states, so nothing is stated of it.
#[verifier::external_body]
fn since_epoch(time: &SystemTime) -> (res: Option<Duration>) {
    time.duration_since(UNIX_EPOCH).ok()
}

/// The whole seconds of a duration.
///
/// Wraps `Duration::as_secs`; nothing is stated of its value, which is the
/// duration's own.
#[verifier::external_body]
fn duration_secs(duration: &Duration) -> (res: u64) {
    duration.as_secs()
}

/// The stamp for a clock reading: its seconds, or 0 for a clock before the
/// epoch.
pub fn stamp_from(seconds: Option<u64>) -> (res: u64)
    ensures
        res == match seconds {
            Some(s) => s,
            None => 0,
        },
{
    match seconds {
        Some(s) => s,
        None => 0,
    }
}

/// Seconds since the Unix epoch, used to make exported filenames unique
/// within a session. Deliberately not a wall-clock timestamp: uniqueness is
/// all a filename needs.
pub fn file_stamp() -> (res: u64) {
    let seconds = match since_epoch(&clock_now()) {
        Some(since) => Some(duration_secs(&since)),
        None => None,
    };
    stamp_from(seconds)
}

/// The name of the diff report written at `stamp`.
pub open spec fn report_file_name(stamp: nat) -> Seq<char> {
    "lp_diff_report_"@ + decimal(stamp) + ".csv"@
}

/// The name of the diff report file for a stamp: `lp_diff_report_<stamp>.csv`.
pub fn diff_report_filename(stamp: u64) -> (res: String)
    ensures
        res@ == report_file_name(stamp as nat),
{
    let mut out = String::new();
    push_str(&mut out, "lp_diff_report_");
    push_decimal(&mut out, stamp);
    push_str(&mut out, ".csv");
    assert(out@ =~= report_file_name(stamp as nat));
    out
}

/// Parts joined with `"; "`.
pub open spec fn joined(parts: Seq<Seq<char>>) -> Seq<char>
    decreases parts.len(),
{
    if parts.len() == 0 {
        Seq::empty()
    } else if parts.len() == 1 {
        parts[0]
    } else {
        joined(parts.drop_last()) + "; "@ + parts.last()
    }
}

/// The characters of each string.
pub open spec fn part_views(parts: Seq<String>) -> Seq<Seq<char>> {
    parts.map_values(|part: String| part@)
}

fn join_parts(parts: &Vec<String>) -> (res: String)
    ensures
        res@ == joined(part_views(parts@)),
{
    let mut out = String::new();
    let mut i: usize = 0;
    while i < parts.len()
        invariant
            i <= parts@.len(),
            out@ == joined(part_views(parts@.take(i as int))),
        decreases parts@.len() - i,
    {
        let ghost before = parts@.take(i as int);
        if i > 0 {
            push_str(&mut out, "; ");
        }
        push_str(&mut out, parts[i].as_str());
        assert(parts@.take(i + 1).drop_last() =~= before);
        assert(part_views(parts@.take(i + 1)).drop_last() =~= part_views(before));
        i = i + 1;
    }
    assert(parts@.take(i as int) =~= parts@);
    out
}

/// The detail column of a variable row: the type it was added or removed
/// with, or its old and new types, `?` standing for a missing one.
pub open spec fn variable_detail_text(kind: DiffKind, old_type: Option<Seq<char>>, new_type: Option<Seq<char>>) -> Seq<
    char,
> {
    let shown = |label: Option<Seq<char>>, missing: Seq<char>|
        match label {
            Some(text) => text,
            None => missing,
        };
    match kind {
        DiffKind::Added => shown(new_type, Seq::empty()),
        DiffKind::Removed => shown(old_type, Seq::empty()),
        DiffKind::Modified => shown(old_type, "?"@) + " -> "@ + shown(new_type, "?"@),
        DiffKind::Renamed => Seq::empty(),
    }
}

pub open spec fn opt_view(text: Option<&str>) -> Option<Seq<char>> {
    match text {
        Some(t) => Some(t@),
        None => None,
    }
}

fn push_or(out: &mut String, text: Option<&str>, missing: &str)
    ensures
        final(out)@ == old(out)@ + match text {
            Some(t) => t@,
            None => missing@,
        },
{
    match text {
        Some(t) => push_str(out, t),
        None => push_str(out, missing),
    }
}

/// The detail column of a variable row.
pub fn variable_csv_detail(kind: DiffKind, old_type: Option<&str>, new_type: Option<&str>) -> (res: String)
    ensures
        res@ == variable_detail_text(kind, opt_view(old_type), opt_view(new_type)),
{
    let mut out = String::new();
    match kind {
        DiffKind::Added => push_or(&mut out, new_type, ""),
        DiffKind::Removed => push_or(&mut out, old_type, ""),
        DiffKind::Modified => {
            push_or(&mut out, old_type, "?");
            push_str(&mut out, " -> ");
            push_or(&mut out, new_type, "?");
        },
        DiffKind::Renamed => {},
    }
    proof {
        reveal_strlit("");
    }
    assert(out@ =~= variable_detail_text(kind, opt_view(old_type), opt_view(new_type)));
    out
}

/// The shape of a constraint, as a type change reports it: a standard row's
/// term count, operator and right-hand side (as printed), or an SOS set's
/// type and weight count.
pub enum ConstraintShape {
    Standard { terms: usize, operator: String, rhs: String },
    Sos { sos_type: String, weights: usize },
}

/// `Standard(3 coeffs, <=, 10)` or `SOS(S1, 2 weights)`.
pub open spec fn shape_text(shape: ConstraintShape) -> Seq<char> {
    match shape {
        ConstraintShape::Standard { terms, operator, rhs } => "Standard("@ + decimal(terms as nat) + " coeffs, "@
            + operator@ + ", "@ + rhs@ + ")"@,
        ConstraintShape::Sos { sos_type, weights } => "SOS("@ + sos_type@ + ", "@ + decimal(weights as nat)
            + " weights)"@,
    }
}

fn push_shape(out: &mut String, shape: &ConstraintShape)
    ensures
        final(out)@ == old(out)@ + shape_text(*shape),
{
    match shape {
        ConstraintShape::Standard { terms, operator, rhs } => {
            push_str(out, "Standard(");
            push_decimal(out, *terms as u64);
            push_str(out, " coeffs, ");
            push_str(out, operator.as_str());
            push_str(out, ", ");
            push_str(out, rhs.as_str());
            push_str(out, ")");
        },
        ConstraintShape::Sos { sos_type, weights } => {
            push_str(out, "SOS(");
            push_str(out, sos_type.as_str());
            push_str(out, ", ");
            push_decimal(out, *weights as u64);
            push_str(out, " weights)");
        },
    }
    assert(final(out)@ =~= old(out)@ + shape_text(*shape));
}

/// What changed in a constraint present in both files.
pub enum ConstraintChange {
    /// Present in one file only: no detail beyond the kind.
    OneSided,
    /// A standard row became an SOS set or the reverse.
    TypeChanged(ConstraintShape, ConstraintShape),
    /// A standard row: the operator and the right-hand side before and after
    /// (as printed) when they changed, how many coefficients changed, and
    /// whether the term order changed.
    Standard { operator: Option<(String, String)>, rhs: Option<(String, String)>, coefficients: usize, order_changed: bool },
    /// An SOS set: its type before and after when it changed, how many
    /// weights changed, and whether their order changed.
    Sos { sos_type: Option<(String, String)>, weights: usize, order_changed: bool },
}

/// `label: old -> new` when there was such a change.
pub open spec fn transition_part(label: Seq<char>, change: Option<(String, String)>) -> Seq<Seq<char>> {
    match change {
        Some((old, new)) => seq![label + old@ + " -> "@ + new@],
        None => Seq::empty(),
    }
}

/// `N <noun>(s) changed` when `count` is not zero.
pub open spec fn count_part(count: usize, noun: Seq<char>) -> Seq<Seq<char>> {
    if count > 0 {
        seq![decimal(count as nat) + " "@ + noun + "(s) changed"@]
    } else {
        Seq::empty()
    }
}

/// `order changed` when it did.
pub open spec fn order_part(order_changed: bool) -> Seq<Seq<char>> {
    if order_changed {
        seq!["order changed"@]
    } else {
        Seq::empty()
    }
}

/// The parts the detail of a modified constraint lists, in order.
pub open spec fn change_parts(change: ConstraintChange) -> Seq<Seq<char>> {
    match change {
        ConstraintChange::Standard { operator, rhs, coefficients, order_changed } => transition_part(
            "operator: "@,
            operator,
        ) + transition_part("rhs: "@, rhs) + count_part(coefficients, "coefficient"@) + order_part(order_changed),
        ConstraintChange::Sos { sos_type, weights, order_changed } => transition_part("SOS type: "@, sos_type)
            + count_part(weights, "weight"@) + order_part(order_changed),
        _ => Seq::empty(),
    }
}

/// The detail column of a constraint row: where it was renamed from; that
/// only its order changed; what its type changed from and to, whatever its
/// kind; nothing else for an entry that is not modified; else its changes
/// joined with `"; "`.
pub open spec fn constraint_detail_text(
    renamed_from: Option<Seq<char>>,
    order_only: bool,
    kind: DiffKind,
    change: ConstraintChange,
) -> Seq<char> {
    match renamed_from {
        Some(old_name) => "renamed from "@ + old_name,
        None => if order_only {
            "order change only"@
        } else {
            match change {
                ConstraintChange::TypeChanged(old, new) => shape_text(old) + " -> "@ + shape_text(new),
                _ => if kind != DiffKind::Modified {
                    Seq::empty()
                } else {
                    joined(change_parts(change))
                },
            }
        },
    }
}

/// A modified constraint's detail reports a change of term order last, and
/// only then: with the order changed, the detail is the one without, then
/// `; order changed` (or `order changed` alone where nothing else changed),
/// for standard rows and SOS rows alike.
pub proof fn lemma_order_change_is_reported_last(
    operator: Option<(String, String)>,
    rhs: Option<(String, String)>,
    coefficients: usize,
    sos_type: Option<(String, String)>,
    weights: usize,
)
    ensures
        ({
            let with = constraint_detail_text(
                None,
                false,
                DiffKind::Modified,
                ConstraintChange::Standard { operator, rhs, coefficients, order_changed: true },
            );
            let without = constraint_detail_text(
                None,
                false,
                DiffKind::Modified,
                ConstraintChange::Standard { operator, rhs, coefficients, order_changed: false },
            );
            with == if operator is None && rhs is None && coefficients == 0 {
                "order changed"@
            } else {
                without + "; order changed"@
            }
        }),
        ({
            let with = constraint_detail_text(
                None,
                false,
                DiffKind::Modified,
                ConstraintChange::Sos { sos_type, weights, order_changed: true },
            );
            let without = constraint_detail_text(
                None,
                false,
                DiffKind::Modified,
                ConstraintChange::Sos { sos_type, weights, order_changed: false },
            );
            with == if sos_type is None && weights == 0 {
                "order changed"@
            } else {
                without + "; order changed"@
            }
        }),
        constraint_detail_text(
            None,
            false,
            DiffKind::Modified,
            ConstraintChange::Sos { sos_type: None, weights, order_changed: false },
        ) == if weights > 0 {
            decimal(weights as nat) + " weight(s) changed"@
        } else {
            Seq::empty()
        },
{
    reveal_strlit("; ");
    reveal_strlit("order changed");
    reveal_strlit("; order changed");
    reveal_strlit(" ");
    reveal_strlit("weight");
    reveal_strlit("(s) changed");
    reveal_strlit(" weight(s) changed");
    assert("; "@ + "order changed"@ =~= "; order changed"@);
    let standard = change_parts(ConstraintChange::Standard { operator, rhs, coefficients, order_changed: false });
    assert(change_parts(ConstraintChange::Standard { operator, rhs, coefficients, order_changed: true }) =~= standard.push(
        "order changed"@,
    ));
    assert(standard.push("order changed"@).drop_last() =~= standard);
    if standard.len() == 0 {
        assert(standard.push("order changed"@) =~= seq!["order changed"@]);
    }
    let sos = change_parts(ConstraintChange::Sos { sos_type, weights, order_changed: false });
    assert(change_parts(ConstraintChange::Sos { sos_type, weights, order_changed: true }) =~= sos.push(
        "order changed"@,
    ));
    assert(sos.push("order changed"@).drop_last() =~= sos);
    if sos.len() == 0 {
        assert(sos.push("order changed"@) =~= seq!["order changed"@]);
    }
    let weights_only = change_parts(ConstraintChange::Sos { sos_type: None, weights, order_changed: false });
    if weights > 0 {
        assert(decimal(weights as nat) + " "@ + "weight"@ + "(s) changed"@ =~= decimal(weights as nat) + " weight(s) changed"@);
        assert(weights_only =~= seq![decimal(weights as nat) + " weight(s) changed"@]);
    } else {
        assert(weights_only =~= Seq::<Seq<char>>::empty());
    }
}

/// With every kind of change present, a modified row's detail names them all,
/// in order: the operator or SOS type transition, the right-hand side
/// transition, the count of changed coefficients or weights, and the order
/// change.
pub proof fn lemma_full_detail_lists_every_change(
    old_op: String,
    new_op: String,
    old_rhs: String,
    new_rhs: String,
    count: usize,
)
    requires
        count > 0,
    ensures
        constraint_detail_text(
            None,
            false,
            DiffKind::Modified,
            ConstraintChange::Standard {
                operator: Some((old_op, new_op)),
                rhs: Some((old_rhs, new_rhs)),
                coefficients: count,
                order_changed: true,
            },
        ) == "operator: "@ + old_op@ + " -> "@ + new_op@ + "; rhs: "@ + old_rhs@ + " -> "@ + new_rhs@ + "; "@ + decimal(
            count as nat,
        ) + " coefficient(s) changed; order changed"@,
        constraint_detail_text(
            None,
            false,
            DiffKind::Modified,
            ConstraintChange::Sos { sos_type: Some((old_op, new_op)), weights: count, order_changed: true },
        ) == "SOS type: "@ + old_op@ + " -> "@ + new_op@ + "; "@ + decimal(count as nat)
            + " weight(s) changed; order changed"@,
{
    reveal_strlit("; ");
    reveal_strlit("order changed");
    reveal_strlit(" ");
    reveal_strlit("(s) changed");
    reveal_strlit("coefficient");
    reveal_strlit("weight");
    reveal_strlit("rhs: ");
    reveal_strlit("; rhs: ");
    reveal_strlit(" coefficient(s) changed; order changed");
    reveal_strlit(" weight(s) changed; order changed");
    let op_part = "operator: "@ + old_op@ + " -> "@ + new_op@;
    let rhs_part = "rhs: "@ + old_rhs@ + " -> "@ + new_rhs@;
    let coeff_part = decimal(count as nat) + " "@ + "coefficient"@ + "(s) changed"@;
    let standard = seq![op_part, rhs_part, coeff_part, "order changed"@];
    assert(change_parts(
        ConstraintChange::Standard {
            operator: Some((old_op, new_op)),
            rhs: Some((old_rhs, new_rhs)),
            coefficients: count,
            order_changed: true,
        },
    ) =~= standard);
    assert(standard.drop_last() =~= seq![op_part, rhs_part, coeff_part]);
    assert(standard.drop_last().drop_last() =~= seq![op_part, rhs_part]);
    assert(standard.drop_last().drop_last().drop_last() =~= seq![op_part]);
    let one = seq![op_part];
    let two = seq![op_part, rhs_part];
    let three = seq![op_part, rhs_part, coeff_part];
    assert(joined(one) == op_part);
    assert(two.drop_last() =~= one);
    assert(joined(two) == joined(one) + "; "@ + rhs_part);
    assert(three.drop_last() =~= two);
    assert(joined(three) == joined(two) + "; "@ + coeff_part);
    assert(standard.drop_last() =~= three);
    assert(joined(standard) == joined(three) + "; "@ + "order changed"@);
    assert(joined(standard) =~= op_part + "; "@ + rhs_part + "; "@ + coeff_part + "; "@ + "order changed"@);
    let type_part = "SOS type: "@ + old_op@ + " -> "@ + new_op@;
    let weight_part = decimal(count as nat) + " "@ + "weight"@ + "(s) changed"@;
    let sos = seq![type_part, weight_part, "order changed"@];
    assert(change_parts(
        ConstraintChange::Sos { sos_type: Some((old_op, new_op)), weights: count, order_changed: true },
    ) =~= sos);
    assert(sos.drop_last() =~= seq![type_part, weight_part]);
    assert(sos.drop_last().drop_last() =~= seq![type_part]);
    let first = seq![type_part];
    let pair = seq![type_part, weight_part];
    assert(joined(first) == type_part);
    assert(pair.drop_last() =~= first);
    assert(joined(pair) == joined(first) + "; "@ + weight_part);
    assert(sos.drop_last() =~= pair);
    assert(joined(sos) == joined(pair) + "; "@ + "order changed"@);
    assert(joined(sos) =~= type_part + "; "@ + weight_part + "; "@ + "order changed"@);
}

fn push_transition(parts: &mut Vec<String>, label: &str, change: &Option<(String, String)>)
    ensures
        part_views(final(parts)@) == part_views(old(parts)@) + transition_part(label@, *change),
{
    let ghost before = old(parts)@;
    match change {
        Some((old_text, new_text)) => {
            let mut part = String::new();
            push_str(&mut part, label);
            push_str(&mut part, old_text.as_str());
            push_str(&mut part, " -> ");
            push_str(&mut part, new_text.as_str());
            parts.push(part);
        },
        None => {},
    }
    assert(part_views(parts@) =~= part_views(before) + transition_part(label@, *change));
}

fn push_count(parts: &mut Vec<String>, count: usize, noun: &str)
    ensures
        part_views(final(parts)@) == part_views(old(parts)@) + count_part(count, noun@),
{
    let ghost before = old(parts)@;
    if count > 0 {
        let mut part = String::new();
        push_decimal(&mut part, count as u64);
        push_str(&mut part, " ");
        push_str(&mut part, noun);
        push_str(&mut part, "(s) changed");
        parts.push(part);
    }
    assert(part_views(parts@) =~= part_views(before) + count_part(count, noun@));
}

fn push_order(parts: &mut Vec<String>, order_changed: bool)
    ensures
        part_views(final(parts)@) == part_views(old(parts)@) + order_part(order_changed),
{
    let ghost before = old(parts)@;
    if order_changed {
        let mut part = String::new();
        push_str(&mut part, "order changed");
        parts.push(part);
    }
    assert(part_views(parts@) =~= part_views(before) + order_part(order_changed));
}

/// The detail column of a constraint row.
pub fn constraint_csv_detail(
    renamed_from: Option<&str>,
    order_only: bool,
    kind: DiffKind,
    change: &ConstraintChange,
) -> (res: String)
    ensures
        res@ == constraint_detail_text(opt_view(renamed_from), order_only, kind, *change),
{
    let mut out = String::new();
    if let Some(old_name) = renamed_from {
        push_str(&mut out, "renamed from ");
        push_str(&mut out, old_name);
        return out;
    }
    if order_only {
        push_str(&mut out, "order change only");
        return out;
    }
    if let ConstraintChange::TypeChanged(old_shape, new_shape) = change {
        push_shape(&mut out, old_shape);
        push_str(&mut out, " -> ");
        push_shape(&mut out, new_shape);
        return out;
    }
    if kind != DiffKind::Modified {
        return out;
    }
    let mut parts: Vec<String> = Vec::new();
    match change {
        ConstraintChange::Standard { operator, rhs, coefficients, order_changed } => {
            push_transition(&mut parts, "operator: ", operator);
            push_transition(&mut parts, "rhs: ", rhs);
            push_count(&mut parts, *coefficients, "coefficient");
            push_order(&mut parts, *order_changed);
        },
        ConstraintChange::Sos { sos_type, weights, order_changed } => {
            push_transition(&mut parts, "SOS type: ", sos_type);
            push_count(&mut parts, *weights, "weight");
            push_order(&mut parts, *order_changed);
        },
        _ => {},
    }
    assert(part_views(parts@) =~= change_parts(*change));
    join_parts(&parts)
}

/// The detail column of an objective row: that only its order changed, or
/// how many coefficients changed and whether their order did, joined with
/// `"; "`.
pub open spec fn objective_detail_text(order_only: bool, coefficients: usize, order_changed: bool) -> Seq<char> {
    if order_only {
        "order change only"@
    } else {
        joined(count_part(coefficients, "coefficient"@) + order_part(order_changed))
    }
}

/// The detail column of an objective row.
pub fn objective_csv_detail(order_only: bool, coefficients: usize, order_changed: bool) -> (res: String)
    ensures
        res@ == objective_detail_text(order_only, coefficients, order_changed),
{
    if order_only {
        let mut out = String::new();
        push_str(&mut out, "order change only");
        return out;
    }
    let mut parts: Vec<String> = Vec::new();
    push_count(&mut parts, coefficients, "coefficient");
    push_order(&mut parts, order_changed);
    assert(part_views(parts@) =~= count_part(coefficients, "coefficient"@) + order_part(order_changed));
    join_parts(&parts)
}

} // verus!
