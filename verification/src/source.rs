//! Reading a model's text: the parse, the index from byte offsets to source
//! lines, and the line each constraint was written on.
use lp_parser_rs::problem::LpProblem;
use vstd::prelude::*;
use vstd::string::StringSliceAdditionalSpecFns;

use crate::line_index::{line_of, LineIndex};
use crate::text::push_str;

verus! {

#[verifier::external_type_specification]
#[verifier::external_body]
pub struct ExLpProblem(LpProblem);

/// What `LpProblem::parse` makes of `text`: where it parses, the byte offset
/// at which each constraint was written (`Constraint::byte_offset`), in the
/// problem's constraint order; where it does not, the error's message.
pub uninterp spec fn lp_parse_outcome(text: Seq<char>) -> Result<Seq<Option<usize>>, Seq<char>>;

/// Parses `text` as an LP model with `LpProblem::parse`, and hands out with
/// the problem the byte offset of each of its constraints, one per
/// constraint in the problem's order.
///
/// Claims that the outcome, offsets or message, is the one `lp_parse_outcome`
/// names for the text; what else a parsed problem holds is left to the
/// parser.
#[verifier::external_body]
fn parse_lp_text(text: &str) -> (res: Result<(LpProblem, Vec<Option<usize>>), String>)
    ensures
        match res {
            Ok((_, offsets)) => lp_parse_outcome(text@) == Ok::<Seq<Option<usize>>, Seq<char>>(offsets@),
            Err(message) => lp_parse_outcome(text@) == Err::<Seq<Option<usize>>, Seq<char>>(message@),
        },
{
    match LpProblem::parse(text) {
        Ok(problem) => {
            let mut offsets = Vec::new();
            for constraint in problem.constraints.values() {
                offsets.push(constraint.byte_offset());
            }
            Ok((problem, offsets))
        },
        Err(error) => Err(error.to_string()),
    }
}

/// The source line of a byte offset, where the offset is known and within the
/// text.
pub open spec fn offset_line(source: Seq<u8>, offset: Option<usize>) -> Option<usize> {
    match offset {
        Some(at) => if at <= source.len() {
            Some(line_of(source, at as int) as usize)
        } else {
            None
        },
        None => None,
    }
}

/// The source line of each offset in turn.
pub fn constraint_lines(index: &LineIndex, offsets: &Vec<Option<usize>>) -> (res: Vec<Option<usize>>)
    requires
        index.wf(),
    ensures
        res@.len() == offsets@.len(),
        forall|i: int| 0 <= i < offsets@.len() ==> res@[i] == offset_line(index.source(), #[trigger] offsets@[i]),
{
    let mut lines: Vec<Option<usize>> = Vec::new();
    let mut i: usize = 0;
    while i < offsets.len()
        invariant
            index.wf(),
            i <= offsets@.len(),
            lines@.len() == i,
            forall|k: int| 0 <= k < i ==> lines@[k] == offset_line(index.source(), #[trigger] offsets@[k]),
        decreases offsets@.len() - i,
    {
        let line = match offsets[i] {
            Some(at) => index.line_number(at),
            None => None,
        };
        lines.push(line);
        i = i + 1;
    }
    lines
}

/// A parsed model with what ties it to its text.
pub struct ParsedSource {
    pub problem: LpProblem,
    /// Line starts of the text the model was parsed from.
    pub index: LineIndex,
    /// The byte offset of each constraint, in the problem's constraint order.
    pub offsets: Vec<Option<usize>>,
    /// The source line of each constraint, in the same order.
    pub lines: Vec<Option<usize>>,
}

/// What `parse_lp_source` says when `text`, read from `label`, does not parse.
pub open spec fn parse_failure_text(label: Seq<char>, message: Seq<char>) -> Seq<char> {
    "failed to parse '"@ + label + "': "@ + message
}

/// Parse the text of a model read from `label`, and place each constraint on
/// the line it was written on.
pub fn parse_lp_source(label: &str, text: &str) -> (res: Result<ParsedSource, String>)
    ensures
        res is Ok <==> lp_parse_outcome(text@) is Ok,
        res matches Err(message) ==> (lp_parse_outcome(text@) matches Err(error) && message@
            == parse_failure_text(label@, error)),
        res matches Ok(parsed) ==> {
            &&& lp_parse_outcome(text@) == Ok::<Seq<Option<usize>>, Seq<char>>(parsed.offsets@)
            &&& parsed.index.wf()
            &&& parsed.index.source() == text.spec_bytes()
            &&& parsed.lines@.len() == parsed.offsets@.len()
            &&& forall|i: int|
                0 <= i < parsed.offsets@.len() ==> parsed.lines@[i] == offset_line(
                    text.spec_bytes(),
                    #[trigger] parsed.offsets@[i],
                )
        },
{
    match parse_lp_text(text) {
        Err(error) => {
            let mut message = String::new();
            push_str(&mut message, "failed to parse '");
            push_str(&mut message, label);
            push_str(&mut message, "': ");
            push_str(&mut message, error.as_str());
            assert(message@ =~= parse_failure_text(label@, error@));
            Err(message)
        },
        Ok((problem, offsets)) => {
            let index = LineIndex::new(text);
            let lines = constraint_lines(&index, &offsets);
            Ok(ParsedSource { problem, index, offsets, lines })
        },
    }
}

} // verus!
