//! Mapping byte offsets to 1-based line numbers within source text.
use vstd::prelude::*;
use vstd::string::StringSliceAdditionalSpecFns;

verus! {

/// How many newline bytes come before byte offset `offset`.
pub open spec fn newlines_before(bytes: Seq<u8>, offset: int) -> nat
    decreases offset,
{
    if offset <= 0 || offset > bytes.len() {
        0
    } else {
        newlines_before(bytes, offset - 1) + if bytes[offset - 1] == 10u8 { 1nat } else { 0nat }
    }
}

/// The 1-based line a byte offset falls on: one more than the number of
/// newlines before it.
pub open spec fn line_of(bytes: Seq<u8>, offset: int) -> nat {
    1 + newlines_before(bytes, offset)
}

proof fn lemma_newlines_monotone(bytes: Seq<u8>, p: int, q: int)
    requires
        0 <= p <= q <= bytes.len(),
    ensures
        newlines_before(bytes, p) <= newlines_before(bytes, q),
    decreases q - p,
{
    if p < q {
        lemma_newlines_monotone(bytes, p, q - 1);
    }
}

/// Index mapping byte offsets to 1-based line numbers within source text.
///
/// Built once per input file, then used to convert the byte offsets of
/// constraints into line numbers before the input text is dropped.
pub struct LineIndex {
    /// Byte offsets of each line start: 0, then the byte after each newline.
    line_starts: Vec<usize>,
    /// Length of the source in bytes.
    source_len: usize,
    /// The source bytes the index was built from.
    source: Ghost<Seq<u8>>,
}

impl LineIndex {
    /// The source bytes the index describes.
    pub closed spec fn source(&self) -> Seq<u8> {
        self.source@
    }

    /// Every recorded start is a line start, the k-th one with k newlines
    /// before it, and there is one more start than the source has newlines.
    pub closed spec fn wf(&self) -> bool {
        let src = self.source@;
        &&& self.source_len == src.len()
        &&& self.line_starts@.len() == newlines_before(src, src.len() as int) + 1
        &&& self.line_starts@[0] == 0
        &&& forall|k: int|
            0 <= k < self.line_starts@.len() ==> {
                &&& #[trigger] self.line_starts@[k] <= src.len()
                &&& newlines_before(src, self.line_starts@[k] as int) == k
                &&& k > 0 ==> src[self.line_starts@[k] - 1] == 10u8
            }
    }

    /// Build a line index from the full source text.
    pub fn new(source: &str) -> (res: LineIndex)
        ensures
            res.wf(),
            res.source() == source.spec_bytes(),
    {
        let bytes = source.as_bytes();
        let ghost src = bytes@;
        let mut line_starts: Vec<usize> = Vec::new();
        line_starts.push(0);
        let mut i: usize = 0;
        while i < bytes.len()
            invariant
                src == bytes@,
                i <= src.len(),
                line_starts@.len() == newlines_before(src, i as int) + 1,
                line_starts@[0] == 0,
                forall|k: int|
                    0 <= k < line_starts@.len() ==> {
                        &&& #[trigger] line_starts@[k] <= i
                        &&& newlines_before(src, line_starts@[k] as int) == k
                        &&& k > 0 ==> src[line_starts@[k] - 1] == 10u8
                    },
            decreases src.len() - i,
        {
            assert(newlines_before(src, i + 1) == newlines_before(src, i as int) + if src[i as int] == 10u8 { 1nat } else { 0nat });
            if bytes[i] == 10u8 {
                line_starts.push(i + 1);
            }
            i = i + 1;
        }
        LineIndex { line_starts, source_len: bytes.len(), source: Ghost(src) }
    }

    /// Convert a byte offset to a 1-based line number.
    ///
    /// Returns `None` if `byte_offset` is past the end of the source.
    pub fn line_number(&self, byte_offset: usize) -> (res: Option<usize>)
        requires
            self.wf(),
        ensures
            byte_offset <= self.source().len() ==> res == Some(line_of(self.source(), byte_offset as int) as usize),
            byte_offset > self.source().len() ==> res is None,
    {
        if byte_offset > self.source_len {
            return None;
        }
        let ghost src = self.source@;
        let starts = &self.line_starts;
        let mut lo: usize = 0;
        let mut hi: usize = starts.len();
        while hi - lo > 1
            invariant
                self.wf(),
                src == self.source@,
                starts@ == self.line_starts@,
                byte_offset <= src.len(),
                lo < hi <= starts@.len(),
                starts@[lo as int] <= byte_offset,
                hi < starts@.len() ==> starts@[hi as int] > byte_offset,
            decreases hi - lo,
        {
            let mid = lo + (hi - lo) / 2;
            if starts[mid] <= byte_offset {
                lo = mid;
            } else {
                hi = mid;
            }
        }
        proof {
            let k = lo as int;
            let s = starts@[k] as int;
            assert(newlines_before(src, s) == k);
            lemma_newlines_monotone(src, s, byte_offset as int);
            if hi < starts@.len() {
                let next = starts@[k + 1] as int;
                assert(newlines_before(src, next) == k + 1);
                assert(src[next - 1] == 10u8);
                assert(newlines_before(src, next) == newlines_before(src, next - 1) + 1);
                lemma_newlines_monotone(src, byte_offset as int, next - 1);
            } else {
                lemma_newlines_monotone(src, byte_offset as int, src.len() as int);
            }
            assert(newlines_before(src, byte_offset as int) == k);
        }
        Some(lo + 1)
    }
}

/// An offset on the first line — before the first newline — is line 1, and
/// each newline passed moves the line number on by exactly one.
pub proof fn lemma_line_of_steps(bytes: Seq<u8>, offset: int)
    requires
        0 <= offset < bytes.len(),
    ensures
        line_of(bytes, 0) == 1,
        line_of(bytes, offset + 1) == line_of(bytes, offset) + if bytes[offset] == 10u8 { 1nat } else { 0nat },
{
}

} // verus!
