//! Splitting text into lines the way `str::lines` does, as index ranges into
//! the text's characters, so callers can take the lines as slices.
use vstd::prelude::*;

verus! {

/// The pieces `str::split` yields for a single-character separator: the text
/// between consecutive separators, with one more piece than separators.
pub open spec fn split_pieces(s: Seq<char>, separator: char) -> Seq<Seq<char>>
    decreases s.len(),
{
    if s.len() == 0 {
        seq![Seq::empty()]
    } else if s.last() == separator {
        split_pieces(s.drop_last(), separator).push(Seq::empty())
    } else {
        let pieces = split_pieces(s.drop_last(), separator);
        pieces.update(pieces.len() - 1, pieces.last().push(s.last()))
    }
}

/// A line with one carriage return dropped from its end.
pub open spec fn strip_cr(line: Seq<char>) -> Seq<char> {
    if line.len() > 0 && line.last() == '\r' {
        line.drop_last()
    } else {
        line
    }
}

/// The lines `str::lines` yields: the text split at each `\n`, a final `\n`
/// not starting an empty line, and the `\r` of each `\r\n` dropped.
pub open spec fn text_lines(s: Seq<char>) -> Seq<Seq<char>> {
    if s.len() == 0 {
        Seq::empty()
    } else if s.last() == '\n' {
        split_pieces(s.drop_last(), '\n').map_values(|line: Seq<char>| strip_cr(line))
    } else {
        let pieces = split_pieces(s, '\n');
        pieces.drop_last().map_values(|line: Seq<char>| strip_cr(line)).push(pieces.last())
    }
}

/// The texts that a list of ranges picks out of `s`.
pub open spec fn range_texts(s: Seq<char>, ranges: Seq<(usize, usize)>) -> Seq<Seq<char>> {
    ranges.map_values(|r: (usize, usize)| s.subrange(r.0 as int, r.1 as int))
}

/// Whether every range lies within a text of length `n`.
pub open spec fn ranges_within(ranges: Seq<(usize, usize)>, n: nat) -> bool {
    forall|k: int| 0 <= k < ranges.len() ==> #[trigger] ranges[k].0 <= ranges[k].1 && ranges[k].1 <= n
}

proof fn lemma_split_pieces_nonempty(s: Seq<char>, separator: char)
    ensures
        split_pieces(s, separator).len() >= 1,
    decreases s.len(),
{
    if s.len() > 0 {
        lemma_split_pieces_nonempty(s.drop_last(), separator);
    }
}

/// The line ranges of a text given as characters: line `k` is
/// `chars[res[k].0..res[k].1]`.
pub(crate) fn line_ranges(chars: &Vec<char>) -> (res: Vec<(usize, usize)>)
    ensures
        ranges_within(res@, chars@.len()),
        range_texts(chars@, res@) == text_lines(chars@),
{
    let ghost s = chars@;
    let n = chars.len();
    let mut ranges: Vec<(usize, usize)> = Vec::new();
    let mut start: usize = 0;
    let mut i: usize = 0;
    proof {
        assert(s.take(0) =~= Seq::<char>::empty());
        assert(range_texts(s, ranges@) =~= split_pieces(s.take(0), '\n').drop_last().map_values(
            |line: Seq<char>| strip_cr(line),
        ));
    }
    while i < n
        invariant
            n == s.len(),
            s == chars@,
            start <= i <= n,
            ranges_within(ranges@, n as nat),
            split_pieces(s.take(i as int), '\n').len() >= 1,
            split_pieces(s.take(i as int), '\n').last() == s.subrange(start as int, i as int),
            range_texts(s, ranges@) == split_pieces(s.take(i as int), '\n').drop_last().map_values(
                |line: Seq<char>| strip_cr(line),
            ),
        decreases n - i,
    {
        let ghost before = split_pieces(s.take(i as int), '\n');
        assert(s.take(i + 1).drop_last() =~= s.take(i as int));
        assert(s.take(i + 1).last() == s[i as int]);
        if chars[i] == '\n' {
            let end = if i > start && chars[i - 1] == '\r' { i - 1 } else { i };
            proof {
                assert(s.subrange(start as int, end as int) =~= strip_cr(s.subrange(start as int, i as int)));
            }
            let ghost old_ranges = ranges@;
            let ghost line = s.subrange(start as int, end as int);
            ranges.push((start, end));
            start = i + 1;
            proof {
                let after = split_pieces(s.take(i + 1), '\n');
                assert(after == before.push(Seq::empty()));
                assert(after.drop_last() =~= before);
                assert(range_texts(s, ranges@) =~= range_texts(s, old_ranges).push(line));
                assert(before.map_values(|line: Seq<char>| strip_cr(line)) =~= before.drop_last().map_values(
                    |line: Seq<char>| strip_cr(line),
                ).push(strip_cr(before.last())));
                assert(range_texts(s, ranges@) =~= after.drop_last().map_values(|line: Seq<char>| strip_cr(line)));
                assert(s.subrange(start as int, i + 1) =~= Seq::<char>::empty());
            }
        } else {
            proof {
                let after = split_pieces(s.take(i + 1), '\n');
                assert(after == before.update(before.len() - 1, before.last().push(s[i as int])));
                assert(after.drop_last() =~= before.drop_last());
                assert(s.subrange(start as int, i + 1) =~= s.subrange(start as int, i as int).push(s[i as int]));
            }
        }
        i = i + 1;
    }
    assert(s.take(n as int) =~= s);
    if start < n {
        ranges.push((start, n));
        proof {
            let pieces = split_pieces(s, '\n');
            assert(s.last() != '\n') by {
                if s.last() == '\n' {
                    assert(pieces == split_pieces(s.drop_last(), '\n').push(Seq::empty()));
                }
            }
            assert(range_texts(s, ranges@) =~= pieces.drop_last().map_values(|line: Seq<char>| strip_cr(line)).push(
                pieces.last(),
            ));
        }
    } else {
        proof {
            if n > 0 {
                let pieces = split_pieces(s, '\n');
                if s.last() != '\n' {
                    let inner = split_pieces(s.drop_last(), '\n');
                    lemma_split_pieces_nonempty(s.drop_last(), '\n');
                    assert(pieces.last() == inner.last().push(s.last()));
                    assert(false);
                }
                assert(pieces.drop_last() =~= split_pieces(s.drop_last(), '\n'));
            } else {
                assert(range_texts(s, ranges@) =~= Seq::<Seq<char>>::empty());
            }
        }
    }
    ranges
}

} // verus!
