//! Renames across the two files: the `--rename` rules that rewrite every
//! name before matching, and the pairing of removed with added constraints
//! that are the same constraint under a new name.
use vstd::prelude::*;

use crate::diff_model::DiffCounts;
use crate::merge::{bytes_lt, compare_names, lemma_bytes_lt_strict_total, name_bytes, names_bytes, NameOrder};
use crate::text::push_str;

verus! {

/// The error message the `regex` crate gives for `pattern`, or `None` when
/// the pattern compiles.
pub uninterp spec fn regex_error(pattern: Seq<char>) -> Option<Seq<char>>;

/// The text after the `regex` crate replaces every match of `pattern` in
/// `text` with `replacement` (where `$name` refers to a capture group).
pub uninterp spec fn regex_replace_all(pattern: Seq<char>, text: Seq<char>, replacement: Seq<char>) -> Seq<char>;

/// A compiled rename pattern, kept together with the pattern it was compiled
/// from. Its fields are private and it is only built by compiling a pattern,
/// so `compiled` is always the compilation of `pattern`.
pub struct RenamePattern {
    pattern: String,
    compiled: regex::Regex,
}

impl RenamePattern {
    /// The pattern the expression was compiled from.
    pub closed spec fn pattern(&self) -> Seq<char> {
        self.pattern@
    }

    /// Replace every match in `text` with `replacement`.
    ///
    /// Wraps `regex::Regex::replace_all`; the contract names its result.
    #[verifier::external_body]
    fn replace_all(&self, text: &str, replacement: &str) -> (res: String)
        ensures
            res@ == regex_replace_all(self.pattern(), text@, replacement@),
    {
        self.compiled.replace_all(text, replacement).into_owned()
    }
}

/// Compile a rename pattern.
///
/// Wraps `regex::Regex::new`. The pattern compiles exactly when the crate
/// reports no error for it, and a failure carries the error's text.
#[verifier::external_body]
fn compile_pattern(pattern: &str) -> (res: Result<RenamePattern, String>)
    ensures
        match res {
            Ok(compiled) => compiled.pattern() == pattern@ && regex_error(pattern@) is None,
            Err(message) => regex_error(pattern@) == Some(message@),
        },
{
    match regex::Regex::new(pattern) {
        Ok(compiled) => Ok(RenamePattern { pattern: pattern.to_string(), compiled }),
        Err(error) => Err(error.to_string()),
    }
}

/// One `--rename` rule: a compiled pattern and its replacement.
pub struct RenameRule {
    pub pattern: RenamePattern,
    pub replacement: String,
}

/// A rule as plain values: its pattern and its replacement.
pub open spec fn rule_view(rule: RenameRule) -> (Seq<char>, Seq<char>) {
    (rule.pattern.pattern(), rule.replacement@)
}

/// The message for an odd number of `--rename` values.
pub open spec fn odd_rename_message() -> Seq<char> {
    "--rename requires pairs of PATTERN REPLACEMENT"@
}

/// The message for a pattern that does not compile.
pub open spec fn bad_pattern_message(pattern: Seq<char>, error: Seq<char>) -> Seq<char> {
    "invalid --rename pattern '"@ + pattern + "': "@ + error
}

/// The first pattern among the pairs from pair `from` on that does not
/// compile, with its error.
pub open spec fn first_bad_pattern(raw: Seq<Seq<char>>, from: int) -> Option<(Seq<char>, Seq<char>)>
    decreases raw.len() - from,
{
    if from < 0 || 2 * from + 1 >= raw.len() {
        None
    } else {
        match regex_error(raw[2 * from]) {
            Some(error) => Some((raw[2 * from], error)),
            None => first_bad_pattern(raw, from + 1),
        }
    }
}

/// The outcome of compiling `--rename` values: an error for an odd count or
/// for the first pattern that does not compile, else the rules as
/// `(pattern, replacement)` pairs in order.
pub open spec fn rules_outcome(raw: Seq<Seq<char>>) -> Result<Seq<(Seq<char>, Seq<char>)>, Seq<char>> {
    if raw.len() % 2 != 0 {
        Err(odd_rename_message())
    } else {
        match first_bad_pattern(raw, 0) {
            Some((pattern, error)) => Err(bad_pattern_message(pattern, error)),
            None => Ok(Seq::new((raw.len() / 2) as nat, |k: int| (raw[2 * k], raw[2 * k + 1]))),
        }
    }
}

/// The views of a list of strings.
pub open spec fn views(strings: Seq<String>) -> Seq<Seq<char>> {
    strings.map_values(|s: String| s@)
}

/// The plain view of a list of rules.
pub open spec fn rules_view(rules: Seq<RenameRule>) -> Seq<(Seq<char>, Seq<char>)> {
    rules.map_values(|rule: RenameRule| rule_view(rule))
}

proof fn lemma_first_bad_pattern_skip(raw: Seq<Seq<char>>, from: int)
    requires
        0 <= from,
        2 * from + 1 < raw.len(),
        regex_error(raw[2 * from]) is None,
    ensures
        first_bad_pattern(raw, from) == first_bad_pattern(raw, from + 1),
{
}

/// Compile the `--rename` values into rules: pairs of `PATTERN REPLACEMENT`.
/// Fails on an odd number of values or an invalid pattern, before any
/// expensive parsing happens.
pub fn build_rename_rules(raw: &Vec<String>) -> (res: Result<Vec<RenameRule>, String>)
    ensures
        match rules_outcome(views(raw@)) {
            Ok(rules) => res matches Ok(built) && rules_view(built@) == rules,
            Err(message) => res matches Err(text) && text@ == message,
        },
{
    let ghost raw_view = views(raw@);
    if raw.len() % 2 != 0 {
        let mut message = String::new();
        push_str(&mut message, "--rename requires pairs of PATTERN REPLACEMENT");
        assert(message@ =~= odd_rename_message());
        return Err(message);
    }
    let mut rules: Vec<RenameRule> = Vec::new();
    let mut k: usize = 0;
    let n = raw.len();
    let pairs = n / 2;
    while k < pairs
        invariant
            raw_view == views(raw@),
            n == raw@.len(),
            raw@.len() % 2 == 0,
            pairs == raw@.len() / 2,
            2 * pairs == raw@.len(),
            k <= pairs,
            first_bad_pattern(raw_view, 0) == first_bad_pattern(raw_view, k as int),
            rules_view(rules@) == Seq::new(k as nat, |j: int| (raw_view[2 * j], raw_view[2 * j + 1])),
        decreases pairs - k,
    {
        let pattern = &raw[2 * k];
        let replacement = &raw[2 * k + 1];
        assert(raw_view[2 * k as int] == pattern@);
        assert(raw_view[2 * k + 1] == replacement@);
        match compile_pattern(pattern.as_str()) {
            Ok(compiled) => {
                proof {
                    lemma_first_bad_pattern_skip(raw_view, k as int);
                }
                let ghost before = rules@;
                let ghost compiled_pattern = compiled.pattern();
                let copied = replacement.clone();
                rules.push(RenameRule { pattern: compiled, replacement: copied });
                assert(rules_view(rules@) =~= rules_view(before).push((compiled_pattern, replacement@)));
                assert(rules_view(rules@) =~= Seq::new(
                    (k + 1) as nat,
                    |j: int| (raw_view[2 * j], raw_view[2 * j + 1]),
                ));
            },
            Err(error) => {
                let mut message = String::new();
                push_str(&mut message, "invalid --rename pattern '");
                push_str(&mut message, pattern.as_str());
                push_str(&mut message, "': ");
                push_str(&mut message, error.as_str());
                assert(first_bad_pattern(raw_view, k as int) == Some((pattern@, error@)));
                assert(message@ =~= bad_pattern_message(pattern@, error@));
                return Err(message);
            },
        }
        k = k + 1;
    }
    assert(first_bad_pattern(raw_view, k as int) is None);
    Ok(rules)
}

/// A name after the rules rewrite it, in order: each rule replaces every
/// match of its pattern in what the rules before it left.
pub open spec fn rewritten(rules: Seq<(Seq<char>, Seq<char>)>, name: Seq<char>) -> Seq<char>
    decreases rules.len(),
{
    if rules.len() == 0 {
        name
    } else {
        let before = rewritten(rules.drop_last(), name);
        regex_replace_all(rules.last().0, before, rules.last().1)
    }
}

/// Rewrite a name through the rename rules in order. With no rules the name
/// comes back unchanged.
pub fn rewrite_name(rules: &Vec<RenameRule>, name: &str) -> (res: String)
    ensures
        res@ == rewritten(rules_view(rules@), name@),
{
    let mut current = String::new();
    push_str(&mut current, name);
    let mut i: usize = 0;
    assert(current@ =~= name@);
    while i < rules.len()
        invariant
            i <= rules@.len(),
            current@ == rewritten(rules_view(rules@.take(i as int)), name@),
        decreases rules@.len() - i,
    {
        let rule = &rules[i];
        let next = rule.pattern.replace_all(current.as_str(), rule.replacement.as_str());
        proof {
            assert(rules_view(rules@.take(i + 1)).drop_last() =~= rules_view(rules@.take(i as int)));
            assert(rules_view(rules@.take(i + 1)).last() == rule_view(rules@[i as int]));
        }
        current = next;
        i = i + 1;
    }
    assert(rules@.take(i as int) =~= rules@);
    current
}

/// The first added candidate from `j` on that is still free and matches the
/// removed candidate whose row of the match table is `row`.
pub open spec fn first_free_match(row: Seq<bool>, used: Seq<bool>, j: int) -> Option<int>
    decreases row.len() - j,
{
    if j < 0 || j >= row.len() || j >= used.len() {
        None
    } else if row[j] && !used[j] {
        Some(j)
    } else {
        first_free_match(row, used, j + 1)
    }
}

/// Greedy first-match pairing over the first `rows` removed candidates:
/// each in turn takes the first added candidate that is still free and
/// matches it. Gives the pairs `(removed, added)` and which added candidates
/// are taken.
pub open spec fn greedy_pairs(matches: Seq<Seq<bool>>, added: nat, rows: nat) -> (Seq<(int, int)>, Seq<bool>)
    decreases rows,
{
    if rows == 0 {
        (Seq::empty(), Seq::new(added, |j: int| false))
    } else {
        let (pairs, used) = greedy_pairs(matches, added, (rows - 1) as nat);
        match first_free_match(matches[rows - 1], used, 0) {
            Some(j) => (pairs.push((rows - 1, j)), used.update(j, true)),
            None => (pairs, used),
        }
    }
}

/// Candidate pairs above which a bucket is left alone rather than risk a
/// quadratic scan.
pub const MAX_RENAME_BUCKET_PAIRS: usize = 250_000;

/// The pairs a bucket of `removed` by `added` candidates yields: none when
/// either side is empty or the bucket is too large, else the greedy pairing.
pub open spec fn bucket_pairs(matches: Seq<Seq<bool>>, added: nat) -> Seq<(int, int)> {
    if matches.len() == 0 || added == 0 || matches.len() * added > MAX_RENAME_BUCKET_PAIRS {
        Seq::empty()
    } else {
        greedy_pairs(matches, added, matches.len()).0
    }
}

/// Whether every row of the match table has one entry per added candidate.
pub open spec fn table_shape(matches: Seq<Seq<bool>>, added: nat) -> bool {
    forall|i: int| 0 <= i < matches.len() ==> (#[trigger] matches[i]).len() == added
}

fn first_free(row: &Vec<bool>, used: &Vec<bool>) -> (res: Option<usize>)
    requires
        row@.len() == used@.len(),
    ensures
        match first_free_match(row@, used@, 0) {
            Some(j) => res == Some(j as usize),
            None => res is None,
        },
{
    let mut j: usize = 0;
    while j < row.len()
        invariant
            j <= row@.len(),
            row@.len() == used@.len(),
            first_free_match(row@, used@, 0) == first_free_match(row@, used@, j as int),
        decreases row@.len() - j,
    {
        if row[j] && !used[j] {
            return Some(j);
        }
        j = j + 1;
    }
    None
}

/// Pair the removed candidates of one bucket with its added ones: each
/// removed candidate in turn takes the first added candidate that is still
/// free and structurally matches it, `matches[i][j]` saying whether removed
/// candidate `i` matches added candidate `j`. Buckets with more than
/// [`MAX_RENAME_BUCKET_PAIRS`] candidate pairs are skipped.
pub fn pair_renames(matches: &Vec<Vec<bool>>, added: usize) -> (res: Vec<(usize, usize)>)
    requires
        table_shape(matches@.map_values(|row: Vec<bool>| row@), added as nat),
    ensures
        res@.len() == bucket_pairs(matches@.map_values(|row: Vec<bool>| row@), added as nat).len(),
        forall|k: int|
            0 <= k < res@.len() ==> (#[trigger] res@[k]).0 == bucket_pairs(
                matches@.map_values(|row: Vec<bool>| row@),
                added as nat,
            )[k].0 && res@[k].1 == bucket_pairs(matches@.map_values(|row: Vec<bool>| row@), added as nat)[k].1,
{
    let ghost table = matches@.map_values(|row: Vec<bool>| row@);
    let removed = matches.len();
    if removed == 0 || added == 0 || removed > MAX_RENAME_BUCKET_PAIRS / added {
        proof {
            if removed > 0 && added > 0 && removed > MAX_RENAME_BUCKET_PAIRS / added {
                assert(removed * added > MAX_RENAME_BUCKET_PAIRS) by (nonlinear_arith)
                    requires
                        removed > MAX_RENAME_BUCKET_PAIRS / added,
                        added > 0,
                ;
            }
        }
        return Vec::new();
    }
    assert(removed * added <= MAX_RENAME_BUCKET_PAIRS) by (nonlinear_arith)
        requires
            removed <= MAX_RENAME_BUCKET_PAIRS / added,
            added > 0,
    ;
    let mut used: Vec<bool> = Vec::new();
    let mut j: usize = 0;
    while j < added
        invariant
            j <= added,
            used@ == Seq::new(j as nat, |x: int| false),
        decreases added - j,
    {
        used.push(false);
        j = j + 1;
        assert(used@ =~= Seq::new(j as nat, |x: int| false));
    }
    let mut pairs: Vec<(usize, usize)> = Vec::new();
    let mut i: usize = 0;
    while i < removed
        invariant
            table == matches@.map_values(|row: Vec<bool>| row@),
            table_shape(table, added as nat),
            removed == matches@.len(),
            i <= removed,
            used@ == greedy_pairs(table, added as nat, i as nat).1,
            used@.len() == added,
            pairs@.len() == greedy_pairs(table, added as nat, i as nat).0.len(),
            forall|k: int|
                0 <= k < pairs@.len() ==> (#[trigger] pairs@[k]).0 == greedy_pairs(table, added as nat, i as nat).0[k].0
                    && pairs@[k].1 == greedy_pairs(table, added as nat, i as nat).0[k].1,
        decreases removed - i,
    {
        proof {
            lemma_greedy_used_len(table, added as nat, i as nat);
        }
        let row = &matches[i];
        assert(table[i as int] == row@);
        let ghost before_pairs = pairs@;
        let ghost before_used = used@;
        let ghost spec_next = greedy_pairs(table, added as nat, (i + 1) as nat);
        assert(spec_next == match first_free_match(table[i as int], before_used, 0) {
            Some(j) => (greedy_pairs(table, added as nat, i as nat).0.push((i as int, j)), before_used.update(j, true)),
            None => (greedy_pairs(table, added as nat, i as nat).0, before_used),
        });
        proof {
            lemma_first_free_match_found(row@, used@, 0);
        }
        match first_free(row, &used) {
            Some(j) => {
                pairs.push((i, j));
                used.set(j, true);
            },
            None => {},
        }
        proof {
            let next = greedy_pairs(table, added as nat, (i + 1) as nat);
            assert forall|k: int| 0 <= k < pairs@.len() implies (#[trigger] pairs@[k]).0 == next.0[k].0
                && pairs@[k].1 == next.0[k].1 by {
                if k < before_pairs.len() {
                    assert(pairs@[k] == before_pairs[k]);
                }
            }
        }
        i = i + 1;
    }
    pairs
}

proof fn lemma_greedy_used_len(matches: Seq<Seq<bool>>, added: nat, rows: nat)
    ensures
        greedy_pairs(matches, added, rows).1.len() == added,
    decreases rows,
{
    if rows > 0 {
        lemma_greedy_used_len(matches, added, (rows - 1) as nat);
        let (pairs, used) = greedy_pairs(matches, added, (rows - 1) as nat);
        lemma_first_free_match_found(matches[rows - 1], used, 0);
    }
}

proof fn lemma_first_free_match_found(row: Seq<bool>, used: Seq<bool>, j: int)
    requires
        0 <= j,
    ensures
        first_free_match(row, used, j) matches Some(k) ==> j <= k < row.len() && k < used.len() && row[k]
            && !used[k],
    decreases row.len() - j,
{
    if !(j >= row.len() || j >= used.len()) && !(row[j] && !used[j]) {
        lemma_first_free_match_found(row, used, j + 1);
    }
}

/// Greedy pairing never pairs a candidate twice, only pairs candidates that
/// match, and marks exactly the added candidates it paired as taken.
pub proof fn lemma_greedy_pairs_sound(matches: Seq<Seq<bool>>, added: nat, rows: nat)
    requires
        rows <= matches.len(),
        table_shape(matches, added),
    ensures
        forall|k: int|
            0 <= k < greedy_pairs(matches, added, rows).0.len() ==> {
                let (i, j) = #[trigger] greedy_pairs(matches, added, rows).0[k];
                &&& 0 <= i < rows
                &&& 0 <= j < added
                &&& matches[i][j]
                &&& greedy_pairs(matches, added, rows).1[j]
            },
        forall|a: int, b: int|
            0 <= a < b < greedy_pairs(matches, added, rows).0.len() ==> greedy_pairs(matches, added, rows).0[a].0
                < greedy_pairs(matches, added, rows).0[b].0 && greedy_pairs(matches, added, rows).0[a].1
                != greedy_pairs(matches, added, rows).0[b].1,
        forall|j: int|
            0 <= j < added && #[trigger] greedy_pairs(matches, added, rows).1[j] ==> exists|k: int|
                0 <= k < greedy_pairs(matches, added, rows).0.len() && greedy_pairs(matches, added, rows).0[k].1 == j,
    decreases rows,
{
    lemma_greedy_used_len(matches, added, rows);
    if rows == 0 {
        assert forall|j: int| 0 <= j < added implies !(#[trigger] greedy_pairs(matches, added, rows).1[j]) by {}
    }
    if rows > 0 {
        let r = (rows - 1) as nat;
        lemma_greedy_pairs_sound(matches, added, r);
        lemma_greedy_used_len(matches, added, r);
        let (pairs, used) = greedy_pairs(matches, added, r);
        lemma_first_free_match_found(matches[r as int], used, 0);
        match first_free_match(matches[r as int], used, 0) {
            Some(j) => {
                let new_pairs = pairs.push((r as int, j));
                let new_used = used.update(j, true);
                assert(greedy_pairs(matches, added, rows) == (new_pairs, new_used));
                assert forall|k: int| 0 <= k < new_pairs.len() implies {
                    let (i, jj) = #[trigger] new_pairs[k];
                    &&& 0 <= i < rows
                    &&& 0 <= jj < added
                    &&& matches[i][jj]
                    &&& new_used[jj]
                } by {
                    if k < pairs.len() {
                        assert(new_pairs[k] == pairs[k]);
                    }
                }
                assert forall|a: int, b: int| 0 <= a < b < new_pairs.len() implies new_pairs[a].0 < new_pairs[b].0
                    && new_pairs[a].1 != new_pairs[b].1 by {
                    if b == pairs.len() {
                        assert(new_pairs[a] == pairs[a]);
                        assert(used[pairs[a].1]);
                    }
                }
                let whole = greedy_pairs(matches, added, rows);
                assert forall|jj: int| 0 <= jj < added && #[trigger] whole.1[jj] implies exists|k: int|
                    0 <= k < whole.0.len() && whole.0[k].1 == jj by {
                    assert(new_used[jj]);
                    if jj == j {
                        assert(whole.0[pairs.len() as int].1 == jj);
                    } else {
                        assert(used[jj]);
                        assert(greedy_pairs(matches, added, r).1[jj]);
                        let k = choose|k: int| 0 <= k < pairs.len() && pairs[k].1 == jj;
                        assert(whole.0[k] == pairs[k]);
                    }
                }
            },
            None => {
                assert(greedy_pairs(matches, added, rows) == (pairs, used));
                assert forall|jj: int| 0 <= jj < added && #[trigger] used[jj] implies exists|k: int|
                    0 <= k < pairs.len() && pairs[k].1 == jj by {
                    assert(greedy_pairs(matches, added, r).1[jj]);
                }
            },
        }
    }
}

/// The counts after `pairs` added/removed pairs collapse into renamed
/// entries: each pair leaves the added and removed counts and counts once as
/// renamed.
pub open spec fn spec_apply_renames(counts: DiffCounts, pairs: nat) -> DiffCounts {
    DiffCounts {
        added: (counts.added - pairs) as usize,
        removed: (counts.removed - pairs) as usize,
        renamed: (counts.renamed + pairs) as usize,
        ..counts
    }
}

/// Collapse `pairs` matched added/removed pairs into renamed entries.
pub fn apply_renames(counts: DiffCounts, pairs: usize) -> (res: DiffCounts)
    requires
        counts.added >= pairs,
        counts.removed >= pairs,
        counts.renamed + pairs <= usize::MAX,
    ensures
        res == spec_apply_renames(counts, pairs as nat),
{
    DiffCounts { added: counts.added - pairs, removed: counts.removed - pairs, renamed: counts.renamed + pairs, ..counts }
}

/// A rename turns two changed entries into one: the section holds one entry
/// fewer per pair, and as many changes fewer.
pub proof fn lemma_renames_merge_entries(counts: DiffCounts, pairs: nat)
    requires
        counts.added >= pairs,
        counts.removed >= pairs,
        counts.renamed + pairs <= usize::MAX,
    ensures
        spec_apply_renames(counts, pairs).spec_total() == counts.spec_total() - pairs,
        spec_apply_renames(counts, pairs).spec_changed() == counts.spec_changed() - pairs,
        spec_apply_renames(counts, pairs).unchanged == counts.unchanged,
{
}

/// The position of the first occurrence of `key` among `keys`.
pub open spec fn key_position(keys: Seq<(u8, usize)>, key: (u8, usize)) -> Option<int>
    decreases keys.len(),
{
    if keys.len() == 0 {
        None
    } else {
        match key_position(keys.drop_last(), key) {
            Some(p) => Some(p),
            None => if keys.last() == key {
                Some(keys.len() - 1)
            } else {
                None
            },
        }
    }
}

/// The distinct keys among `keys`, in order of first appearance.
pub open spec fn distinct_keys(keys: Seq<(u8, usize)>) -> Seq<(u8, usize)>
    decreases keys.len(),
{
    if keys.len() == 0 {
        Seq::empty()
    } else {
        let before = distinct_keys(keys.drop_last());
        if key_position(before, keys.last()) is Some {
            before
        } else {
            before.push(keys.last())
        }
    }
}

proof fn lemma_key_position_scan(keys: Seq<(u8, usize)>, key: (u8, usize), p: int)
    requires
        0 <= p <= keys.len(),
        forall|q: int| 0 <= q < p ==> keys[q] != key,
        p < keys.len() ==> keys[p] == key,
    ensures
        key_position(keys, key) == if p < keys.len() {
            Some(p)
        } else {
            None::<int>
        },
    decreases keys.len(),
{
    if keys.len() > 0 {
        if p < keys.len() {
            if p < keys.len() - 1 {
                lemma_key_position_scan(keys.drop_last(), key, p);
            } else {
                lemma_key_position_scan(keys.drop_last(), key, keys.len() - 1);
            }
        } else {
            lemma_key_position_scan(keys.drop_last(), key, keys.len() - 1);
        }
    }
}

/// Candidates share a bucket exactly when their keys agree: a key's position
/// among the distinct keys is where that key stands.
pub proof fn lemma_buckets_part_by_key(keys: Seq<(u8, usize)>, a: (u8, usize), b: (u8, usize))
    ensures
        key_position(keys, a) matches Some(p) ==> 0 <= p < keys.len() && keys[p] == a,
        key_position(keys, a) is Some && key_position(keys, a) == key_position(keys, b) ==> a == b,
    decreases keys.len(),
{
    if keys.len() > 0 {
        lemma_buckets_part_by_key(keys.drop_last(), a, b);
        lemma_buckets_part_by_key(keys.drop_last(), b, a);
    }
}

/// The bucket each rename candidate falls in, by its key (the comparison
/// operator's code and the number of terms): the position of the key among
/// the distinct keys in order of first appearance. Returns the bucket of
/// each candidate and the distinct keys.
pub fn rename_buckets(keys: &Vec<(u8, usize)>) -> (res: (Vec<usize>, Vec<(u8, usize)>))
    ensures
        res.1@ == distinct_keys(keys@),
        res.0@.len() == keys@.len(),
        forall|i: int| 0 <= i < keys@.len() ==> key_position(res.1@, #[trigger] keys@[i]) == Some(res.0@[i] as int),
{
    let mut buckets: Vec<usize> = Vec::new();
    let mut distinct: Vec<(u8, usize)> = Vec::new();
    let mut i: usize = 0;
    while i < keys.len()
        invariant
            i <= keys@.len(),
            distinct@ == distinct_keys(keys@.take(i as int)),
            distinct@.len() <= i,
            buckets@.len() == i,
            forall|k: int| 0 <= k < i ==> key_position(distinct@, #[trigger] keys@[k]) == Some(buckets@[k] as int),
        decreases keys@.len() - i,
    {
        let key = keys[i];
        let mut p: usize = 0;
        while p < distinct.len() && !(distinct[p].0 == key.0 && distinct[p].1 == key.1)
            invariant
                p <= distinct@.len(),
                forall|q: int| 0 <= q < p ==> distinct@[q] != key,
            decreases distinct@.len() - p,
        {
            p = p + 1;
        }
        proof {
            lemma_key_position_scan(distinct@, key, p as int);
            assert(keys@.take(i + 1).drop_last() =~= keys@.take(i as int));
            assert(keys@.take(i + 1).last() == key);
        }
        let ghost before = distinct@;
        if p == distinct.len() {
            distinct.push(key);
            proof {
                assert forall|k: int| 0 <= k < i implies key_position(distinct@, #[trigger] keys@[k]) == Some(
                    buckets@[k] as int,
                ) by {
                    assert(distinct@.drop_last() =~= before);
                }
                assert(distinct@.drop_last() =~= before);
            }
        }
        buckets.push(p);
        i = i + 1;
    }
    assert(keys@.take(i as int) =~= keys@);
    (buckets, distinct)
}

/// Where an entry of a section ends up once renames are collapsed: an entry
/// kept as it was, or the renamed entry standing for a matched pair.
#[derive(Debug, Clone, Copy, PartialEq, Eq, Structural)]
pub enum Slot {
    /// The entry at this index.
    Kept(usize),
    /// The renamed entry for the pair at this index.
    Renamed(usize),
}

/// Whether entry `i` is one side of a matched pair.
pub open spec fn paired(pairs: Seq<(usize, usize)>, i: int) -> bool {
    exists|k: int| 0 <= k < pairs.len() && (pairs[k].0 == i || pairs[k].1 == i)
}

/// The first `n` entries that no pair matched, in order.
pub open spec fn kept_slots(pairs: Seq<(usize, usize)>, n: nat) -> Seq<Slot>
    decreases n,
{
    if n == 0 {
        Seq::empty()
    } else {
        let before = kept_slots(pairs, (n - 1) as nat);
        if paired(pairs, n - 1) {
            before
        } else {
            before.push(Slot::Kept((n - 1) as usize))
        }
    }
}

/// The name a slot is listed under: a kept entry's own, and for a renamed
/// pair the name of its added side.
pub open spec fn slot_name(names: Seq<Seq<u8>>, pairs: Seq<(usize, usize)>, slot: Slot) -> Seq<u8> {
    match slot {
        Slot::Kept(i) => names[i as int],
        Slot::Renamed(k) => names[pairs[k as int].1 as int],
    }
}

/// The first position from `j` on whose slot's name sorts after `name`, or
/// the end of the list.
pub open spec fn first_after(
    list: Seq<Slot>,
    names: Seq<Seq<u8>>,
    pairs: Seq<(usize, usize)>,
    name: Seq<u8>,
    j: int,
) -> int
    decreases list.len() - j,
{
    if j < 0 || j >= list.len() {
        list.len() as int
    } else if bytes_lt(name, slot_name(names, pairs, list[j])) {
        j
    } else {
        first_after(list, names, pairs, name, j + 1)
    }
}

/// The entries once the first `count` pairs are collapsed: the unmatched
/// entries in order, then each renamed entry in pair order placed after every
/// slot whose name does not sort after its own. Over entries listed in name
/// order this is the stable sort by name of the unmatched entries followed
/// by the renamed ones.
pub open spec fn spliced(names: Seq<Seq<u8>>, pairs: Seq<(usize, usize)>, count: nat) -> Seq<Slot>
    decreases count,
{
    if count == 0 {
        kept_slots(pairs, names.len())
    } else {
        let before = spliced(names, pairs, (count - 1) as nat);
        let name = names[pairs[count - 1].1 as int];
        before.insert(first_after(before, names, pairs, name, 0), Slot::Renamed((count - 1) as usize))
    }
}

/// Whether a slot refers to an entry, or to one of the first `count` pairs.
pub open spec fn slot_in_range(slot: Slot, entries: nat, count: nat) -> bool {
    match slot {
        Slot::Kept(i) => i < entries,
        Slot::Renamed(k) => k < count,
    }
}

/// Collapse each matched (removed, added) pair of entries into one renamed
/// entry: the order of the section's entries once the matched entries are
/// dropped and the renamed ones placed by name.
pub fn splice_renames(names: &Vec<String>, pairs: &Vec<(usize, usize)>) -> (res: Vec<Slot>)
    requires
        forall|k: int| 0 <= k < pairs@.len() ==> (#[trigger] pairs@[k]).0 < names@.len() && pairs@[k].1 < names@.len(),
    ensures
        res@ == spliced(names_bytes(names@), pairs@, pairs@.len()),
{
    let ghost keys = names_bytes(names@);
    let n = names.len();
    let mut matched: Vec<bool> = Vec::new();
    while matched.len() < n
        invariant
            matched@.len() <= n,
            forall|i: int| 0 <= i < matched@.len() ==> !matched@[i],
        decreases n - matched@.len(),
    {
        matched.push(false);
    }
    let mut t: usize = 0;
    while t < pairs.len()
        invariant
            n == names@.len(),
            matched@.len() == n,
            t <= pairs@.len(),
            forall|k: int| 0 <= k < pairs@.len() ==> (#[trigger] pairs@[k]).0 < n && pairs@[k].1 < n,
            forall|i: int|
                0 <= i < n ==> (matched@[i] <==> exists|k: int|
                    0 <= k < t && (#[trigger] pairs@[k].0 == i || pairs@[k].1 == i)),
        decreases pairs@.len() - t,
    {
        let (removed_at, added_at) = pairs[t];
        matched.set(removed_at, true);
        matched.set(added_at, true);
        proof {
            assert forall|i: int| 0 <= i < n implies (matched@[i] <==> exists|k: int|
                0 <= k < t + 1 && (#[trigger] pairs@[k].0 == i || pairs@[k].1 == i)) by {
                if i == removed_at || i == added_at {
                    assert(pairs@[t as int].0 == i || pairs@[t as int].1 == i);
                } else {
                    if exists|k: int| 0 <= k < t + 1 && (#[trigger] pairs@[k].0 == i || pairs@[k].1 == i) {
                        let k = choose|k: int| 0 <= k < t + 1 && (#[trigger] pairs@[k].0 == i || pairs@[k].1 == i);
                        assert(k < t);
                    }
                }
            }
        }
        t = t + 1;
    }
    let mut out: Vec<Slot> = Vec::new();
    let mut i: usize = 0;
    while i < n
        invariant
            n == names@.len(),
            matched@.len() == n,
            t == pairs@.len(),
            i <= n,
            forall|m: int|
                0 <= m < n ==> (matched@[m] <==> exists|k: int|
                    0 <= k < t && (#[trigger] pairs@[k].0 == m || pairs@[k].1 == m)),
            out@ == kept_slots(pairs@, i as nat),
            forall|q: int| 0 <= q < out@.len() ==> slot_in_range(#[trigger] out@[q], n as nat, 0),
        decreases n - i,
    {
        proof {
            assert(matched@[i as int] == paired(pairs@, i as int));
        }
        if !matched[i] {
            out.push(Slot::Kept(i));
        }
        i = i + 1;
    }
    let mut k: usize = 0;
    while k < pairs.len()
        invariant
            n == names@.len(),
            keys == names_bytes(names@),
            k <= pairs@.len(),
            forall|r: int| 0 <= r < pairs@.len() ==> (#[trigger] pairs@[r]).0 < n && pairs@[r].1 < n,
            out@ == spliced(keys, pairs@, k as nat),
            forall|q: int| 0 <= q < out@.len() ==> slot_in_range(#[trigger] out@[q], n as nat, k as nat),
        decreases pairs@.len() - k,
    {
        let name = &names[pairs[k].1];
        let ghost key = keys[pairs@[k as int].1 as int];
        let mut j: usize = 0;
        let mut stop = false;
        while j < out.len() && !stop
            invariant
                n == names@.len(),
                keys == names_bytes(names@),
                k < pairs@.len(),
                forall|r: int| 0 <= r < pairs@.len() ==> (#[trigger] pairs@[r]).0 < n && pairs@[r].1 < n,
                forall|q: int| 0 <= q < out@.len() ==> slot_in_range(#[trigger] out@[q], n as nat, k as nat),
                key == keys[pairs@[k as int].1 as int],
                name@ == names@[pairs@[k as int].1 as int]@,
                j <= out@.len(),
                stop ==> j < out@.len() && bytes_lt(key, slot_name(keys, pairs@, out@[j as int])),
                first_after(out@, keys, pairs@, key, 0) == if stop {
                    j as int
                } else {
                    first_after(out@, keys, pairs@, key, j as int)
                },
            decreases out@.len() - j + if stop { 0int } else { 1int },
        {
            let other = match out[j] {
                Slot::Kept(at) => &names[at],
                Slot::Renamed(r) => &names[pairs[r].1],
            };
            proof {
                assert(name_bytes(other@) == slot_name(keys, pairs@, out@[j as int]));
            }
            if compare_names(name, other) == NameOrder::Less {
                stop = true;
            } else {
                j = j + 1;
            }
        }
        proof {
            if !stop {
                assert(first_after(out@, keys, pairs@, key, j as int) == out@.len());
            }
        }
        out.insert(j, Slot::Renamed(k));
        proof {
            assert forall|q: int| 0 <= q < out@.len() implies slot_in_range(#[trigger] out@[q], n as nat, (k + 1) as nat) by {
            }
        }
        k = k + 1;
    }
    out
}

/// Whether names never decrease along the list.
pub open spec fn names_in_order(names: Seq<Seq<u8>>) -> bool {
    forall|a: int, b: int| 0 <= a < b < names.len() ==> !bytes_lt(#[trigger] names[b], #[trigger] names[a])
}

/// Whether the slots' names never decrease along the list.
pub open spec fn slots_in_order(list: Seq<Slot>, names: Seq<Seq<u8>>, pairs: Seq<(usize, usize)>) -> bool {
    forall|a: int, b: int|
        0 <= a < b < list.len() ==> !bytes_lt(
            slot_name(names, pairs, #[trigger] list[b]),
            slot_name(names, pairs, #[trigger] list[a]),
        )
}

proof fn lemma_kept_slots_ascend(pairs: Seq<(usize, usize)>, n: nat)
    requires
        n <= usize::MAX,
    ensures
        forall|q: int| 0 <= q < kept_slots(pairs, n).len() ==> (#[trigger] kept_slots(pairs, n)[q]) is Kept
            && kept_slots(pairs, n)[q]->Kept_0 < n,
        forall|a: int, b: int|
            0 <= a < b < kept_slots(pairs, n).len() ==> (#[trigger] kept_slots(pairs, n)[a])->Kept_0 < (
            #[trigger] kept_slots(pairs, n)[b])->Kept_0,
    decreases n,
{
    if n > 0 {
        lemma_kept_slots_ascend(pairs, (n - 1) as nat);
        let before = kept_slots(pairs, (n - 1) as nat);
        let now = kept_slots(pairs, n);
        assert forall|a: int, b: int| 0 <= a < b < now.len() implies (#[trigger] now[a])->Kept_0 < (
        #[trigger] now[b])->Kept_0 by {
            assert(now[a] == before[a]);
            assert(before[a] is Kept && before[a]->Kept_0 < n - 1);
            if b < before.len() {
                assert(now[b] == before[b]);
            } else {
                assert(now[b] == Slot::Kept((n - 1) as usize));
            }
        }
    }
}

proof fn lemma_first_after(list: Seq<Slot>, names: Seq<Seq<u8>>, pairs: Seq<(usize, usize)>, name: Seq<u8>, j: int)
    requires
        0 <= j <= list.len(),
    ensures
        j <= first_after(list, names, pairs, name, j) <= list.len(),
        forall|q: int|
            j <= q < first_after(list, names, pairs, name, j) ==> !bytes_lt(
                name,
                slot_name(names, pairs, #[trigger] list[q]),
            ),
        first_after(list, names, pairs, name, j) < list.len() ==> bytes_lt(
            name,
            slot_name(names, pairs, list[first_after(list, names, pairs, name, j)]),
        ),
    decreases list.len() - j,
{
    if j < list.len() && !bytes_lt(name, slot_name(names, pairs, list[j])) {
        lemma_first_after(list, names, pairs, name, j + 1);
    }
}

/// Over entries listed in name order, collapsing renames keeps the section in
/// name order: each renamed entry lands after every name that does not sort
/// after its own and before every name that does.
pub proof fn lemma_spliced_in_name_order(names: Seq<Seq<u8>>, pairs: Seq<(usize, usize)>, count: nat)
    requires
        names_in_order(names),
        names.len() <= usize::MAX,
        count <= pairs.len() <= usize::MAX,
    ensures
        slots_in_order(spliced(names, pairs, count), names, pairs),
    decreases count,
{
    if count == 0 {
        let kept = kept_slots(pairs, names.len());
        lemma_kept_slots_ascend(pairs, names.len());
        assert forall|a: int, b: int| 0 <= a < b < kept.len() implies !bytes_lt(
            slot_name(names, pairs, #[trigger] kept[b]),
            slot_name(names, pairs, #[trigger] kept[a]),
        ) by {
            let ia = kept[a]->Kept_0 as int;
            let ib = kept[b]->Kept_0 as int;
            assert(!bytes_lt(names[ib], names[ia]));
        }
    } else {
        lemma_spliced_in_name_order(names, pairs, (count - 1) as nat);
        let list = spliced(names, pairs, (count - 1) as nat);
        let name = names[pairs[count - 1].1 as int];
        let x = Slot::Renamed((count - 1) as usize);
        let p = first_after(list, names, pairs, name, 0);
        lemma_first_after(list, names, pairs, name, 0);
        let next = list.insert(p, x);
        assert(slot_name(names, pairs, x) == name);
        assert forall|a: int, b: int| 0 <= a < b < next.len() implies !bytes_lt(
            slot_name(names, pairs, #[trigger] next[b]),
            slot_name(names, pairs, #[trigger] next[a]),
        ) by {
            if a == p {
                let later = slot_name(names, pairs, list[b - 1]);
                let first = slot_name(names, pairs, list[p]);
                if p < b - 1 {
                    assert(!bytes_lt(
                        slot_name(names, pairs, list[b - 1]),
                        slot_name(names, pairs, list[p]),
                    ));
                }
                lemma_bytes_lt_strict_total(later, name, first);
                lemma_bytes_lt_strict_total(name, first, later);
            } else if b == p {
                assert(!bytes_lt(name, slot_name(names, pairs, list[a])));
            } else {
                let ia = if a < p { a } else { a - 1 };
                let ib = if b < p { b } else { b - 1 };
                assert(next[a] == list[ia]);
                assert(next[b] == list[ib]);
                assert(!bytes_lt(slot_name(names, pairs, list[ib]), slot_name(names, pairs, list[ia])));
            }
        }
    }
}

} // verus!
