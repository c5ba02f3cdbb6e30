//! Search modes and compiled searches over entry names and content.
//!
//! Query prefixes select the search mode:
//! - `r:pattern`: regex (case-insensitive) over entry names
//! - `s:text`: substring (case-insensitive) over entry names
//! - `c:text`: substring (case-insensitive) over entry content
//! - anything else: fuzzy over entry names
use vstd::prelude::*;
use vstd::string::{StrSliceExecFns, StringSliceAdditionalSpecFns};

use crate::text::{chars_of, string_from, sub_chars};

verus! {

#[verifier::external_type_specification]
#[verifier::external_body]
pub struct ExRegex(regex::Regex);

/// The kind of search being performed.
#[derive(Debug, Clone, Copy, PartialEq, Eq, Structural)]
pub enum SearchMode {
    Fuzzy,
    Regex,
    Substring,
    /// Full-text substring search over entry content rather than names.
    Content,
}

impl SearchMode {
    pub open spec fn spec_label(self) -> Seq<char> {
        match self {
            SearchMode::Fuzzy => "fuzzy"@,
            SearchMode::Regex => "regex"@,
            SearchMode::Substring => "substring"@,
            SearchMode::Content => "content"@,
        }
    }

    /// Short label for display in the status bar / search indicator.
    pub fn label(self) -> (res: &'static str)
        ensures
            res@ == self.spec_label(),
    {
        match self {
            SearchMode::Fuzzy => "fuzzy",
            SearchMode::Regex => "regex",
            SearchMode::Substring => "substring",
            SearchMode::Content => "content",
        }
    }
}

/// Whether `s` starts with the two characters `a`, `b`.
pub open spec fn has_prefix2(s: Seq<char>, a: char, b: char) -> bool {
    s.len() >= 2 && s[0] == a && s[1] == b
}

/// The mode a raw query selects and the pattern it carries: a recognised
/// two-character prefix is stripped, anything else is a fuzzy query.
pub open spec fn query_parts(raw: Seq<char>) -> (SearchMode, Seq<char>) {
    if has_prefix2(raw, 'r', ':') {
        (SearchMode::Regex, raw.skip(2))
    } else if has_prefix2(raw, 's', ':') {
        (SearchMode::Substring, raw.skip(2))
    } else if has_prefix2(raw, 'c', ':') {
        (SearchMode::Content, raw.skip(2))
    } else {
        (SearchMode::Fuzzy, raw)
    }
}

/// Parse a raw query string into a `(SearchMode, pattern)` pair.
///
/// - `r:pattern` gives `(Regex, "pattern")`
/// - `s:text` gives `(Substring, "text")`
/// - `c:text` gives `(Content, "text")`
/// - anything else gives `(Fuzzy, raw)`
pub fn parse_query(raw: &str) -> (res: (SearchMode, &str))
    ensures
        res.0 == query_parts(raw@).0,
        res.1@ == query_parts(raw@).1,
{
    let n = raw.unicode_len();
    if n >= 2 {
        let first = raw.get_char(0);
        let second = raw.get_char(1);
        if second == ':' && (first == 'r' || first == 's' || first == 'c') {
            let pattern = raw.substring_char(2, n);
            assert(pattern@ =~= raw@.skip(2));
            let mode = if first == 'r' {
                SearchMode::Regex
            } else if first == 's' {
                SearchMode::Substring
            } else {
                SearchMode::Content
            };
            return (mode, pattern);
        }
    }
    (SearchMode::Fuzzy, raw)
}

/// The error message the `regex` crate gives for `pattern` compiled
/// case-insensitively, or `None` when the pattern compiles.
pub uninterp spec fn case_insensitive_regex_error(pattern: Seq<char>) -> Option<Seq<char>>;

/// Whether `pattern`, compiled case-insensitively by the `regex` crate,
/// matches anywhere in `text`.
pub uninterp spec fn case_insensitive_regex_matches(pattern: Seq<char>, text: Seq<char>) -> bool;

/// A regular expression compiled case-insensitively, kept together with the
/// pattern it was compiled from.
///
/// Its fields are private and it is only built by [`build_search_regex`], so
/// `compiled` is always the compilation of `pattern`: the contract of
/// [`SearchRegex::is_match`] rests on that.
pub struct SearchRegex {
    pattern: String,
    compiled: regex::Regex,
}

impl SearchRegex {
    /// The pattern the expression was compiled from.
    pub closed spec fn pattern(&self) -> Seq<char> {
        self.pattern@
    }

    /// Whether the expression matches anywhere in `text`.
    ///
    /// Wraps `regex::Regex::is_match`; the contract names its result as the
    /// case-insensitive match of the pattern against the text.
    #[verifier::external_body]
    pub fn is_match(&self, text: &str) -> (res: bool)
        ensures
            res == case_insensitive_regex_matches(self.pattern(), text@),
    {
        self.compiled.is_match(text)
    }
}

/// Compile `pattern` case-insensitively.
///
/// Wraps `regex::RegexBuilder::new(pattern).case_insensitive(true).build()`.
/// The contract says the compiled expression is kept with its pattern, and
/// names the outcome: the pattern compiles exactly when the crate reports no
/// error for it, and a failure carries the error's text.
#[verifier::external_body]
fn build_search_regex(pattern: &str) -> (res: Result<SearchRegex, String>)
    ensures
        match res {
            Ok(compiled) => compiled.pattern() == pattern@ && case_insensitive_regex_error(pattern@) is None,
            Err(message) => case_insensitive_regex_error(pattern@) == Some(message@),
        },
{
    regex::RegexBuilder::new(pattern).case_insensitive(true).build().map(|compiled| SearchRegex {
        pattern: pattern.to_string(),
        compiled,
    }).map_err(|error| error.to_string())
}

/// The lowercase form of `s`, by Unicode's lowercase mapping.
pub uninterp spec fn lowercase(s: Seq<char>) -> Seq<char>;

/// Lowercase a string.
///
/// Wraps `str::to_lowercase`; the contract names its result.
#[verifier::external_body]
fn to_lowercase(s: &str) -> (res: String)
    ensures
        res@ == lowercase(s@),
{
    s.to_lowercase()
}

/// A compiled non-fuzzy search (regex or substring), built once per query
/// change and reused across all entries.
pub enum CompiledSearch {
    /// A case-insensitive regex, or the message of the error that stopped it
    /// compiling.
    Regex(Result<SearchRegex, String>),
    /// Lowercased substring for a case-insensitive contains check.
    Substring(String),
}

/// An ASCII byte folded to lower case; any other byte unchanged.
pub open spec fn ascii_lower(b: u8) -> u8 {
    if 65 <= b <= 90 { (b + 32) as u8 } else { b }
}

/// Whether `needle` occurs in `haystack` at `i`, ignoring ASCII case.
pub open spec fn matches_ignoring_ascii_case_at(haystack: Seq<u8>, needle: Seq<u8>, i: int) -> bool {
    0 <= i && i + needle.len() <= haystack.len()
        && forall|k: int| 0 <= k < needle.len() ==> ascii_lower(#[trigger] haystack[i + k]) == ascii_lower(needle[k])
}

/// Whether `needle` occurs anywhere in `haystack`, ignoring ASCII case.
pub open spec fn contains_ignoring_ascii_case(haystack: Seq<u8>, needle: Seq<u8>) -> bool {
    exists|i: int| matches_ignoring_ascii_case_at(haystack, needle, i)
}

/// What a compiled search makes of a text: an invalid regex matches
/// nothing, an empty substring everything, and otherwise the regex or the
/// case-insensitive substring decides.
pub open spec fn search_matches(search: CompiledSearch, text: Seq<char>) -> bool {
    match search {
        CompiledSearch::Regex(Ok(compiled)) => case_insensitive_regex_matches(compiled.pattern(), text),
        CompiledSearch::Regex(Err(_)) => false,
        CompiledSearch::Substring(lower) => lower@.len() == 0 || contains_ignoring_ascii_case(
            crate::merge::name_bytes(text),
            crate::merge::name_bytes(lower@),
        ),
    }
}

fn fold_ascii(b: u8) -> (res: u8)
    ensures
        res == ascii_lower(b),
{
    if 65 <= b && b <= 90 { b + 32 } else { b }
}

/// Whether `needle` occurs in `haystack`, ignoring ASCII case.
fn contains_ignore_ascii_case(haystack: &[u8], needle: &[u8]) -> (res: bool)
    ensures
        res == contains_ignoring_ascii_case(haystack@, needle@),
{
    if needle.len() > haystack.len() {
        assert forall|i: int| !matches_ignoring_ascii_case_at(haystack@, needle@, i) by {}
        return false;
    }
    if needle.len() == 0 {
        assert(matches_ignoring_ascii_case_at(haystack@, needle@, 0));
        return true;
    }
    let hay_len = haystack.len();
    let last = hay_len - needle.len();
    let mut i: usize = 0;
    while i <= last
        invariant
            hay_len == haystack@.len(),
            last == haystack@.len() - needle@.len(),
            0 < needle@.len() <= haystack@.len(),
            forall|j: int| 0 <= j < i ==> !matches_ignoring_ascii_case_at(haystack@, needle@, j),
        decreases last + 1 - i,
    {
        let mut k: usize = 0;
        let mut same = true;
        while k < needle.len()
            invariant
                hay_len == haystack@.len(),
                i <= last,
                last == haystack@.len() - needle@.len(),
                0 < needle@.len() <= haystack@.len(),
                k <= needle@.len(),
                same ==> forall|m: int| 0 <= m < k ==> ascii_lower(#[trigger] haystack@[i + m]) == ascii_lower(needle@[m]),
                !same ==> !matches_ignoring_ascii_case_at(haystack@, needle@, i as int),
            decreases needle@.len() - k,
        {
            if same && fold_ascii(haystack[i + k]) != fold_ascii(needle[k]) {
                same = false;
            }
            k = k + 1;
        }
        if same {
            assert(matches_ignoring_ascii_case_at(haystack@, needle@, i as int));
            return true;
        }
        i = i + 1;
    }
    assert forall|j: int| !matches_ignoring_ascii_case_at(haystack@, needle@, j) by {
        if 0 <= j && j + needle@.len() <= haystack@.len() {
            assert(j < i);
        }
    }
    false
}

/// The line `str::lines` yields last: the text after the final line break,
/// with a line break ending the text not starting an empty line, and the
/// carriage return of a closing `\r\n` dropped. `None` for empty text.
pub open spec fn last_line(s: Seq<char>) -> Option<Seq<char>> {
    if s.len() == 0 {
        None
    } else if s.last() == '\n' {
        let line = crate::theme::last_piece(s.drop_last(), '\n');
        Some(if line.len() > 0 && line.last() == '\r' { line.drop_last() } else { line })
    } else {
        Some(crate::theme::last_piece(s, '\n'))
    }
}

/// `s` with every leading repetition of `prefix` removed, as
/// `str::trim_start_matches` does.
pub open spec fn strip_prefixes(s: Seq<char>, prefix: Seq<char>) -> Seq<char>
    decreases s.len(),
{
    if prefix.len() > 0 && prefix.len() <= s.len() && s.take(prefix.len() as int) == prefix {
        strip_prefixes(s.skip(prefix.len() as int), prefix)
    } else {
        s
    }
}

/// The compact form of a regex error message: its last line, without any
/// leading `error: `.
pub open spec fn compact_error(message: Seq<char>) -> Seq<char> {
    strip_prefixes(
        match last_line(message) {
            Some(line) => line,
            None => message,
        },
        "error: "@,
    )
}

fn last_line_chars(s: &Vec<char>) -> (res: Vec<char>)
    ensures
        res@ == match last_line(s@) {
            Some(line) => line,
            None => s@,
        },
{
    if s.len() == 0 {
        return Vec::new();
    }
    let ends_with_newline = s[s.len() - 1] == '\n';
    let end = if ends_with_newline { s.len() - 1 } else { s.len() };
    let mut j: usize = end;
    while j > 0 && s[j - 1] != '\n'
        invariant
            j <= end,
            end <= s@.len(),
            forall|k: int| j <= k < end ==> s@[k] != '\n',
        decreases j,
    {
        j = j - 1;
    }
    let body = sub_chars(s, 0, end);
    proof {
        assert(body@ =~= (if ends_with_newline { s@.drop_last() } else { s@ }));
        crate::theme::lemma_last_piece_at(body@, '\n', j as int);
    }
    let line = sub_chars(s, j, end);
    assert(line@ =~= body@.subrange(j as int, body@.len() as int));
    if ends_with_newline && line.len() > 0 && line[line.len() - 1] == '\r' {
        let trimmed = sub_chars(&line, 0, line.len() - 1);
        assert(trimmed@ =~= line@.drop_last());
        trimmed
    } else {
        line
    }
}

fn strip_prefixes_chars(s: &Vec<char>, prefix: &Vec<char>) -> (res: Vec<char>)
    ensures
        res@ == strip_prefixes(s@, prefix@),
{
    if prefix.len() == 0 {
        return sub_chars(s, 0, s.len());
    }
    let mut i: usize = 0;
    assert(s@.skip(0) =~= s@);
    let n = s.len();
    loop
        invariant
            n == s@.len(),
            i <= s@.len(),
            prefix@.len() > 0,
            strip_prefixes(s@, prefix@) == strip_prefixes(s@.skip(i as int), prefix@),
        decreases s@.len() - i,
    {
        let rest_len = s.len() - i;
        let mut same = prefix.len() <= rest_len;
        let mut k: usize = 0;
        while same && k < prefix.len()
            invariant
                n == s@.len(),
                i <= s@.len(),
                rest_len == s@.len() - i,
                k <= prefix@.len(),
                same ==> prefix@.len() <= rest_len,
                same ==> forall|m: int| 0 <= m < k ==> s@[i + m] == prefix@[m],
                !same ==> !(prefix@.len() <= s@.skip(i as int).len() && s@.skip(i as int).take(prefix@.len() as int) == prefix@),
            decreases prefix@.len() - k + (if same { 1int } else { 0int }),
        {
            if s[i + k] != prefix[k] {
                assert(s@.skip(i as int).take(prefix@.len() as int)[k as int] != prefix@[k as int]);
                same = false;
            } else {
                k = k + 1;
            }
        }
        if !same {
            let res = sub_chars(s, i, s.len());
            assert(res@ =~= s@.skip(i as int));
            return res;
        }
        assert(s@.skip(i as int).take(prefix@.len() as int) =~= prefix@);
        assert(s@.skip(i as int).skip(prefix@.len() as int) =~= s@.skip(i + prefix@.len()));
        i = i + prefix.len();
    }
}

impl CompiledSearch {
    /// Compile a raw query string: a regex for `r:`, otherwise the lowercased
    /// pattern for a substring match.
    pub fn compile(raw: &str) -> (res: CompiledSearch)
        ensures
            query_parts(raw@).0 == SearchMode::Regex ==> (res matches CompiledSearch::Regex(compiled) && match compiled {
                Ok(r) => r.pattern() == query_parts(raw@).1
                    && case_insensitive_regex_error(query_parts(raw@).1) is None,
                Err(message) => case_insensitive_regex_error(query_parts(raw@).1) == Some(message@),
            }),
            query_parts(raw@).0 != SearchMode::Regex ==> (res matches CompiledSearch::Substring(lower)
                && lower@ == lowercase(query_parts(raw@).1)),
    {
        let (mode, pattern) = parse_query(raw);
        match mode {
            SearchMode::Regex => CompiledSearch::Regex(build_search_regex(pattern)),
            SearchMode::Substring | SearchMode::Content | SearchMode::Fuzzy => CompiledSearch::Substring(to_lowercase(pattern)),
        }
    }

    /// Test whether `searchable_text` matches this compiled search.
    pub fn matches(&self, searchable_text: &str) -> (res: bool)
        ensures
            res == search_matches(*self, searchable_text@),
    {
        match self {
            CompiledSearch::Regex(Ok(compiled)) => compiled.is_match(searchable_text),
            CompiledSearch::Regex(Err(_)) => false,
            CompiledSearch::Substring(lower) => {
                if lower.as_str().unicode_len() == 0 {
                    return true;
                }
                contains_ignore_ascii_case(searchable_text.as_bytes(), lower.as_str().as_bytes())
            },
        }
    }

    /// Compact single-line description of a regex compilation failure, if any.
    pub fn regex_error(&self) -> (res: Option<String>)
        ensures
            match *self {
                CompiledSearch::Regex(Err(message)) => res matches Some(text) && text@ == compact_error(message@),
                _ => res is None,
            },
    {
        match self {
            CompiledSearch::Regex(Err(message)) => {
                let chars = chars_of(message.as_str());
                let line = last_line_chars(&chars);
                let prefix = chars_of("error: ");
                let compact = strip_prefixes_chars(&line, &prefix);
                Some(string_from(&compact))
            },
            _ => None,
        }
    }
}

} // verus!
