use lp_diff::search::{CompiledSearch, SearchMode, parse_query};

fn check_parse(input: &str, mode: SearchMode, pattern: &str) {
    let (parsed_mode, parsed_pattern) = parse_query(input);
    assert_eq!(parsed_mode, mode);
    assert_eq!(parsed_pattern, pattern);
}

fn check_match(query: &str, haystack: &str, expected: bool) {
    let search = CompiledSearch::compile(query);
    assert_eq!(search.matches(haystack), expected, "compile({query:?}).matches({haystack:?}) expected {expected}");
}

#[test]
fn parse_fuzzy() {
    check_parse("hello", SearchMode::Fuzzy, "hello");
}

#[test]
fn parse_regex() {
    check_parse("r:^con.*", SearchMode::Regex, "^con.*");
}

#[test]
fn parse_substring() {
    check_parse("s:exact", SearchMode::Substring, "exact");
}

#[test]
fn parse_content() {
    check_parse("c:x14", SearchMode::Content, "x14");
}

#[test]
fn parse_regex_empty() {
    check_parse("r:", SearchMode::Regex, "");
}

#[test]
fn parse_substring_empty() {
    check_parse("s:", SearchMode::Substring, "");
}

#[test]
fn parse_content_empty() {
    check_parse("c:", SearchMode::Content, "");
}

#[test]
fn regex_hit() {
    check_match("r:^con.*nt$", "constraint", true);
}

#[test]
fn regex_miss() {
    check_match("r:^con.*nt$", "objective", false);
}

#[test]
fn regex_case_insensitive() {
    check_match("r:CONSTRAINT", "my_constraint", true);
}

#[test]
fn regex_empty() {
    check_match("r:", "anything", true);
}

#[test]
fn substr_hit() {
    check_match("s:exact", "some_exact_match", true);
}

#[test]
fn substr_miss() {
    check_match("s:exact", "something_else", false);
}

#[test]
fn substr_case_insensitive() {
    check_match("s:EXACT", "some_exact_match", true);
}

#[test]
fn substr_empty() {
    check_match("s:", "anything", true);
}

#[test]
fn test_regex_invalid() {
    let search = CompiledSearch::compile("r:[invalid");
    assert!(search.regex_error().is_some());
    assert!(!search.matches("anything"));
}

#[test]
fn test_matches_variable_names_in_searchable_text() {
    let searchable = "c1\0x\0flow_var";

    let substr = CompiledSearch::compile("s:flow_var");
    assert!(substr.matches(searchable));

    let regex = CompiledSearch::compile("r:flow_var");
    assert!(regex.matches(searchable));
}

#[test]
fn test_search_mode_labels() {
    assert_eq!(SearchMode::Fuzzy.label(), "fuzzy");
    assert_eq!(SearchMode::Regex.label(), "regex");
    assert_eq!(SearchMode::Substring.label(), "substring");
}

#[test]
fn a_regex_error_is_compacted_to_its_last_line() {
    let search = CompiledSearch::compile("r:[invalid");
    let message = search.regex_error().expect("an unclosed class does not compile");
    assert!(!message.contains('\n'), "one line: {message:?}");
    assert!(!message.starts_with("error: "), "the prefix is dropped: {message:?}");
    assert!(message.contains("unclosed"), "the cause is kept: {message:?}");
    assert!(CompiledSearch::compile("s:x").regex_error().is_none());
    assert!(CompiledSearch::compile("r:x").regex_error().is_none());
}

#[test]
fn a_substring_query_is_lowercased_and_content_is_a_substring_search() {
    assert!(CompiledSearch::compile("c:FLOW").matches("Flow_Var"));
    assert!(!CompiledSearch::compile("s:flow_vars").matches("flow_var"), "a needle longer than the text");
    assert!(CompiledSearch::compile("FLOW").matches("my_flow"), "a fuzzy query falls back to a substring");
}

#[test]
fn a_substring_query_is_lowercased_beyond_ascii() {
    // Only the query is lowercased by Unicode rules; the text is compared ASCII-insensitively.
    assert!(CompiledSearch::compile("s:\u{c9}T\u{c9}").matches("\u{e9}t\u{e9}"));
    assert!(!CompiledSearch::compile("s:\u{e9}t\u{e9}").matches("\u{c9}T\u{c9}"));
}
