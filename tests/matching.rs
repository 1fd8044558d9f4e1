use rfstr::{
    build_pattern, filter_lines, filter_text, join_matches, mode_from_flag, pick_matches, search,
    split_lines, MatchMode, Query,
};

fn strings(items: &[&str]) -> Vec<String> {
    items.iter().map(|s| s.to_string()).collect()
}

#[test]
fn first_substring_of_each_line() {
    let lines = strings(&["Hello World", "foo"]);
    let mode = mode_from_flag(Some("f"));
    let out = filter_text(&lines, "[[:alpha:]]+", mode).unwrap();
    assert_eq!(out, strings(&["Hello", "foo"]));
}

#[test]
fn complete_match_needs_whole_line() {
    let lines = strings(&["abc", "xabc", "abcx", "abc"]);
    let out = filter_text(&lines, "abc", MatchMode::CompleteMatch).unwrap();
    assert_eq!(out, strings(&["abc", "abc"]));
}

#[test]
fn complete_match_with_regex() {
    let lines = strings(&["123", "12a", "", "7"]);
    let out = filter_text(&lines, "[0-9]+", MatchMode::CompleteMatch).unwrap();
    assert_eq!(out, strings(&["123", "7"]));
}

#[test]
fn substring_match_keeps_lines() {
    let lines = strings(&["cat", "dog", "concat"]);
    let out = filter_text(&lines, "c.t", MatchMode::SubstringMatch).unwrap();
    assert_eq!(out, strings(&["cat", "concat"]));
}

#[test]
fn plain_search_is_literal() {
    let lines = strings(&["a.b", "axb", "[x]", "x"]);
    let out = filter_text(&lines, "a.b", MatchMode::PlainSearch).unwrap();
    assert_eq!(out, strings(&["a.b"]));
    let out = filter_text(&lines, "[x]", MatchMode::PlainSearch).unwrap();
    assert_eq!(out, strings(&["[x]"]));
}

#[test]
fn plain_search_accepts_unbalanced_brackets() {
    let lines = strings(&["f(x", "fx"]);
    let out = filter_text(&lines, "f(", MatchMode::PlainSearch).unwrap();
    assert_eq!(out, strings(&["f(x"]));
}

#[test]
fn same_query_as_regex_matches_more() {
    let lines = strings(&["a.b", "axb"]);
    let out = filter_text(&lines, "a.b", MatchMode::SubstringMatch).unwrap();
    assert_eq!(out, strings(&["a.b", "axb"]));
}

#[test]
fn last_substring() {
    let lines = strings(&["a1b22c333", "none"]);
    let out = filter_text(&lines, "[0-9]+", MatchMode::LastSubstring).unwrap();
    assert_eq!(out, strings(&["333"]));
}

#[test]
fn all_substrings_joined() {
    let lines = strings(&["a1b22c333", "none", "9"]);
    let out = filter_text(&lines, "[0-9]+", MatchMode::AllSubstring).unwrap();
    assert_eq!(out, strings(&["1\n22\n333", "9"]));
}

#[test]
fn all_substrings_split_back_into_matches() {
    let q = Query::new("[a-z]+").unwrap();
    let out = search("ab 12 cd ef", &q, MatchMode::AllSubstring).unwrap();
    assert_eq!(split_lines(&out), strings(&["ab", "cd", "ef"]));
}

#[test]
fn empty_query_matches_everything() {
    let lines = strings(&["", "abc"]);
    let out = filter_text(&lines, "", MatchMode::PlainSearch).unwrap();
    assert_eq!(out, lines);
    let out = filter_text(&lines, "", MatchMode::FirstSubstring).unwrap();
    assert_eq!(out, strings(&["", ""]));
    let out = filter_text(&lines, "", MatchMode::CompleteMatch).unwrap();
    assert_eq!(out, strings(&[""]));
}

#[test]
fn invalid_regex_is_an_error() {
    let lines = strings(&["foo(bar"]);
    assert!(filter_text(&lines, "foo(bar", MatchMode::SubstringMatch).is_err());
    assert!(filter_text(&lines, "foo(bar", MatchMode::PlainSearch).is_ok());
    let err = Query::new("(").unwrap_err();
    assert!(!err.message.is_empty());
}

#[test]
fn mode_flags() {
    assert_eq!(mode_from_flag(Some("c")), MatchMode::CompleteMatch);
    assert_eq!(mode_from_flag(Some("s")), MatchMode::SubstringMatch);
    assert_eq!(mode_from_flag(Some("f")), MatchMode::FirstSubstring);
    assert_eq!(mode_from_flag(Some("l")), MatchMode::LastSubstring);
    assert_eq!(mode_from_flag(Some("a")), MatchMode::AllSubstring);
    assert_eq!(mode_from_flag(Some("x")), MatchMode::PlainSearch);
    assert_eq!(mode_from_flag(Some("cc")), MatchMode::PlainSearch);
    assert_eq!(mode_from_flag(Some("")), MatchMode::PlainSearch);
    assert_eq!(mode_from_flag(None), MatchMode::PlainSearch);
}

#[test]
fn patterns_per_mode() {
    assert_eq!(build_pattern("a.b", MatchMode::PlainSearch), "a\\.b");
    assert_eq!(build_pattern("a.b", MatchMode::CompleteMatch), "^a.b$");
    assert_eq!(build_pattern("a.b", MatchMode::SubstringMatch), "a.b");
    assert_eq!(build_pattern("", MatchMode::CompleteMatch), "^$");
}

#[test]
fn split_lines_keeps_empty_pieces() {
    assert_eq!(split_lines("a\nb\n"), strings(&["a", "b", ""]));
    assert_eq!(split_lines(""), strings(&[""]));
    assert_eq!(split_lines("\n\n"), strings(&["", "", ""]));
    assert_eq!(split_lines("héllo\nwörld"), strings(&["héllo", "wörld"]));
}

#[test]
fn join_matches_cases() {
    assert_eq!(join_matches(&Vec::new()), None);
    assert_eq!(join_matches(&strings(&["x"])), Some("x".to_string()));
    assert_eq!(join_matches(&strings(&["x", "", "y"])), Some("x\n\ny".to_string()));
}

#[test]
fn pick_matches_per_mode() {
    let texts = strings(&["1", "22", "333"]);
    assert_eq!(pick_matches(&texts, MatchMode::FirstSubstring), Some("1".to_string()));
    assert_eq!(pick_matches(&texts, MatchMode::LastSubstring), Some("333".to_string()));
    assert_eq!(pick_matches(&texts, MatchMode::AllSubstring), Some("1\n22\n333".to_string()));
    assert_eq!(pick_matches(&texts, MatchMode::SubstringMatch), None);
    assert_eq!(pick_matches(&Vec::new(), MatchMode::FirstSubstring), None);
}

#[test]
fn search_per_mode() {
    let q = Query::new("o+").unwrap();
    assert_eq!(q.as_str(), "o+");
    assert_eq!(search("foo boo", &q, MatchMode::FirstSubstring), Some("oo".to_string()));
    assert_eq!(search("fo boooo", &q, MatchMode::LastSubstring), Some("oooo".to_string()));
    assert_eq!(search("foo", &q, MatchMode::SubstringMatch), Some("foo".to_string()));
    assert_eq!(search("bar", &q, MatchMode::SubstringMatch), None);
    assert_eq!(search("bar", &q, MatchMode::AllSubstring), None);
}

#[test]
fn filter_lines_keeps_order() {
    let q = Query::new("b").unwrap();
    let lines = strings(&["b1", "a", "b2", "cb"]);
    assert_eq!(filter_lines(&lines, &q, MatchMode::SubstringMatch), strings(&["b1", "b2", "cb"]));
    assert_eq!(filter_lines(&Vec::new(), &q, MatchMode::SubstringMatch), Vec::<String>::new());
}
