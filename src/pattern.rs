use vstd::prelude::*;

use crate::mode::MatchMode;
use crate::text::{is_infix, is_single_line, views_of};

verus! {

#[verifier::external_type_specification]
#[verifier::external_body]
pub struct ExRegex(regex::Regex);

#[verifier::external_type_specification]
#[verifier::external_body]
pub struct ExRegexError(regex::Error);

/// Whether the regex crate accepts `pattern` (valid syntax, within its size limit).
pub uninterp spec fn compiles(pattern: Seq<char>) -> bool;

/// Whether the regex compiled from `pattern` matches anywhere in `line`.
pub uninterp spec fn is_match_of(pattern: Seq<char>, line: Seq<char>) -> bool;

/// The texts of the successive non-overlapping matches of the regex compiled
/// from `pattern` in `line`, left to right.
pub uninterp spec fn match_texts(pattern: Seq<char>, line: Seq<char>) -> Seq<Seq<char>>;

/// `text` with every regex meta character escaped.
pub uninterp spec fn escaped_of(text: Seq<char>) -> Seq<char>;

/// Why a pattern could not be turned into a query.
#[derive(Debug, PartialEq, Eq)]
pub struct PatternError {
    pub message: String,
}

/// A compiled regular expression together with the pattern it was compiled
/// from. The two fields are set together, by `Query::new` alone.
#[derive(Debug)]
pub struct Query {
    source: String,
    re: regex::Regex,
}

impl View for Query {
    type V = Seq<char>;

    /// The pattern the query was compiled from.
    closed spec fn view(&self) -> Seq<char> {
        self.source@
    }
}

/// Relies on `regex::Regex::new`: it succeeds exactly on the patterns that it
/// accepts, which depends on the pattern alone.
#[verifier::external_body]
fn compile_regex(pattern: &str) -> (r: Result<regex::Regex, regex::Error>)
    ensures
        r is Ok <==> compiles(pattern@),
{
    regex::Regex::new(pattern)
}

/// Relies on `regex::Error`'s `Display`, for a readable message.
#[verifier::external_body]
fn error_message(e: &regex::Error) -> String {
    e.to_string()
}

/// Relies on `regex::escape`: its result, compiled, matches exactly the lines
/// in which `text` occurs literally.
#[verifier::external_body]
fn escape_literal(text: &str) -> (r: String)
    ensures
        r@ == escaped_of(text@),
        forall|line: Seq<char>| #[trigger] is_match_of(r@, line) <==> is_infix(text@, line),
{
    regex::escape(text)
}

/// `query` anchored at both ends: `^query$`.
pub open spec fn anchored(query: Seq<char>) -> Seq<char> {
    seq!['^'] + query + seq!['$']
}

/// The pattern that a query stands for in a mode: escaped to a literal for a
/// plain search, anchored for a complete match, as written otherwise.
pub open spec fn pattern_for(query: Seq<char>, mode: MatchMode) -> Seq<char> {
    match mode {
        MatchMode::PlainSearch => escaped_of(query),
        MatchMode::CompleteMatch => anchored(query),
        _ => query,
    }
}

/// Builds the pattern that `query` stands for in `mode`. For a plain search
/// the pattern matches exactly the lines that hold `query` literally: no
/// character of it keeps a special meaning.
pub fn build_pattern(query: &str, mode: MatchMode) -> (r: String)
    ensures
        r@ == pattern_for(query@, mode),
        mode == MatchMode::PlainSearch ==> forall|line: Seq<char>|
            #[trigger] is_match_of(r@, line) <==> is_infix(query@, line),
{
    match mode {
        MatchMode::PlainSearch => escape_literal(query),
        MatchMode::CompleteMatch => {
            let mut p = String::from_str("^");
            p.append(query);
            p.append("$");
            proof {
                reveal_strlit("^");
                reveal_strlit("$");
            }
            assert(p@ =~= anchored(query@));
            p
        },
        _ => String::from_str(query),
    }
}

impl Query {
    /// Compiles `pattern`; fails exactly when the regex crate rejects it.
    pub fn new(pattern: &str) -> (r: Result<Query, PatternError>)
        ensures
            r is Ok <==> compiles(pattern@),
            r matches Ok(q) ==> q@ == pattern@,
    {
        match compile_regex(pattern) {
            Ok(re) => Ok(Query { source: String::from_str(pattern), re }),
            Err(e) => Err(PatternError { message: error_message(&e) }),
        }
    }

    /// The pattern the query was compiled from.
    pub fn as_str(&self) -> (r: &str)
        ensures
            r@ == self@,
    {
        self.source.as_str()
    }

    /// Relies on `regex::Regex::is_match`: whether the regex matches anywhere
    /// in `line`, a function of the pattern and the line.
    #[verifier::external_body]
    pub(crate) fn is_match(&self, line: &str) -> (r: bool)
        ensures
            r == is_match_of(self@, line@),
    {
        self.re.is_match(line)
    }

    /// Relies on `regex::Regex::find_iter`: the successive non-overlapping
    /// matches, each a run of characters of `line`.
    #[verifier::external_body]
    pub(crate) fn find_all(&self, line: &str) -> (r: Vec<String>)
        ensures
            views_of(r@) == match_texts(self@, line@),
            forall|i: int| 0 <= i < r@.len() ==> is_infix(#[trigger] r@[i]@, line@),
    {
        self.re.find_iter(line).map(|m| m.as_str().to_string()).collect()
    }
}

} // verus!
