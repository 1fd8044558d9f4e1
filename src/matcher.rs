use vstd::prelude::*;

use crate::mode::MatchMode;
use crate::pattern::{
    anchored, build_pattern, compiles, is_match_of, match_texts, pattern_for, PatternError, Query,
};
use crate::text::{
    is_infix, is_single_line, join_lines, join_matches, lemma_split_join, split_lines_of, views_of,
};

verus! {

/// The view of an optional string.
pub open spec fn opt_view(o: Option<String>) -> Option<Seq<char>> {
    match o {
        Some(s) => Some(s@),
        None => None,
    }
}

/// What an extracting mode keeps of a line whose matches are `texts`: the
/// first, the last, or all of them one per line; nothing when there is no
/// match. The modes that keep whole lines keep nothing of the matches.
pub open spec fn picked(texts: Seq<Seq<char>>, mode: MatchMode) -> Option<Seq<char>> {
    if texts.len() == 0 {
        None
    } else {
        match mode {
            MatchMode::FirstSubstring => Some(texts[0]),
            MatchMode::LastSubstring => Some(texts.last()),
            MatchMode::AllSubstring => Some(join_lines(texts)),
            _ => None,
        }
    }
}

/// What comes out of `line` for a query compiled from `pattern` in `mode`.
pub open spec fn search_result(line: Seq<char>, pattern: Seq<char>, mode: MatchMode) -> Option<
    Seq<char>,
> {
    if mode.extracts() {
        picked(match_texts(pattern, line), mode)
    } else if is_match_of(pattern, line) {
        Some(line)
    } else {
        None
    }
}

/// What comes out of all the lines, in order; a line that yields nothing
/// leaves no entry.
pub open spec fn outputs(lines: Seq<Seq<char>>, pattern: Seq<char>, mode: MatchMode) -> Seq<
    Seq<char>,
> {
    lines.filter_map(|l: Seq<char>| search_result(l, pattern, mode))
}

/// Keeps what `mode` keeps of a line whose matches are `texts`.
pub fn pick_matches(texts: &Vec<String>, mode: MatchMode) -> (r: Option<String>)
    ensures
        opt_view(r) == picked(views_of(texts@), mode),
{
    if texts.len() == 0 {
        return None;
    }
    match mode {
        MatchMode::FirstSubstring => Some(texts[0].clone()),
        MatchMode::LastSubstring => Some(texts[texts.len() - 1].clone()),
        MatchMode::AllSubstring => join_matches(texts),
        _ => None,
    }
}

proof fn lemma_infix_single_line(t: Seq<char>, s: Seq<char>)
    requires
        is_infix(t, s),
        is_single_line(s),
    ensures
        is_single_line(t),
{
    let a = choose|a: int| 0 <= a && a + t.len() <= s.len() && #[trigger] s.subrange(a, a + t.len()) == t;
    assert forall|i: int| 0 <= i < t.len() implies t[i] != '\n' by {
        assert(t[i] == s.subrange(a, a + t.len())[i]);
    }
}

/// Matches one line against the query in `mode`. A line with no line break,
/// searched for all its matches, yields text that cuts at its line breaks
/// into exactly those matches, in order.
pub fn search(line: &str, query: &Query, mode: MatchMode) -> (r: Option<String>)
    ensures
        opt_view(r) == search_result(line@, query@, mode),
        mode == MatchMode::AllSubstring && is_single_line(line@) ==> (r matches Some(s)
            ==> split_lines_of(s@) == match_texts(query@, line@)),
{
    match mode {
        MatchMode::FirstSubstring | MatchMode::LastSubstring | MatchMode::AllSubstring => {
            let texts = query.find_all(line);
            proof {
                if mode == MatchMode::AllSubstring && is_single_line(line@) && texts@.len() > 0 {
                    assert forall|i: int| 0 <= i < views_of(texts@).len() implies is_single_line(
                        #[trigger] views_of(texts@)[i],
                    ) by {
                        assert(is_infix(texts@[i]@, line@));
                        lemma_infix_single_line(texts@[i]@, line@);
                    }
                    lemma_split_join(views_of(texts@));
                }
            }
            pick_matches(&texts, mode)
        },
        _ => {
            if query.is_match(line) {
                Some(String::from_str(line))
            } else {
                None
            }
        },
    }
}

/// Runs every line through `search`, in order, and keeps what comes out.
pub fn filter_lines(lines: &Vec<String>, query: &Query, mode: MatchMode) -> (r: Vec<String>)
    ensures
        views_of(r@) == outputs(views_of(lines@), query@, mode),
{
    let mut out: Vec<String> = Vec::new();
    let mut i: usize = 0;
    while i < lines.len()
        invariant
            i <= lines.len(),
            views_of(out@) == outputs(views_of(lines@.subrange(0, i as int)), query@, mode),
        decreases lines.len() - i,
    {
        let ghost before = views_of(out@);
        proof {
            let next = views_of(lines@.subrange(0, i as int + 1));
            assert(next.drop_last() =~= views_of(lines@.subrange(0, i as int)));
            assert(next.last() == lines@[i as int]@);
        }
        match search(lines[i].as_str(), query, mode) {
            Some(s) => {
                out.push(s);
                assert(views_of(out@) =~= before + seq![s@]);
            },
            None => {
                assert(views_of(out@) =~= before);
            },
        }
        i = i + 1;
    }
    assert(lines@.subrange(0, i as int) =~= lines@);
    out
}

/// The modes that keep whole lines keep exactly the lines that the pattern
/// matches, in order.
pub proof fn lemma_line_modes_filter(lines: Seq<Seq<char>>, pattern: Seq<char>, mode: MatchMode)
    requires
        !mode.extracts(),
    ensures
        outputs(lines, pattern, mode) == lines.filter(|l: Seq<char>| is_match_of(pattern, l)),
    decreases lines.len(),
{
    reveal(Seq::filter);
    if lines.len() > 0 {
        lemma_line_modes_filter(lines.drop_last(), pattern, mode);
    }
}

/// A complete match keeps exactly the lines that the query, anchored at both
/// ends, matches, in order.
pub proof fn lemma_complete_match(lines: Seq<Seq<char>>, query: Seq<char>)
    ensures
        outputs(lines, pattern_for(query, MatchMode::CompleteMatch), MatchMode::CompleteMatch)
            == lines.filter(|l: Seq<char>| is_match_of(anchored(query), l)),
{
    lemma_line_modes_filter(lines, anchored(query), MatchMode::CompleteMatch);
}

/// Filters `lines` by `query` in `mode`. Fails exactly when the pattern that
/// the query stands for does not compile. A complete match keeps the lines
/// that the anchored query matches; a plain search keeps the lines that hold
/// the query literally.
pub fn filter_text(lines: &Vec<String>, query: &str, mode: MatchMode) -> (r: Result<
    Vec<String>,
    PatternError,
>)
    ensures
        r is Ok <==> compiles(pattern_for(query@, mode)),
        r matches Ok(out) ==> views_of(out@) == outputs(
            views_of(lines@),
            pattern_for(query@, mode),
            mode,
        ),
        mode == MatchMode::CompleteMatch ==> (r matches Ok(out) ==> views_of(out@) == views_of(
            lines@,
        ).filter(|l: Seq<char>| is_match_of(anchored(query@), l))),
        mode == MatchMode::PlainSearch ==> (r matches Ok(out) ==> views_of(out@) == views_of(
            lines@,
        ).filter(|l: Seq<char>| is_infix(query@, l))),
{
    let pattern = build_pattern(query, mode);
    let q = Query::new(pattern.as_str())?;
    let out = filter_lines(lines, &q, mode);
    proof {
        if mode == MatchMode::CompleteMatch {
            lemma_complete_match(views_of(lines@), query@);
        }
        if mode == MatchMode::PlainSearch {
            lemma_line_modes_filter(views_of(lines@), pattern@, mode);
            let f1 = |l: Seq<char>| is_match_of(pattern@, l);
            let f2 = |l: Seq<char>| is_infix(query@, l);
            assert forall|l: Seq<char>| #[trigger] f1(l) == f2(l) by {
                assert(is_match_of(pattern@, l) <==> is_infix(query@, l));
            }
            assert(f1 =~= f2);
        }
    }
    Ok(out)
}

} // verus!
