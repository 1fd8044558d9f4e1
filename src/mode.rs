use vstd::prelude::*;

verus! {

/// How a query is applied to a line, and what is kept of a line that matches.
#[derive(Debug, Clone, Copy, PartialEq, Eq, Structural)]
pub enum MatchMode {
    /// The query, anchored at both ends, must match the whole line; the line is kept.
    CompleteMatch,
    /// The query must match somewhere in the line; the line is kept.
    SubstringMatch,
    /// The first match of the query in the line is kept.
    FirstSubstring,
    /// The last match of the query in the line is kept.
    LastSubstring,
    /// Every match of the query in the line is kept, one per output line.
    AllSubstring,
    /// The query is taken literally and must occur in the line; the line is kept.
    PlainSearch,
}

impl MatchMode {
    /// Modes that keep the matched parts of a line rather than the line.
    pub open spec fn extracts(self) -> bool {
        match self {
            MatchMode::FirstSubstring | MatchMode::LastSubstring | MatchMode::AllSubstring => true,
            _ => false,
        }
    }
}

/// The mode that a one-letter flag names: `c`, `s`, `f`, `l` or `a`.
/// Anything else, and no flag at all, means a plain literal search.
pub open spec fn mode_of_flag(flag: Option<Seq<char>>) -> MatchMode {
    match flag {
        Some(f) => {
            if f == seq!['c'] {
                MatchMode::CompleteMatch
            } else if f == seq!['s'] {
                MatchMode::SubstringMatch
            } else if f == seq!['f'] {
                MatchMode::FirstSubstring
            } else if f == seq!['l'] {
                MatchMode::LastSubstring
            } else if f == seq!['a'] {
                MatchMode::AllSubstring
            } else {
                MatchMode::PlainSearch
            }
        },
        None => MatchMode::PlainSearch,
    }
}

/// Picks the mode that the command-line flag names.
pub fn mode_from_flag(flag: Option<&str>) -> (r: MatchMode)
    ensures
        r == mode_of_flag(
            match flag {
                Some(f) => Some(f@),
                None => None,
            },
        ),
{
    match flag {
        Some(f) => {
            if f.unicode_len() != 1 {
                return MatchMode::PlainSearch;
            }
            let c = f.get_char(0);
            assert(f@ =~= seq![c]);
            if c == 'c' {
                MatchMode::CompleteMatch
            } else if c == 's' {
                MatchMode::SubstringMatch
            } else if c == 'f' {
                MatchMode::FirstSubstring
            } else if c == 'l' {
                MatchMode::LastSubstring
            } else if c == 'a' {
                MatchMode::AllSubstring
            } else {
                MatchMode::PlainSearch
            }
        },
        None => MatchMode::PlainSearch,
    }
}

} // verus!
