//! Selecting the lines of a document that contain, or do not contain, a query.
use vstd::prelude::*;

use crate::text::{chars_of, contains, contains_chars, lines, split_lines, views};

verus! {

/// What `str::to_lowercase` makes of a string.
pub uninterp spec fn lower_of(s: Seq<char>) -> Seq<char>;

/// Relies on `str::to_lowercase`: its result depends on the chars of `s` alone.
#[verifier::external_body]
fn lowercase(s: &str) -> (r: String)
    ensures
        r@ == lower_of(s@),
{
    s.to_lowercase()
}

/// Whether `line` contains `query`, exactly or after lowercasing both.
pub open spec fn line_matches(query: Seq<char>, line: Seq<char>, case_sensitive: bool) -> bool {
    if case_sensitive {
        contains(line, query)
    } else {
        contains(lower_of(line), lower_of(query))
    }
}

/// Whether `line` is reported: it matches, or, when inverting, it does not.
pub open spec fn keeps(query: Seq<char>, line: Seq<char>, case_sensitive: bool, invert: bool) -> bool {
    line_matches(query, line, case_sensitive) != invert
}

/// The lines of `ls` that are reported, in order, repeats kept.
pub open spec fn select(
    ls: Seq<Seq<char>>,
    query: Seq<char>,
    case_sensitive: bool,
    invert: bool,
) -> Seq<Seq<char>> {
    ls.filter(|l: Seq<char>| keeps(query, l, case_sensitive, invert))
}

/// The lines of document `doc` that are reported.
pub open spec fn selected(
    query: Seq<char>,
    doc: Seq<char>,
    case_sensitive: bool,
    invert: bool,
) -> Seq<Seq<char>> {
    select(lines(doc), query, case_sensitive, invert)
}

/// Whether `line` contains `query` as a substring.
pub fn contains_query(line: &str, query: &str) -> (r: bool)
    ensures
        r == contains(line@, query@),
{
    let l = chars_of(line);
    let q = chars_of(query);
    contains_chars(&l, &q)
}

/// The lines of `contents` that are reported under the two flags.
fn select_lines<'a>(query: &str, contents: &'a str, case_sensitive: bool, invert: bool) -> (r: Vec<
    &'a str,
>)
    ensures
        views(r@) == selected(query@, contents@, case_sensitive, invert),
{
    let all = split_lines(contents);
    let folded_query = if case_sensitive {
        String::new()
    } else {
        lowercase(query)
    };
    let mut out: Vec<&'a str> = Vec::new();
    let ghost pred = |l: Seq<char>| keeps(query@, l, case_sensitive, invert);
    for i in 0..all.len()
        invariant
            views(all@) == lines(contents@),
            !case_sensitive ==> folded_query@ == lower_of(query@),
            pred == (|l: Seq<char>| keeps(query@, l, case_sensitive, invert)),
            views(out@) == views(all@).take(i as int).filter(pred),
    {
        let line = all[i];
        let found = if case_sensitive {
            contains_query(line, query)
        } else {
            let folded_line = lowercase(line);
            contains_query(folded_line.as_str(), folded_query.as_str())
        };
        proof {
            let ls = views(all@).take(i + 1);
            assert(ls.drop_last() =~= views(all@).take(i as int));
            assert(ls.last() == line@);
            reveal(Seq::filter);
        }
        if found != invert {
            assert(views(out@.push(line)) =~= views(out@).push(line@));
            out.push(line);
        }
    }
    assert(views(all@).take(all.len() as int) =~= views(all@));
    out
}

/// The lines of `contents` that contain `query`.
pub fn search<'a>(query: &str, contents: &'a str) -> (r: Vec<&'a str>)
    ensures
        views(r@) == selected(query@, contents@, true, false),
{
    select_lines(query, contents, true, false)
}

/// The lines of `contents` that contain `query` once both are lowercased.
pub fn search_case_insensitive<'a>(query: &str, contents: &'a str) -> (r: Vec<&'a str>)
    ensures
        views(r@) == selected(query@, contents@, false, false),
{
    select_lines(query, contents, false, false)
}

/// The lines of `contents` that do not contain `query`.
pub fn search_without_query<'a>(query: &str, contents: &'a str) -> (r: Vec<&'a str>)
    ensures
        views(r@) == selected(query@, contents@, true, true),
{
    select_lines(query, contents, true, true)
}

/// The lines of `contents` that do not contain `query` once both are lowercased.
pub fn search_without_query_insensitive<'a>(query: &str, contents: &'a str) -> (r: Vec<&'a str>)
    ensures
        views(r@) == selected(query@, contents@, false, true),
{
    select_lines(query, contents, false, true)
}

/// The four ways of reporting lines: matching or not, exactly or ignoring case.
pub enum Mode {
    Matching,
    MatchingIgnoreCase,
    NotMatching,
    NotMatchingIgnoreCase,
}

impl Mode {
    /// Whether this mode compares exactly.
    pub open spec fn is_case_sensitive(&self) -> bool {
        self is Matching || self is NotMatching
    }

    /// Whether this mode reports the lines that do not match.
    pub open spec fn is_inverted(&self) -> bool {
        self is NotMatching || self is NotMatchingIgnoreCase
    }

    /// The mode for the two flags, each of which is honoured whatever the other.
    pub fn new(case_sensitive: bool, invert: bool) -> (m: Mode)
        ensures
            m.is_case_sensitive() == case_sensitive,
            m.is_inverted() == invert,
    {
        match (invert, case_sensitive) {
            (false, true) => Mode::Matching,
            (false, false) => Mode::MatchingIgnoreCase,
            (true, true) => Mode::NotMatching,
            (true, false) => Mode::NotMatchingIgnoreCase,
        }
    }

    /// The lines of `contents` that this mode reports.
    pub fn search<'a>(&self, query: &str, contents: &'a str) -> (r: Vec<&'a str>)
        ensures
            views(r@) == selected(query@, contents@, self.is_case_sensitive(), self.is_inverted()),
    {
        match self {
            Mode::Matching => search(query, contents),
            Mode::MatchingIgnoreCase => search_case_insensitive(query, contents),
            Mode::NotMatching => search_without_query(query, contents),
            Mode::NotMatchingIgnoreCase => search_without_query_insensitive(query, contents),
        }
    }
}

/// The lines of `contents` reported under the two flags.
pub fn filter<'a>(query: &str, contents: &'a str, case_sensitive: bool, invert: bool) -> (r: Vec<
    &'a str,
>)
    ensures
        views(r@) == selected(query@, contents@, case_sensitive, invert),
{
    Mode::new(case_sensitive, invert).search(query, contents)
}

} // verus!
