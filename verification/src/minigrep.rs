//! A plain line search: the lines of a text that contain a query, with or
//! without regard to case.

use crate::text::{
    lines_left, lines_of, lowercase, next_line, occurs_in, str_contains, str_lines,
    str_to_lowercase,
};
use vstd::prelude::*;
use vstd::std_specs::iter::IteratorSpec;

verus! {

/// What to search for, where, and how.
pub struct Config {
    pub query: String,
    pub filename: String,
    pub case_sensitive: bool,
}

impl Config {
    /// Reads a configuration from program arguments: the program's own name
    /// first, then the query, then the file name; anything after that is
    /// ignored. `ignore_case` says whether a search without regard to case
    /// was asked for.
    pub fn new<I: Iterator<Item = String>>(mut args: I, ignore_case: bool) -> (config: Result<
        Config,
        &'static str,
    >)
        ensures
            args.obeys_prophetic_iter_laws() ==> match config {
                Ok(c) => {
                    &&& args.remaining().len() >= 3
                    &&& c.query == args.remaining()[1]
                    &&& c.filename == args.remaining()[2]
                    &&& c.case_sensitive == !ignore_case
                },
                Err(message) => {
                    ||| args.remaining().len() < 2 && message@ == "Didn't get a query string"@
                    ||| args.remaining().len() == 2 && message@ == "Didn't get a file name"@
                },
            },
    {
        args.next();

        let query = match args.next() {
            Some(arg) => arg,
            None => return Err("Didn't get a query string"),
        };

        let filename = match args.next() {
            Some(arg) => arg,
            None => return Err("Didn't get a file name"),
        };

        Ok(Config { query, filename, case_sensitive: !ignore_case })
    }
}

/// The test that a line passes when it contains `query`.
pub open spec fn containing(query: Seq<char>) -> spec_fn(Seq<char>) -> bool {
    |line: Seq<char>| occurs_in(query, line)
}

/// The lines that a case-sensitive search for `query` selects from `text`.
pub open spec fn matching_lines(query: Seq<char>, text: Seq<char>) -> Seq<Seq<char>> {
    lines_of(text).filter(containing(query))
}

/// The test that a line passes when its lower-case form contains the
/// lower-case form of `query`.
pub open spec fn containing_ignoring_case(query: Seq<char>) -> spec_fn(Seq<char>) -> bool {
    |line: Seq<char>| occurs_in(lowercase(query), lowercase(line))
}

/// The lines that a search for `query` without regard to case selects from `text`.
pub open spec fn matching_lines_ignoring_case(query: Seq<char>, text: Seq<char>) -> Seq<
    Seq<char>,
> {
    lines_of(text).filter(containing_ignoring_case(query))
}

/// The test that a pair of key and line passes when the key contains `needle`.
pub open spec fn key_containing(needle: Seq<char>) -> spec_fn((Seq<char>, Seq<char>)) -> bool {
    |pair: (Seq<char>, Seq<char>)| occurs_in(needle, pair.0)
}

/// The line of a pair of key and line.
pub open spec fn line_of_pair() -> spec_fn((Seq<char>, Seq<char>)) -> Seq<char> {
    |pair: (Seq<char>, Seq<char>)| pair.1
}

/// The lines of `keyed`, in order, whose key contains `needle`.
pub open spec fn selected_by_key(needle: Seq<char>, keyed: Seq<(Seq<char>, Seq<char>)>) -> Seq<
    Seq<char>,
> {
    keyed.filter(key_containing(needle)).map_values(line_of_pair())
}

/// A line paired with its lower-case form as the key.
pub open spec fn with_lowercase_key() -> spec_fn(Seq<char>) -> (Seq<char>, Seq<char>) {
    |line: Seq<char>| (lowercase(line), line)
}

/// The lines of `contents` that contain `query`, in the order they appear.
pub fn search<'a>(query: &str, contents: &'a str) -> (found: Vec<&'a str>)
    ensures
        found.deep_view() == matching_lines(query@, contents@),
{
    let mut lines = str_lines(contents);
    let mut found: Vec<&'a str> = Vec::new();
    let ghost all = lines_of(contents@);
    let ghost mut seen: int = 0;
    proof {
        reveal(Seq::filter);
    }
    loop
        invariant
            0 <= seen <= all.len(),
            lines_left(lines) == all.skip(seen),
            found.deep_view() == all.take(seen).filter(containing(query@)),
        ensures
            found.deep_view() == all.filter(containing(query@)),
        decreases all.len() - seen,
    {
        match next_line(&mut lines) {
            None => {
                assert(all.take(seen) =~= all);
                break ;
            },
            Some(line) => {
                proof {
                    reveal(Seq::filter);
                    assert(all.take(seen + 1).drop_last() =~= all.take(seen));
                }
                if str_contains(line, query) {
                    found.push(line);
                }
                proof {
                    assert(all.skip(seen).drop_first() =~= all.skip(seen + 1));
                    seen = seen + 1;
                }
            },
        }
    }
    found
}

/// The lines of `keyed`, in order, whose key contains `needle`. Each entry
/// pairs a key with the line that it stands for.
pub fn select_by_key<'a>(needle: &str, keyed: &Vec<(String, &'a str)>) -> (found: Vec<&'a str>)
    ensures
        found.deep_view() == selected_by_key(needle@, keyed.deep_view()),
{
    let mut found: Vec<&'a str> = Vec::new();
    let mut i: usize = 0;
    proof {
        reveal(Seq::filter);
    }
    while i < keyed.len()
        invariant
            i <= keyed.len(),
            found.deep_view() == selected_by_key(needle@, keyed.deep_view().take(i as int)),
        decreases keyed.len() - i,
    {
        let ghost before = found.deep_view();
        let ghost kept = keyed.deep_view().take(i as int).filter(key_containing(needle@));
        proof {
            reveal(Seq::filter);
            assert(keyed.deep_view().take(i + 1).drop_last() =~= keyed.deep_view().take(i as int));
        }
        let line = keyed[i].1;
        if str_contains(keyed[i].0.as_str(), needle) {
            found.push(line);
            assert(kept.push((keyed[i as int].0@, line@)).map_values(line_of_pair())
                =~= before.push(line@));
        }
        i += 1;
    }
    assert(keyed.deep_view().take(i as int) =~= keyed.deep_view());
    found
}

/// Selecting by lower-case keys is the search without regard to case.
proof fn lemma_selected_by_lowercase_key(needle: Seq<char>, lines: Seq<Seq<char>>)
    ensures
        selected_by_key(lowercase(needle), lines.map_values(with_lowercase_key()))
            == lines.filter(containing_ignoring_case(needle)),
    decreases lines.len(),
{
    reveal(Seq::filter);
    if lines.len() > 0 {
        let keyed = lines.map_values(with_lowercase_key());
        lemma_selected_by_lowercase_key(needle, lines.drop_last());
        assert(keyed.drop_last() =~= lines.drop_last().map_values(with_lowercase_key()));
    }
}

/// The lines of `contents` that contain `query` when the case of letters is
/// disregarded: both are compared in their lower-case forms.
pub fn search_case_insensitive<'a>(query: &str, contents: &'a str) -> (found: Vec<&'a str>)
    ensures
        found.deep_view() == matching_lines_ignoring_case(query@, contents@),
{
    let needle = str_to_lowercase(query);
    let mut lines = str_lines(contents);
    let mut keyed: Vec<(String, &'a str)> = Vec::new();
    let ghost all = lines_of(contents@);
    let ghost mut seen: int = 0;
    loop
        invariant
            0 <= seen <= all.len(),
            lines_left(lines) == all.skip(seen),
            keyed.deep_view() == all.take(seen).map_values(with_lowercase_key()),
        ensures
            keyed.deep_view() == all.map_values(with_lowercase_key()),
        decreases all.len() - seen,
    {
        match next_line(&mut lines) {
            None => {
                assert(all.take(seen) =~= all);
                break ;
            },
            Some(line) => {
                let ghost before = keyed.deep_view();
                keyed.push((str_to_lowercase(line), line));
                proof {
                    assert(all.take(seen + 1).map_values(with_lowercase_key()) =~= before.push(
                        (lowercase(line@), line@),
                    ));
                    assert(all.skip(seen).drop_first() =~= all.skip(seen + 1));
                    seen = seen + 1;
                }
            },
        }
    }
    proof {
        lemma_selected_by_lowercase_key(query@, all);
    }
    select_by_key(needle.as_str(), &keyed)
}

/// The lines of `contents` that the search described by `config` selects:
/// `config.query` is looked for with or without regard to case, as
/// `config.case_sensitive` says.
pub fn run<'a>(config: &Config, contents: &'a str) -> (found: Vec<&'a str>)
    ensures
        config.case_sensitive ==> found.deep_view() == matching_lines(config.query@, contents@),
        !config.case_sensitive ==> found.deep_view() == matching_lines_ignoring_case(
            config.query@,
            contents@,
        ),
{
    if config.case_sensitive {
        search(config.query.as_str(), contents)
    } else {
        search_case_insensitive(config.query.as_str(), contents)
    }
}

} // verus!
