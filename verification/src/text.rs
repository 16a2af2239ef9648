//! What the search needs to know about text: where lines end, when one
//! string occurs in another, and the lower-case form of a string.
//!
//! Strings are modelled by their sequence of characters. The std functions
//! that split text into lines, look for a substring and change the case are
//! called through trusted declarations at the end of this file, each with
//! the contract that the rest of the crate builds on.

use std::str::Lines;
use vstd::prelude::*;
use vstd::std_specs::iter::IteratorSpec;
use vstd::string::StrSliceExecFns;

verus! {

/// `needle` sits in `hay` at position `at`.
pub open spec fn occurs_at(needle: Seq<char>, hay: Seq<char>, at: int) -> bool {
    &&& 0 <= at
    &&& at + needle.len() <= hay.len()
    &&& hay.subrange(at, at + needle.len()) == needle
}

/// `needle` is a contiguous part of `hay`. The empty string is part of every string.
pub open spec fn occurs_in(needle: Seq<char>, hay: Seq<char>) -> bool {
    exists|at: int| occurs_at(needle, hay, at)
}

/// The position of the first `mark` in `text`, or the length of `text` when
/// it holds none.
pub open spec fn first_index_of(text: Seq<char>, mark: char) -> int
    decreases text.len(),
{
    if text.len() == 0 || text[0] == mark {
        0
    } else {
        1 + first_index_of(text.drop_first(), mark)
    }
}

/// `line` without the carriage return at its end, if it has one.
pub open spec fn without_carriage_return(line: Seq<char>) -> Seq<char> {
    if line.len() > 0 && line.last() == '\r' {
        line.drop_last()
    } else {
        line
    }
}

/// The lines of `text`. A line ends at a line feed, or at a carriage return
/// directly followed by a line feed; neither is part of the line. The last
/// line needs no line ending, and text that stops right after a line ending
/// has no further, empty line. A carriage return that no line feed follows
/// stays in its line.
pub open spec fn lines_of(text: Seq<char>) -> Seq<Seq<char>>
    decreases text.len(),
{
    if text.len() == 0 {
        Seq::empty()
    } else {
        let end = first_index_of(text, '\n');
        if 0 <= end < text.len() {
            seq![without_carriage_return(text.subrange(0, end))] + lines_of(
                text.subrange(end + 1, text.len() as int),
            )
        } else {
            seq![text]
        }
    }
}

/// What `first_index_of` returns lies within `text`, nothing before it is
/// `mark`, and where it lies inside `text` it points at a `mark`.
pub proof fn lemma_first_index_of(text: Seq<char>, mark: char)
    ensures
        0 <= first_index_of(text, mark) <= text.len(),
        forall|i: int| 0 <= i < first_index_of(text, mark) ==> text[i] != mark,
        first_index_of(text, mark) < text.len() ==> text[first_index_of(text, mark)] == mark,
    decreases text.len(),
{
    if text.len() > 0 && text[0] != mark {
        let rest = text.drop_first();
        lemma_first_index_of(rest, mark);
        assert forall|i: int| 0 <= i < first_index_of(text, mark) implies text[i] != mark by {
            if i > 0 {
                assert(text[i] == rest[i - 1]);
            }
        }
    }
}

/// A position that holds `mark` with no `mark` before it is the first one;
/// so is the length of a text without any `mark`.
pub proof fn lemma_first_index_of_is(text: Seq<char>, mark: char, at: int)
    requires
        0 <= at <= text.len(),
        forall|i: int| 0 <= i < at ==> text[i] != mark,
        at < text.len() ==> text[at] == mark,
    ensures
        first_index_of(text, mark) == at,
    decreases text.len(),
{
    if text.len() > 0 && text[0] != mark {
        let rest = text.drop_first();
        assert forall|i: int| 0 <= i < at - 1 implies rest[i] != mark by {
            assert(rest[i] == text[i + 1]);
        }
        lemma_first_index_of_is(rest, mark, at - 1);
    }
}

/// The position of the first `mark` in `text`, counted in characters, or the
/// number of characters in `text` when it holds none.
pub fn find_first(text: &str, mark: char) -> (at: usize)
    ensures
        at == first_index_of(text@, mark),
{
    let count = text.unicode_len();
    let mut chars = text.chars();
    let mut at: usize = 0;
    loop
        invariant
            chars.obeys_prophetic_iter_laws(),
            chars.remaining() == text@.skip(at as int),
            count == text@.len(),
            at <= count,
            forall|i: int| 0 <= i < at ==> text@[i] != mark,
        decreases text@.len() - at,
    {
        match chars.next() {
            None => {
                proof {
                    lemma_first_index_of_is(text@, mark, at as int);
                }
                return at;
            },
            Some(c) => {
                if c == mark {
                    proof {
                        lemma_first_index_of_is(text@, mark, at as int);
                    }
                    return at;
                }
                at += 1;
            },
        }
    }
}

/// The lower-case form of a string, as `str::to_lowercase` computes it from
/// the Unicode tables. It depends on the characters alone.
pub uninterp spec fn lowercase(text: Seq<char>) -> Seq<char>;

/// Trusted: the iterator that `str::lines` returns. Nothing inside it is
/// visible here; `lines_left` stands for what it has yet to yield.
#[verifier::external_type_specification]
#[verifier::external_body]
pub struct ExLines<'a>(Lines<'a>);

/// The lines that an iterator over lines has yet to yield, in order.
pub uninterp spec fn lines_left(lines: Lines<'_>) -> Seq<Seq<char>>;

/// Trusted: calls `str::lines`. The contract claims that the iterator will
/// yield, in order, exactly the lines that `lines_of` describes, which
/// restates the documentation of `str::lines`.
#[verifier::external_body]
pub(crate) fn str_lines<'a>(text: &'a str) -> (lines: Lines<'a>)
    ensures
        lines_left(lines) == lines_of(text@),
{
    text.lines()
}

/// Trusted: calls `Iterator::next` on an iterator over lines. The contract
/// claims that it yields the first of the lines that are left and keeps the
/// others, and that it yields `None`, with nothing left, once there is none.
#[verifier::external_body]
pub(crate) fn next_line<'a>(lines: &mut Lines<'a>) -> (line: Option<&'a str>)
    ensures
        match line {
            Some(first) => {
                &&& lines_left(*old(lines)).len() > 0
                &&& first@ == lines_left(*old(lines))[0]
                &&& lines_left(*final(lines)) == lines_left(*old(lines)).drop_first()
            },
            None => lines_left(*old(lines)).len() == 0 && lines_left(*final(lines)).len() == 0,
        },
{
    lines.next()
}

/// Trusted: calls `str::contains` with a string pattern. The contract claims
/// that it answers whether `needle` is a contiguous part of `hay`.
#[verifier::external_body]
pub(crate) fn str_contains(hay: &str, needle: &str) -> (found: bool)
    ensures
        found == occurs_in(needle@, hay@),
{
    hay.contains(needle)
}

/// Trusted: calls `str::to_lowercase`. The contract only names the result.
#[verifier::external_body]
pub(crate) fn str_to_lowercase(text: &str) -> (lower: String)
    ensures
        lower@ == lowercase(text@),
{
    text.to_lowercase()
}

} // verus!
