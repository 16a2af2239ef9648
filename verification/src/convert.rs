//! The written form of a temperature reading: a number, a slash, and a unit,
//! as in `21.5/C` or `451/F`.

use crate::text::{first_index_of, find_first, lemma_first_index_of};
use vstd::prelude::*;
use vstd::string::StrSliceExecFns;

verus! {

/// The scale that a reading is given in.
#[derive(Debug, Clone, Copy, PartialEq, Eq)]
pub enum Scale {
    Celsius,
    Fahrenheit,
    Kelvin,
}

/// The scale that the unit of a reading names: `f` or `F` is Fahrenheit,
/// `k` or `K` is Kelvin, and anything else is taken as Celsius.
pub open spec fn scale_of(unit: Seq<char>) -> Scale {
    if unit == seq!['f'] || unit == seq!['F'] {
        Scale::Fahrenheit
    } else if unit == seq!['k'] || unit == seq!['K'] {
        Scale::Kelvin
    } else {
        Scale::Celsius
    }
}

/// The two parts of a written reading. The number is what stands before the
/// first slash and the unit is everything behind that slash. Text without a
/// slash, or with nothing before the first slash, is no reading.
pub open spec fn reading_of(text: Seq<char>) -> Option<(Seq<char>, Scale)> {
    let slash = first_index_of(text, '/');
    if 0 < slash < text.len() {
        Some((text.subrange(0, slash), scale_of(text.subrange(slash + 1, text.len() as int))))
    } else {
        None
    }
}

/// The scale that `unit` names.
pub fn scale_named(unit: &str) -> (scale: Scale)
    ensures
        scale == scale_of(unit@),
{
    if unit.unicode_len() == 1 {
        let c = unit.get_char(0);
        assert(unit@ =~= seq![c]);
        if c == 'f' || c == 'F' {
            Scale::Fahrenheit
        } else if c == 'k' || c == 'K' {
            Scale::Kelvin
        } else {
            Scale::Celsius
        }
    } else {
        Scale::Celsius
    }
}

/// Splits a written reading into the text of its number and its scale, or
/// returns `None` where `text` is no reading. The number is handed back as
/// it was written; whether it denotes a number is for the caller to find out.
pub fn split_reading<'a>(text: &'a str) -> (reading: Option<(&'a str, Scale)>)
    ensures
        match reading {
            Some((number, scale)) => reading_of(text@) == Some((number@, scale)),
            None => reading_of(text@) is None,
        },
{
    let count = text.unicode_len();
    let slash = find_first(text, '/');
    proof {
        lemma_first_index_of(text@, '/');
    }
    if slash == 0 || slash >= count {
        return None;
    }
    let number = text.substring_char(0, slash);
    let unit = text.substring_char(slash + 1, count);
    Some((number, scale_named(unit)))
}

} // verus!
