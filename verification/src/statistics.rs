//! Descriptive statistics of whole numbers, as far as whole numbers carry
//! them: the sum, the middle of a list, and the value that occurs most often.

use std::collections::HashMap;
use vstd::prelude::*;

verus! {

/// The sum of `values`.
pub open spec fn sum_of(values: Seq<i32>) -> int
    decreases values.len(),
{
    if values.len() == 0 {
        0
    } else {
        sum_of(values.drop_last()) + values.last()
    }
}

/// How often `value` occurs in `values`.
pub open spec fn occurrences(values: Seq<i32>, value: i32) -> nat
    decreases values.len(),
{
    if values.len() == 0 {
        0
    } else if values.last() == value {
        occurrences(values.drop_last(), value) + 1
    } else {
        occurrences(values.drop_last(), value)
    }
}

/// What stands in the middle of a list.
#[derive(Debug, Clone, Copy, PartialEq, Eq)]
pub enum Middle {
    /// Nothing: the list is empty.
    Empty,
    /// The one element in the middle of a list of odd length.
    One(i32),
    /// The two elements around the middle of a list of even length, in the
    /// order in which they stand in the list.
    Two(i32, i32),
}

/// What stands in the middle of `values`.
pub open spec fn middle_of(values: Seq<i32>) -> Middle {
    let half = (values.len() / 2) as int;
    if values.len() == 0 {
        Middle::Empty
    } else if values.len() % 2 == 0 {
        Middle::Two(values[half - 1], values[half])
    } else {
        Middle::One(values[half])
    }
}

/// A value occurs at most as often as the list is long.
pub proof fn lemma_occurrences_at_most_len(values: Seq<i32>, value: i32)
    ensures
        occurrences(values, value) <= values.len(),
    decreases values.len(),
{
    if values.len() > 0 {
        lemma_occurrences_at_most_len(values.drop_last(), value);
    }
}

/// A value occurs in a list at some position exactly if it occurs there at
/// least once.
pub proof fn lemma_occurrences_positive(values: Seq<i32>, value: i32)
    ensures
        occurrences(values, value) > 0 <==> exists|i: int|
            0 <= i < values.len() && values[i] == value,
    decreases values.len(),
{
    if values.len() > 0 {
        let front = values.drop_last();
        lemma_occurrences_positive(front, value);
        if occurrences(values, value) > 0 {
            if values.last() == value {
                assert(values[values.len() - 1] == value);
            } else {
                let i = choose|i: int| 0 <= i < front.len() && front[i] == value;
                assert(values[i] == value);
            }
        }
        if exists|i: int| 0 <= i < values.len() && values[i] == value {
            let i = choose|i: int| 0 <= i < values.len() && values[i] == value;
            if i < values.len() - 1 {
                assert(front[i] == value);
            }
        }
    }
}

/// The sum of `values`. It is exact: the result is wide enough for any list.
pub fn sum(values: &Vec<i32>) -> (total: i128)
    ensures
        total == sum_of(values@),
{
    let mut total: i128 = 0;
    let mut i: usize = 0;
    while i < values.len()
        invariant
            i <= values.len(),
            total == sum_of(values@.take(i as int)),
            -0x8000_0000 * i <= total <= 0x8000_0000 * i,
        decreases values.len() - i,
    {
        assert(values@.take(i + 1).drop_last() =~= values@.take(i as int));
        total = total + values[i] as i128;
        i += 1;
    }
    assert(values@.take(i as int) =~= values@);
    total
}

/// What stands in the middle of `values`: nothing for an empty list, the
/// middle element for an odd length, the two around the middle for an even one.
pub fn middle(values: &Vec<i32>) -> (found: Middle)
    ensures
        found == middle_of(values@),
{
    let len = values.len();
    if len == 0 {
        Middle::Empty
    } else if len % 2 == 0 {
        Middle::Two(values[len / 2 - 1], values[len / 2])
    } else {
        Middle::One(values[len / 2])
    }
}

/// How often each value occurs in `values`.
fn count_all(values: &Vec<i32>) -> (counts: HashMap<i32, usize>)
    ensures
        forall|v: i32| counts@.contains_key(v) <==> occurrences(values@, v) > 0,
        forall|v: i32| counts@.contains_key(v) ==> counts@[v] == occurrences(values@, v),
{
    let mut counts: HashMap<i32, usize> = HashMap::new();
    let mut i: usize = 0;
    while i < values.len()
        invariant
            i <= values.len(),
            forall|v: i32| counts@.contains_key(v) <==> occurrences(values@.take(i as int), v) > 0,
            forall|v: i32|
                counts@.contains_key(v) ==> counts@[v] == occurrences(values@.take(i as int), v),
        decreases values.len() - i,
    {
        let value = values[i];
        proof {
            assert(values@.take(i + 1).drop_last() =~= values@.take(i as int));
            lemma_occurrences_at_most_len(values@.take(i as int), value);
        }
        let seen = match counts.get(&value) {
            Some(n) => *n,
            None => 0,
        };
        counts.insert(value, seen + 1);
        i += 1;
    }
    assert(values@.take(i as int) =~= values@);
    counts
}

/// The value that occurs most often in `values`, with the number of times
/// it occurs; among several such values, the one that comes first in the
/// list. `None` for an empty list.
pub fn mode(values: &Vec<i32>) -> (most: Option<(i32, usize)>)
    ensures
        most is None <==> values@.len() == 0,
        most matches Some((value, times)) ==> {
            &&& times == occurrences(values@, value)
            &&& forall|other: i32| occurrences(values@, other) <= times
            &&& exists|at: int|
                {
                    &&& 0 <= at < values@.len()
                    &&& values@[at] == value
                    &&& forall|i: int| 0 <= i < at ==> occurrences(values@, #[trigger] values@[i]) < times
                }
        },
{
    if values.len() == 0 {
        return None;
    }
    let counts = count_all(values);
    let mut value = values[0];
    let ghost mut at: int = 0;
    proof {
        lemma_occurrences_positive(values@, value);
    }
    let mut times = *counts.get(&value).unwrap();
    let mut i: usize = 1;
    while i < values.len()
        invariant
            1 <= i <= values.len(),
            forall|v: i32| counts@.contains_key(v) <==> occurrences(values@, v) > 0,
            forall|v: i32| counts@.contains_key(v) ==> counts@[v] == occurrences(values@, v),
            0 <= at < i,
            values@[at] == value,
            times == occurrences(values@, value),
            forall|j: int| 0 <= j < at ==> occurrences(values@, #[trigger] values@[j]) < times,
            forall|j: int| 0 <= j < i ==> occurrences(values@, #[trigger] values@[j]) <= times,
        decreases values.len() - i,
    {
        let candidate = values[i];
        proof {
            lemma_occurrences_positive(values@, candidate);
        }
        let n = *counts.get(&candidate).unwrap();
        if n > times {
            value = candidate;
            times = n;
            proof {
                at = i as int;
            }
        }
        i += 1;
    }
    proof {
        assert forall|other: i32| occurrences(values@, other) <= times by {
            lemma_occurrences_positive(values@, other);
            if occurrences(values@, other) > 0 {
                let k = choose|k: int| 0 <= k < values@.len() && values@[k] == other;
                assert(occurrences(values@, values@[k]) <= times);
            }
        }
    }
    Some((value, times))
}

} // verus!
