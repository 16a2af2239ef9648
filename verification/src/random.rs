//! A number drawn at random, and the sentence that reports it.

use vstd::prelude::*;
use vstd::string::StringExecFns;

verus! {

/// The ten decimal digits, in order.
pub open spec fn digits() -> Seq<char> {
    seq!['0', '1', '2', '3', '4', '5', '6', '7', '8', '9']
}

/// The decimal notation of a natural number, without leading zeros.
pub open spec fn decimal(n: nat) -> Seq<char>
    decreases n,
{
    if n < 10 {
        seq![digits()[n as int]]
    } else {
        decimal(n / 10).push(digits()[(n % 10) as int])
    }
}

/// The decimal notation of an integer: a minus sign in front of a negative one.
pub open spec fn signed_decimal(n: int) -> Seq<char> {
    if n < 0 {
        seq!['-'] + decimal((-n) as nat)
    } else {
        decimal(n as nat)
    }
}

/// The sentence that reports the number `n`.
pub open spec fn report(n: int) -> Seq<char> {
    "Your number was "@ + signed_decimal(n)
}

/// Trusted: rand's handle to the random number generator of the current
/// thread. Nothing inside it is visible here; it is only passed on.
#[verifier::external_type_specification]
#[verifier::external_body]
pub struct ExThreadRng(rand::rngs::ThreadRng);

/// Trusted: `rand::thread_rng` hands out the generator of the current
/// thread. Nothing is claimed about it. It sets the generator up on first
/// use and panics if the system has no randomness to seed it with.
pub assume_specification[ rand::thread_rng ]() -> rand::rngs::ThreadRng;

/// Trusted: calls `Rng::gen_range` on rand's thread-local generator. The
/// contract claims only what holds of every draw: the number is at least
/// `low` and less than `high`. `gen_range` panics unless `low < high`, which
/// `requires` therefore asks for. Nothing is claimed about which number
/// comes, and two draws need not agree.
#[verifier::external_body]
fn gen_range(rng: &mut rand::rngs::ThreadRng, low: i32, high: i32) -> (n: i32)
    requires
        low < high,
    ensures
        low <= n < high,
{
    rand::Rng::gen_range(rng, low, high)
}

/// A number between 1 and 1000, both included, drawn at random from the
/// generator of the current thread.
pub fn random_in_range() -> (n: i32)
    ensures
        1 <= n <= 1000,
{
    let mut rng = rand::thread_rng();
    gen_range(&mut rng, 1, 1001)
}

/// The digit `d` as a string of one character.
fn digit(d: u32) -> (text: &'static str)
    requires
        d < 10,
    ensures
        text@ == seq![digits()[d as int]],
{
    proof {
        reveal_strlit("0");
        reveal_strlit("1");
        reveal_strlit("2");
        reveal_strlit("3");
        reveal_strlit("4");
        reveal_strlit("5");
        reveal_strlit("6");
        reveal_strlit("7");
        reveal_strlit("8");
        reveal_strlit("9");
    }
    if d == 0 {
        "0"
    } else if d == 1 {
        "1"
    } else if d == 2 {
        "2"
    } else if d == 3 {
        "3"
    } else if d == 4 {
        "4"
    } else if d == 5 {
        "5"
    } else if d == 6 {
        "6"
    } else if d == 7 {
        "7"
    } else if d == 8 {
        "8"
    } else {
        "9"
    }
}

/// Writes the decimal notation of `n` behind what `text` already holds.
fn append_decimal(text: &mut String, n: u32)
    ensures
        final(text)@ == old(text)@ + decimal(n as nat),
    decreases n,
{
    if n >= 10 {
        append_decimal(text, n / 10);
    }
    text.append(digit(n % 10));
}

/// The sentence that reports the number `n`, in decimal notation.
pub fn announce(n: i32) -> (text: String)
    ensures
        text@ == report(n as int),
{
    let mut text = String::from_str("Your number was ");
    if n < 0 {
        proof {
            reveal_strlit("-");
        }
        text.append("-");
        let wide: i64 = n as i64;
        let magnitude: u32 = (-wide) as u32;
        append_decimal(&mut text, magnitude);
    } else {
        append_decimal(&mut text, n as u32);
    }
    text
}

} // verus!
