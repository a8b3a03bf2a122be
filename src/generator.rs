//! Password generation from a length and two character-class flags.

use rand::Rng;
use vstd::prelude::*;

verus! {

/// The letters a generated password always draws from.
pub open spec fn letters() -> Seq<char> {
    "ABCDEFGHIJKLMNOPQRSTUVWXYZabcdefghijklmnopqrstuvwxyz"@
}

/// The digits a generated password may draw from.
pub open spec fn numbers() -> Seq<char> {
    "0123456789"@
}

/// The punctuation a generated password may draw from.
pub open spec fn special_chars() -> Seq<char> {
    "!@#$%^&*"@
}

/// The characters a generated password draws from: the letters, then the
/// digits when `numbers_allowed`, then the punctuation when
/// `special_chars_allowed`.
pub open spec fn alphabet(numbers_allowed: bool, special_chars_allowed: bool) -> Seq<char> {
    letters() + (if numbers_allowed {
        numbers()
    } else {
        Seq::empty()
    }) + (if special_chars_allowed {
        special_chars()
    } else {
        Seq::empty()
    })
}

/// Relies on `rand::thread_rng().gen_range(0..n)`: an index below `n`, drawn
/// afresh on each call. It panics on an empty range, which `requires` leaves out.
#[verifier::external_body]
fn random_below(n: usize) -> (r: usize)
    requires
        n > 0,
    ensures
        r < n,
{
    rand::thread_rng().gen_range(0..n)
}

/// Relies on `String`'s `FromIterator<char>`: the string of those characters,
/// in order.
#[verifier::external_body]
fn string_of_chars(chars: Vec<char>) -> (r: String)
    ensures
        r@ == chars@,
{
    chars.into_iter().collect()
}

fn push_chars(out: &mut Vec<char>, s: &str)
    ensures
        final(out)@ == old(out)@ + s@,
{
    let n = s.unicode_len();
    let mut i: usize = 0;
    while i < n
        invariant
            n == s@.len(),
            i <= n,
            out@ == old(out)@ + s@.take(i as int),
        decreases n - i,
    {
        out.push(s.get_char(i));
        i += 1;
        assert(out@ =~= old(out)@ + s@.take(i as int));
    }
    assert(s@.take(n as int) =~= s@);
}

/// The characters a generated password may hold, in a fixed order.
fn alphabet_chars(numbers_allowed: bool, special_chars_allowed: bool) -> (r: Vec<char>)
    ensures
        r@ == alphabet(numbers_allowed, special_chars_allowed),
        r@.len() >= 52,
{
    let mut out: Vec<char> = Vec::new();
    push_chars(&mut out, "ABCDEFGHIJKLMNOPQRSTUVWXYZabcdefghijklmnopqrstuvwxyz");
    proof {
        reveal_strlit("ABCDEFGHIJKLMNOPQRSTUVWXYZabcdefghijklmnopqrstuvwxyz");
    }
    if numbers_allowed {
        push_chars(&mut out, "0123456789");
    } else {
        assert(out@ =~= out@ + Seq::<char>::empty());
    }
    if special_chars_allowed {
        push_chars(&mut out, "!@#$%^&*");
    } else {
        assert(out@ =~= out@ + Seq::<char>::empty());
    }
    out
}

/// The password whose `i`-th character is the `choices[i]`-th character of
/// the alphabet that the two flags allow.
pub fn password_from_choices(
    choices: &Vec<usize>,
    numbers_allowed: bool,
    special_chars_allowed: bool,
) -> (r: String)
    requires
        forall|i: int|
            0 <= i < choices@.len() ==> #[trigger] choices@[i] < alphabet(
                numbers_allowed,
                special_chars_allowed,
            ).len(),
    ensures
        r@ == Seq::new(
            choices@.len(),
            |i: int| alphabet(numbers_allowed, special_chars_allowed)[choices@[i] as int],
        ),
{
    let chars = alphabet_chars(numbers_allowed, special_chars_allowed);
    let mut out: Vec<char> = Vec::new();
    let mut i: usize = 0;
    while i < choices.len()
        invariant
            i <= choices@.len(),
            chars@ == alphabet(numbers_allowed, special_chars_allowed),
            forall|j: int| 0 <= j < choices@.len() ==> #[trigger] choices@[j] < chars@.len(),
            out@ == Seq::new(i as nat, |j: int| chars@[choices@[j] as int]),
        decreases choices@.len() - i,
    {
        out.push(chars[choices[i]]);
        i += 1;
        assert(out@ =~= Seq::new(i as nat, |j: int| chars@[choices@[j] as int]));
    }
    string_of_chars(out)
}

/// A fresh password of `length` characters, each drawn at random from the
/// letters, the digits when `numbers_allowed`, and the punctuation
/// `!@#$%^&*` when `special_chars_allowed`.
pub fn generate_pw(length: u32, numbers_allowed: bool, special_chars_allowed: bool) -> (r: String)
    ensures
        r@.len() == length,
        forall|i: int|
            0 <= i < r@.len() ==> alphabet(numbers_allowed, special_chars_allowed).contains(
                #[trigger] r@[i],
            ),
{
    let size = alphabet_chars(numbers_allowed, special_chars_allowed).len();
    let mut choices: Vec<usize> = Vec::new();
    let mut i: u32 = 0;
    while i < length
        invariant
            i <= length,
            choices@.len() == i,
            size == alphabet(numbers_allowed, special_chars_allowed).len(),
            size > 0,
            forall|j: int| 0 <= j < choices@.len() ==> #[trigger] choices@[j] < size,
        decreases length - i,
    {
        choices.push(random_below(size));
        i += 1;
    }
    let r = password_from_choices(&choices, numbers_allowed, special_chars_allowed);
    assert forall|i: int| 0 <= i < r@.len() implies alphabet(
        numbers_allowed,
        special_chars_allowed,
    ).contains(#[trigger] r@[i]) by {
        assert(r@[i] == alphabet(numbers_allowed, special_chars_allowed)[choices@[i] as int]);
    }
    r
}

} // verus!
