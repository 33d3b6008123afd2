//! Random names.
use vstd::prelude::*;

verus! {

/// Draws a number below `bound` with `rand::Rng::gen_range` on the
/// generator of the thread. Which number comes is up to chance; it is below
/// the bound.
#[verifier::external_body]
fn random_below(bound: usize) -> (r: usize)
    requires
        bound > 0,
    ensures
        r < bound,
{
    ::rand::Rng::gen_range(&mut ::rand::thread_rng(), 0..bound)
}

/// The characters that a random name is made of: the letters of the
/// alphabet, capital and small, and the digits.
pub open spec fn charset() -> Seq<char> {
    "ABCDEFGHIJKLMNOPQRSTUVWXYZabcdefghijklmnopqrstuvwxyz0123456789"@
}

/// Whether `s` is a random name of the length `length`.
pub open spec fn is_random_name(s: Seq<char>, length: nat) -> bool {
    s.len() == length && forall|i: int| 0 <= i < s.len() ==> charset().contains(#[trigger] s[i])
}

/// The text of the characters that the numbers `picks` choose from the character set.
pub fn name_from_picks(picks: &Vec<usize>) -> (s: String)
    requires
        forall|i: int| 0 <= i < picks@.len() ==> picks@[i] < charset().len(),
    ensures
        s@.len() == picks@.len(),
        forall|i: int| 0 <= i < picks@.len() ==> s@[i] == charset()[picks@[i] as int],
{
    let letters = crate::text::chars_of(
        "ABCDEFGHIJKLMNOPQRSTUVWXYZabcdefghijklmnopqrstuvwxyz0123456789",
    );
    let mut s = String::new();
    let mut i: usize = 0;
    while i < picks.len()
        invariant
            i <= picks.len(),
            letters@ == charset(),
            forall|k: int| 0 <= k < picks@.len() ==> picks@[k] < charset().len(),
            s@.len() == i,
            forall|k: int| 0 <= k < i ==> s@[k] == charset()[picks@[k] as int],
        decreases picks.len() - i,
    {
        s.push(letters[picks[i]]);
        i += 1;
    }
    s
}

/// A random name of the given length.
pub fn rand_string(length: usize) -> (s: String)
    ensures
        is_random_name(s@, length as nat),
{
    let letters = crate::text::chars_of(
        "ABCDEFGHIJKLMNOPQRSTUVWXYZabcdefghijklmnopqrstuvwxyz0123456789",
    );
    proof {
        reveal_strlit("ABCDEFGHIJKLMNOPQRSTUVWXYZabcdefghijklmnopqrstuvwxyz0123456789");
    }
    let mut picks: Vec<usize> = Vec::new();
    let mut i: usize = 0;
    while i < length
        invariant
            i <= length,
            letters@ == charset(),
            letters@.len() == 62,
            picks@.len() == i,
            forall|k: int| 0 <= k < i ==> picks@[k] < charset().len(),
        decreases length - i,
    {
        picks.push(random_below(letters.len()));
        i += 1;
    }
    let s = name_from_picks(&picks);
    assert forall|k: int| 0 <= k < s@.len() implies charset().contains(#[trigger] s@[k]) by {
        assert(s@[k] == charset()[picks@[k] as int]);
    }
    s
}

} // verus!
