//! The random string that makes each request distinct: thirty letters from
//! `a` to `z`.
use vstd::prelude::*;

verus! {

/// The number of characters of a nonce.
pub const NONCE_LENGTH: usize = 30;

/// The letter that a random number selects: the lower-case letters in turn.
pub open spec fn letter_of(draw: u32) -> char {
    ((97 + draw % 26) as u8) as char
}

/// The letters that a sequence of random numbers selects.
pub open spec fn letters_of(draws: Seq<u32>) -> Seq<char> {
    draws.map_values(|d: u32| letter_of(d))
}

/// Thirty lower-case letters.
pub open spec fn is_nonce(s: Seq<char>) -> bool {
    s.len() == NONCE_LENGTH && forall|i: int|
        0 <= i < s.len() ==> 'a' <= #[trigger] s[i] && s[i] <= 'z'
}

/// `rand::random` at `u32`: a number from the thread's generator, of which
/// nothing is known beforehand.
#[verifier::external_body]
pub(crate) fn random_draw() -> u32 {
    rand::random::<u32>()
}

/// The lower-case letter that `draw` selects.
pub fn nonce_letter(draw: u32) -> (c: char)
    ensures
        c == letter_of(draw),
        'a' <= c && c <= 'z',
{
    let offset: u8 = (draw % 26) as u8;
    (97 + offset) as char
}

/// The text whose letters `draws` select, one for each number.
pub fn nonce_from_draws(draws: &[u32]) -> (r: String)
    ensures
        r@ == letters_of(draws@),
        draws@.len() == NONCE_LENGTH ==> is_nonce(r@),
{
    let mut out = String::new();
    let mut i: usize = 0;
    while i < draws.len()
        invariant
            i <= draws@.len(),
            out@ == letters_of(draws@.take(i as int)),
        decreases draws.len() - i,
    {
        let c = nonce_letter(draws[i]);
        out.push(c);
        proof {
            assert(draws@.take(i + 1) =~= draws@.take(i as int).push(draws@[i as int]));
            assert(out@ =~= letters_of(draws@.take(i + 1)));
        }
        i += 1;
    }
    proof {
        assert(draws@.take(i as int) =~= draws@);
    }
    out
}

/// A nonce of thirty random lower-case letters.
pub fn fresh_nonce() -> (r: String)
    ensures
        is_nonce(r@),
{
    let mut draws: Vec<u32> = Vec::new();
    while draws.len() < NONCE_LENGTH
        invariant
            draws@.len() <= NONCE_LENGTH,
        decreases NONCE_LENGTH - draws.len(),
    {
        draws.push(random_draw());
    }
    nonce_from_draws(draws.as_slice())
}

} // verus!
