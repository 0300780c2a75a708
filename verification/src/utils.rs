//! Identifier generation and shuffling: the library's boundary with the
//! random-number and id-encoding crates.

use vstd::prelude::*;

use crate::card::Card;
use rand::seq::SliceRandom;

verus! {

/// Rearranges the cards into some order; which order is random.
///
/// Relies on rand's `SliceRandom::shuffle`: it permutes the slice in place,
/// so exactly the same cards remain, whatever order they land in.
#[verifier::external_body]
pub(crate) fn shuffle_cards(cards: &mut Vec<Card>)
    ensures
        final(cards)@.to_multiset() == old(cards)@.to_multiset(),
        final(cards)@.len() == old(cards)@.len(),
{
    cards.shuffle(&mut rand::rng());
}

/// A freshly generated identifier; its value is random.
///
/// Relies on uuid's `Uuid::new_v4` for randomness; the first eight bytes of
/// the fresh identifier, read big-endian, become the numeric id.
#[verifier::external_body]
pub(crate) fn fresh_id() -> u64 {
    uuid::Uuid::new_v4().as_u64_pair().0
}

/// The base62 rendering of a number.
pub uninterp spec fn base62_of(n: u64) -> Seq<char>;

/// Relies on base62's `encode`: a digit string (at least one digit) that is
/// a function of the number alone.
#[verifier::external_body]
pub(crate) fn encode_base62(n: u64) -> (r: String)
    ensures
        r@ == base62_of(n),
        r@.len() >= 1,
{
    base62::encode(n)
}

/// A short, freshly generated session identifier in base62 form.
pub fn generate_short_uuid() -> (r: String)
    ensures
        r@.len() >= 1,
        exists|n: u64| r@ == base62_of(n),
{
    let n = fresh_id();
    let r = encode_base62(n);
    proof {
        assert(r@ == base62_of(n));
    }
    r
}

} // verus!
