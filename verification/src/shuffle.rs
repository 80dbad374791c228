//! The one place where chance enters the game.

use vstd::prelude::*;
use rand::seq::SliceRandom;
use crate::card::Card;
use crate::model::is_shuffle_of;

verus! {

/// Shuffles the deck in place with `rand::seq::SliceRandom::shuffle`, on
/// the generator that `rand::thread_rng` hands out.
///
/// Not proved: that the call only swaps cards of the slice among
/// themselves, so that the deck afterwards holds the same cards, each as
/// often as before. Nothing is claimed of their order.
#[verifier::external_body]
pub(crate) fn shuffle_deck(deck: &mut Vec<Card>)
    ensures
        is_shuffle_of(final(deck)@, old(deck)@),
{
    let mut rng = rand::thread_rng();
    deck.shuffle(&mut rng);
}

} // verus!
