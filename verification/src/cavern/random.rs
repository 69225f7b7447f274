//! The game's random choices, made by the generator of `macroquad::rand`.
use vstd::prelude::*;

verus! {

/// The largest range bound for which `random_range` is specified.
pub const RANDOM_RANGE_LIMIT: i32 = 0x10_0000;

/// Calls `quad_rand::gen_range` (the generator behind `macroquad::rand`)
/// on `i32`. The generator scales a 32-bit random number in [0, 1) to the
/// range and truncates, so for 0 <= low < high (kept small here) the result
/// lies in [low, high). Which value comes out depends on the generator's
/// state.
#[verifier::external_body]
pub(crate) fn random_range(low: i32, high: i32) -> (r: i32)
    requires
        0 <= low < high <= RANDOM_RANGE_LIMIT,
    ensures
        low <= r < high,
{
    quad_rand::gen_range(low, high)
}

/// Calls `quad_rand::ChooseRandom::choose` on a slice and copies the
/// chosen item: `None` for an empty slice, else one of the slice's items,
/// picked by the generator.
#[verifier::external_body]
pub(crate) fn random_choice<T: Copy>(items: &[T]) -> (r: Option<T>)
    ensures
        match r {
            Some(v) => items@.contains(v),
            None => items@.len() == 0,
        },
{
    quad_rand::ChooseRandom::choose(items).copied()
}

/// Calls `quad_rand::ChooseRandom::shuffle` on the vector's items: a
/// sequence of swaps, so the same items come back in an order picked by the
/// generator.
#[verifier::external_body]
pub(crate) fn random_shuffle<T>(items: &mut Vec<T>)
    ensures
        final(items)@.to_multiset() == old(items)@.to_multiset(),
{
    quad_rand::ChooseRandom::shuffle(items.as_mut_slice())
}

} // verus!
