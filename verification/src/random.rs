//! The random draws of the library, all made on a generator that the caller
//! owns and passes in.

use rand::rngs::StdRng;
use rand::seq::SliceRandom;
use rand::Rng;
use vstd::prelude::*;

verus! {

/// `StdRng` of rand: a generator of random numbers, carried through as it
/// is; nothing of its state is known here.
#[verifier::external_type_specification]
#[verifier::external_body]
pub struct ExStdRng(StdRng);

/// One entry of a weighted pool: the position that it stands for, and the
/// weight with which it is drawn.
#[derive(Clone, Copy, Debug, PartialEq, Eq, Structural)]
pub struct Candidate {
    pub index: usize,
    pub weight: u128,
}

/// The sum of the weights of a pool.
pub open spec fn total_weight(pool: Seq<Candidate>) -> nat
    decreases pool.len(),
{
    if pool.len() == 0 {
        0
    } else {
        total_weight(pool.drop_last()) + pool.last().weight as nat
    }
}

/// Calls `Rng::gen_range` of rand on the inclusive range from `low` to
/// `high`. The range must not be empty, since rand panics on an empty one.
/// Trusted: the value drawn lies within the range.
#[verifier::external_body]
pub(crate) fn draw_between(rng: &mut StdRng, low: u128, high: u128) -> (drawn: u128)
    requires
        low <= high,
    ensures
        low <= drawn <= high,
{
    rng.gen_range(low..=high)
}

/// Calls `SliceRandom::choose` of rand on `table`. Trusted: an empty table
/// gives nothing, any other gives one of its elements.
#[verifier::external_body]
pub(crate) fn choose_one(rng: &mut StdRng, table: &Vec<u32>) -> (chosen: Option<u32>)
    ensures
        table@.len() == 0 ==> chosen is None,
        table@.len() > 0 ==> chosen is Some && table@.contains(chosen->0),
{
    table.as_slice().choose(rng).copied()
}

/// Calls `SliceRandom::choose_weighted` of rand on `pool`, with each entry's
/// `weight` as its weight. The weights must sum within `u128`, since rand
/// adds them up unchecked. Trusted: a pool whose weights sum to zero (an
/// empty one too) gives nothing; any other gives one of its entries, and
/// never one of weight zero.
#[verifier::external_body]
pub(crate) fn choose_weighted(rng: &mut StdRng, pool: &Vec<Candidate>) -> (chosen: Option<
    Candidate,
>)
    requires
        total_weight(pool@) <= u128::MAX,
    ensures
        total_weight(pool@) == 0 ==> chosen is None,
        total_weight(pool@) > 0 ==> chosen is Some && pool@.contains(chosen->0) && (chosen->0).weight
            > 0,
{
    match pool.as_slice().choose_weighted(rng, |entry: &Candidate| entry.weight) {
        Ok(entry) => Some(*entry),
        Err(_) => None,
    }
}

} // verus!
