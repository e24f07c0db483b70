//! The random source. Each function here makes one call into the `rand`
//! crate; its contract is trusted and states only what holds of every draw.

use vstd::prelude::*;
use rand::Rng;
use rand::seq::SliceRandom;
use crate::coord::Coord;

verus! {

/// Calls `Rng::gen_range` on the thread's generator with the inclusive range
/// `low..=high`. Trusted: the draw lies in the range. An empty range is left
/// out, since `gen_range` panics on it.
#[verifier::external_body]
pub(crate) fn random_in_range(low: u32, high: u32) -> (r: u32)
    requires
        low <= high,
    ensures
        low <= r <= high,
{
    rand::thread_rng().gen_range(low..=high)
}

/// Calls `Rng::gen` on the thread's generator for a `bool`: a fair coin.
/// Nothing is promised of the outcome.
#[verifier::external_body]
pub(crate) fn random_bool() -> bool {
    rand::thread_rng().gen()
}

/// Calls `Rng::gen` on the thread's generator for a `usize`. Nothing is
/// promised of the outcome.
#[verifier::external_body]
pub(crate) fn random_usize() -> usize {
    rand::thread_rng().gen()
}

/// Calls `SliceRandom::choose` on the cells with the thread's generator.
/// Trusted: the result is `None` exactly for an empty list, and else one of
/// the cells listed.
#[verifier::external_body]
pub(crate) fn random_choice(cells: &Vec<Coord>) -> (r: Option<Coord>)
    ensures
        r is None <==> cells@.len() == 0,
        r matches Some(c) ==> cells@.contains(c),
{
    cells.choose(&mut rand::thread_rng()).copied()
}

/// Calls `SliceRandom::choose_multiple` on the cells with the thread's
/// generator and collects what it yields. Trusted: `amount` cells come out,
/// or all of them where fewer are listed, each from a place of its own in
/// the list.
#[verifier::external_body]
pub(crate) fn random_sample(cells: &Vec<Coord>, amount: usize) -> (r: Vec<Coord>)
    ensures
        r@.len() == if amount <= cells@.len() { amount as int } else { cells@.len() as int },
        exists|picks: Seq<int>|
            picks.len() == r@.len() && picks.no_duplicates() && forall|i: int|
                0 <= i < r@.len() ==> 0 <= #[trigger] picks[i] < cells@.len() && r@[i] == cells@[picks[i]],
{
    cells.choose_multiple(&mut rand::thread_rng(), amount).copied().collect()
}

} // verus!
