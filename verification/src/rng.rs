//! Draws from the seeded generator that every random fixture value comes from.

use vstd::prelude::*;
use rand::rngs::StdRng;
use rand::{Rng, SeedableRng};
use crate::types::U256;

verus! {

/// The generator of `rand`; its state is not looked into here.
#[verifier::external_type_specification]
#[verifier::external_body]
pub struct ExStdRng(StdRng);

/// `StdRng::seed_from_u64`: a generator started from `seed`. Nothing is
/// claimed of its state.
#[verifier::external_body]
fn seed_from_u64(seed: u64) -> StdRng {
    StdRng::seed_from_u64(seed)
}

/// `Rng::gen_range` on a half-open range of `u32`: the draw lies in the
/// range. The call panics on an empty range, which `requires` leaves out.
#[verifier::external_body]
fn gen_range_u32(rng: &mut StdRng, low: u32, high: u32) -> (r: u32)
    requires
        low < high,
    ensures
        low <= r < high,
{
    rng.gen_range(low..high)
}

/// The number of tokens that a withdrawal may name.
pub const TOKEN_COUNT: u32 = 2;

/// A generator started from `seed`.
pub fn seeded_rng(seed: u64) -> StdRng {
    seed_from_u64(seed)
}

/// Draws the token index of a withdrawal: one of the first `TOKEN_COUNT`.
pub fn sample_token_index(rng: &mut StdRng) -> (r: u32)
    ensures
        r < TOKEN_COUNT,
{
    gen_range_u32(rng, 0, TOKEN_COUNT)
}

/// Draws the amount of a withdrawal: at least one and below `u32::MAX`.
pub fn sample_amount(rng: &mut StdRng) -> (r: U256)
    ensures
        1 <= r.value() < u32::MAX,
{
    let amount = gen_range_u32(rng, 1, u32::MAX);
    U256::from_u32(amount)
}

} // verus!
