//! The deterministic jitter stream.
//!
//! Colours are darkened by per-vertex multiplicative factors drawn from
//! rand's standard generator, seeded with a fixed all-zero seed at the start
//! of each synthesis, so the factor sequence over vertex order repeats from
//! run to run.  The verified pipeline takes the drawn factors as an explicit
//! argument; only the drawing itself is trusted.

use crate::fixed::SCALE;
use vstd::prelude::*;

verus! {

/// rand's standard pseudo-random generator; its state is opaque here.
#[verifier::external_type_specification]
#[verifier::external_body]
pub struct ExStdRng(rand::rngs::StdRng);

/// Smallest jitter factor: a colour is darkened by at most one tenth.
pub const JITTER_MIN: u64 = 900_000;

/// Every factor of a jitter stream lies in the narrow band just below one.
pub open spec fn jitter_wf(jit: Seq<u64>, n: nat) -> bool {
    jit.len() == n && forall|i: int| 0 <= i < jit.len() ==> JITTER_MIN <= #[trigger] jit[i] <= SCALE
}

/// Relies on rand's `SeedableRng::from_seed` for `StdRng`: builds the
/// generator deterministically from a 32-byte seed.
#[verifier::external_body]
fn rng_from_seed(seed: [u8; 32]) -> rand::rngs::StdRng {
    <rand::rngs::StdRng as rand::SeedableRng>::from_seed(seed)
}

/// Relies on rand's `Rng::gen_range` over the half-open integer range
/// `JITTER_MIN..SCALE`: the sample lies in that range, and the call panics
/// only on an empty range, which this one is not.
#[verifier::external_body]
fn jitter_factor(rng: &mut rand::rngs::StdRng) -> (r: u64)
    ensures
        JITTER_MIN <= r < SCALE,
{
    rand::Rng::gen_range(rng, JITTER_MIN..SCALE)
}

/// Draw one jitter factor per vertex, in vertex order, from the fixed seed.
pub fn jitter_stream(n: usize) -> (r: Vec<u64>)
    ensures
        jitter_wf(r@, n as nat),
{
    let mut rng = rng_from_seed([0u8; 32]);
    let mut r: Vec<u64> = Vec::new();
    let mut i: usize = 0;
    while i < n
        invariant
            i <= n,
            r@.len() == i,
            forall|j: int| 0 <= j < i ==> JITTER_MIN <= #[trigger] r@[j] <= SCALE,
        decreases n - i,
    {
        r.push(jitter_factor(&mut rng));
        i += 1;
    }
    r
}

} // verus!
