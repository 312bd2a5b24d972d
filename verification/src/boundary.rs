//! Shoreline detection over the adjacency graph.

use vstd::prelude::*;

verus! {

/// Sea level in fixed-point height units (one unit of radial height).
pub const SEA_LEVEL: i64 = 1_000_000;

/// A vertex is shoreline-adjacent when its own height, or the height of any
/// neighbour in its adjacency ring, lies below sea level.
pub open spec fn boundary_spec(heights: Seq<i64>, ring: Seq<usize>, v: int) -> bool {
    heights[v] < SEA_LEVEL || exists|k: int|
        0 <= k < ring.len() && heights[#[trigger] ring[k] as int] < SEA_LEVEL
}

/// Decide whether one vertex is shoreline-adjacent.
pub fn is_boundary(heights: &Vec<i64>, ring: &Vec<usize>, v: usize) -> (r: bool)
    requires
        v < heights@.len(),
        forall|k: int| 0 <= k < ring@.len() ==> #[trigger] ring@[k] < heights@.len(),
    ensures
        r == boundary_spec(heights@, ring@, v as int),
{
    if heights[v] < SEA_LEVEL {
        return true;
    }
    let mut k: usize = 0;
    while k < ring.len()
        invariant
            k <= ring@.len(),
            forall|k2: int| 0 <= k2 < ring@.len() ==> #[trigger] ring@[k2] < heights@.len(),
            forall|k2: int| 0 <= k2 < k ==> heights@[#[trigger] ring@[k2] as int] >= SEA_LEVEL,
        decreases ring@.len() - k,
    {
        if heights[ring[k]] < SEA_LEVEL {
            return true;
        }
        k += 1;
    }
    false
}

/// Shoreline flags for every vertex of the mesh.
pub fn boundary_flags(heights: &Vec<i64>, adjacent: &Vec<Vec<usize>>) -> (r: Vec<bool>)
    requires
        adjacent@.len() == heights@.len(),
        forall|v: int, k: int|
            0 <= v < adjacent@.len() && 0 <= k < adjacent@[v]@.len() ==> #[trigger] adjacent@[v]@[k]
                < heights@.len(),
    ensures
        r@.len() == heights@.len(),
        forall|v: int|
            0 <= v < heights@.len() ==> #[trigger] r@[v] == boundary_spec(
                heights@,
                adjacent@[v]@,
                v,
            ),
{
    let n = heights.len();
    let mut flags: Vec<bool> = Vec::new();
    let mut v: usize = 0;
    while v < n
        invariant
            v <= n,
            heights@.len() == n,
            adjacent@.len() == n,
            flags@.len() == v,
            forall|v2: int, k: int|
                0 <= v2 < adjacent@.len() && 0 <= k < adjacent@[v2]@.len() ==> #[trigger] adjacent@[v2]@[k]
                    < heights@.len(),
            forall|v2: int|
                0 <= v2 < v ==> #[trigger] flags@[v2] == boundary_spec(
                    heights@,
                    adjacent@[v2]@,
                    v2,
                ),
        decreases n - v,
    {
        let f = is_boundary(heights, &adjacent[v], v);
        flags.push(f);
        v += 1;
    }
    flags
}

/// Law: a vertex exactly at sea level is flagged as soon as one of its
/// neighbours lies below sea level; a vertex at or above sea level whose
/// neighbours are all at or above sea level is never flagged.
pub proof fn lemma_boundary_at_threshold(heights: Seq<i64>, ring: Seq<usize>, v: int)
    requires
        0 <= v < heights.len(),
    ensures
        (heights[v] == SEA_LEVEL && (exists|k: int|
            0 <= k < ring.len() && heights[#[trigger] ring[k] as int] < SEA_LEVEL))
            ==> boundary_spec(heights, ring, v),
        (heights[v] >= SEA_LEVEL && (forall|k: int|
            0 <= k < ring.len() ==> heights[#[trigger] ring[k] as int] >= SEA_LEVEL))
            ==> !boundary_spec(heights, ring, v),
{
}

} // verus!
