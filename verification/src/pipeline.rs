//! The full terrain-synthesis pipeline.
//!
//! One call turns per-vertex unit directions, radial heights, wetness
//! values and adjacency rings into parallel position and colour buffers:
//! ranks are computed for wetness (over all vertices) and height (over land
//! vertices only), shoreline-adjacent vertices are flagged, every vertex is
//! classified and jittered, and each vertex's smoothed triangle fan is
//! appended to the buffers in vertex order.

use crate::boundary::{boundary_flags, boundary_spec, SEA_LEVEL};
use crate::field::{
    get_sorted_idx, include_all, include_at_least, lemma_included_indices, lemma_rank_nums_unique,
    rank_den_spec, rank_num_spec,
};
use crate::fixed::SCALE;
use crate::jitter::{jitter_stream, jitter_wf};
use crate::mesh::{
    displaced, displaced_spec, fan_positions, push_fan, repeat_color, vec3_bounded, MeshBuffers,
    Vec3Fx, COORD_LIMIT, HEIGHT_LIMIT,
};
use crate::palette::{
    apply_jitter, classify_spec, color_to_rgba, jitter_color_spec, palette_wf, rank_wf,
    to_rgba_spec, Palette, Rank, Rgba,
};
use vstd::prelude::*;

verus! {

/// Largest accepted vertex count, so rank denominators and every
/// intermediate product stay within 64 bits.
pub const MAX_VERTICES: usize = 1_000_000;

/// Why mesh assembly failed.
#[derive(Clone, Copy, PartialEq, Eq, Structural, Debug)]
pub enum MeshError {
    /// The assembled buffers would be empty (no vertices); the downstream
    /// mesh builder refuses empty buffers, so the failure is reported here.
    EmptyMesh,
}

/// The per-vertex adjacency rings as plain sequences.
pub open spec fn ring_views(adjacent: Seq<Vec<usize>>) -> Seq<Seq<usize>> {
    Seq::new(adjacent.len(), |v: int| adjacent[v]@)
}

/// Well-formed pipeline inputs: one entry of each field per vertex, rings
/// of at least three in-range neighbours each, unit directions, and
/// non-negative bounded heights.
pub open spec fn inputs_wf(
    positions: Seq<Vec3Fx>,
    heights: Seq<i64>,
    wetness: Seq<i64>,
    rings: Seq<Seq<usize>>,
) -> bool {
    let n = heights.len();
    &&& positions.len() == n
    &&& wetness.len() == n
    &&& rings.len() == n
    &&& n <= MAX_VERTICES
    &&& forall|v: int| 0 <= v < n ==> 3 <= #[trigger] rings[v].len() <= MAX_VERTICES
    &&& forall|v: int, k: int|
        0 <= v < n && 0 <= k < rings[v].len() ==> #[trigger] rings[v][k] < n
    &&& forall|v: int| 0 <= v < n ==> 0 <= #[trigger] heights[v] <= HEIGHT_LIMIT
    &&& forall|v: int| 0 <= v < n ==> vec3_bounded(#[trigger] positions[v], SCALE as i64)
}

/// Inclusion flags of the wetness ranking: every vertex.
pub open spec fn all_incl(n: nat) -> Seq<bool> {
    Seq::new(n, |i: int| true)
}

/// Inclusion flags of the land-height ranking: only vertices at or above
/// sea level, so land elevation bands ignore the sea floor.
pub open spec fn land_incl(heights: Seq<i64>) -> Seq<bool> {
    Seq::new(heights.len(), |i: int| heights[i] >= SEA_LEVEL)
}

/// The rank of vertex `v` in field `f` under `incl`, as an exact rational.
pub open spec fn vertex_rank(f: Seq<i64>, incl: Seq<bool>, v: int) -> Rank {
    Rank { num: rank_num_spec(f, incl, v) as u64, den: rank_den_spec(incl) as u64 }
}

/// The classified, jittered 8-bit colour of vertex `v`.
pub open spec fn vertex_color_spec(
    heights: Seq<i64>,
    wetness: Seq<i64>,
    rings: Seq<Seq<usize>>,
    palette: Palette,
    jitter: Seq<u64>,
    v: int,
) -> Rgba {
    let flag = boundary_spec(heights, rings[v], v);
    let w = vertex_rank(wetness, all_incl(heights.len()), v);
    let h = vertex_rank(heights, land_incl(heights), v);
    let c = classify_spec(palette, w, h, heights[v], flag);
    to_rgba_spec(jitter_color_spec(c, jitter[v]))
}

/// The displaced positions of one vertex's adjacency ring.
pub open spec fn ring_positions(
    positions: Seq<Vec3Fx>,
    heights: Seq<i64>,
    ring: Seq<usize>,
) -> Seq<Vec3Fx> {
    Seq::new(
        ring.len(),
        |k: int| displaced_spec(positions[ring[k] as int], heights[ring[k] as int]),
    )
}

/// MeshAssembler: the position buffer of the first `v` vertices' fans,
/// concatenated in vertex order.
pub open spec fn mesh_positions_upto(
    positions: Seq<Vec3Fx>,
    heights: Seq<i64>,
    rings: Seq<Seq<usize>>,
    v: int,
) -> Seq<Vec3Fx>
    decreases v,
{
    if v <= 0 {
        Seq::empty()
    } else {
        mesh_positions_upto(positions, heights, rings, v - 1) + fan_positions(
            displaced_spec(positions[v - 1], heights[v - 1]),
            ring_positions(positions, heights, rings[v - 1]),
        )
    }
}

/// MeshAssembler: the colour buffer of the first `v` vertices' fans.
pub open spec fn mesh_colors_upto(
    heights: Seq<i64>,
    wetness: Seq<i64>,
    rings: Seq<Seq<usize>>,
    palette: Palette,
    jitter: Seq<u64>,
    v: int,
) -> Seq<Rgba>
    decreases v,
{
    if v <= 0 {
        Seq::empty()
    } else {
        mesh_colors_upto(heights, wetness, rings, palette, jitter, v - 1) + repeat_color(
            vertex_color_spec(heights, wetness, rings, palette, jitter, v - 1),
            3 * rings[v - 1].len(),
        )
    }
}

/// The whole position buffer.
pub open spec fn mesh_positions_spec(
    positions: Seq<Vec3Fx>,
    heights: Seq<i64>,
    rings: Seq<Seq<usize>>,
) -> Seq<Vec3Fx> {
    mesh_positions_upto(positions, heights, rings, heights.len() as int)
}

/// The whole colour buffer.
pub open spec fn mesh_colors_spec(
    heights: Seq<i64>,
    wetness: Seq<i64>,
    rings: Seq<Seq<usize>>,
    palette: Palette,
    jitter: Seq<u64>,
) -> Seq<Rgba> {
    mesh_colors_upto(heights, wetness, rings, palette, jitter, heights.len() as int)
}

/// Sum of the adjacency-ring lengths of the first `v` vertices.
pub open spec fn ring_len_sum(rings: Seq<Seq<usize>>, v: int) -> int
    decreases v,
{
    if v <= 0 {
        0
    } else {
        ring_len_sum(rings, v - 1) + rings[v - 1].len()
    }
}

/// Law: one triangle per adjacency-ring entry.  The assembled buffers hold
/// three entries per triangle, so their length is exactly three times the
/// sum of all ring lengths.
pub proof fn lemma_mesh_triangle_count(
    positions: Seq<Vec3Fx>,
    heights: Seq<i64>,
    wetness: Seq<i64>,
    rings: Seq<Seq<usize>>,
    palette: Palette,
    jitter: Seq<u64>,
    v: int,
)
    ensures
        mesh_positions_upto(positions, heights, rings, v).len() == 3 * ring_len_sum(rings, v),
        mesh_colors_upto(heights, wetness, rings, palette, jitter, v).len() == 3 * ring_len_sum(
            rings,
            v,
        ),
    decreases v,
{
    if v > 0 {
        lemma_mesh_triangle_count(positions, heights, wetness, rings, palette, jitter, v - 1);
    }
}

/// Law: the pipeline is a mathematical function of its inputs.  Two runs
/// over equal fields, rings, palette and jitter stream describe the same
/// buffers, so reruns with the same seed reproduce the output exactly.
pub proof fn lemma_pipeline_deterministic(
    positions: Seq<Vec3Fx>,
    heights: Seq<i64>,
    wetness: Seq<i64>,
    rings: Seq<Seq<usize>>,
    palette: Palette,
    jitter1: Seq<u64>,
    jitter2: Seq<u64>,
)
    requires
        jitter1 == jitter2,
    ensures
        mesh_positions_spec(positions, heights, rings) == mesh_positions_spec(
            positions,
            heights,
            rings,
        ),
        mesh_colors_spec(heights, wetness, rings, palette, jitter1) == mesh_colors_spec(
            heights,
            wetness,
            rings,
            palette,
            jitter2,
        ),
{
}

/// Synthesize the land mesh from explicit inputs, the jitter stream
/// included: the verified core of the pipeline.  Fails exactly when the
/// mesh would be empty (no vertices).
#[verifier::loop_isolation(false)]
pub fn synthesize_mesh(
    positions: &Vec<Vec3Fx>,
    heights: &Vec<i64>,
    wetness: &Vec<i64>,
    adjacent: &Vec<Vec<usize>>,
    palette: &Palette,
    jitter: &Vec<u64>,
) -> (r: Result<MeshBuffers, MeshError>)
    requires
        inputs_wf(positions@, heights@, wetness@, ring_views(adjacent@)),
        palette_wf(*palette),
        jitter_wf(jitter@, heights@.len()),
    ensures
        match r {
            Ok(m) => heights@.len() > 0 && m.positions@ == mesh_positions_spec(
                positions@,
                heights@,
                ring_views(adjacent@),
            ) && m.colors@ == mesh_colors_spec(
                heights@,
                wetness@,
                ring_views(adjacent@),
                *palette,
                jitter@,
            ) && m.positions@.len() == m.colors@.len(),
            Err(e) => heights@.len() == 0 && e == MeshError::EmptyMesh,
        },
{
    let n = heights.len();
    let ghost rings = ring_views(adjacent@);
    if n == 0 {
        return Err(MeshError::EmptyMesh);
    }

    // FieldNormalizer: wetness over all vertices, height over land only.
    let all = include_all(n);
    let land = include_at_least(heights, SEA_LEVEL);
    proof {
        assert(all@ =~= all_incl(n as nat));
        assert(land@ =~= land_incl(heights@));
    }
    let wet_ranks = get_sorted_idx(wetness, &all);
    let height_ranks = get_sorted_idx(heights, &land);
    proof {
        lemma_rank_nums_unique(wetness@, all@, wet_ranks.nums@, wet_ranks.den as nat);
        lemma_rank_nums_unique(heights@, land@, height_ranks.nums@, height_ranks.den as nat);
        lemma_included_indices(all@);
        lemma_included_indices(land@);
    }

    // Displaced positions, shared by all fans.
    let mut scaled: Vec<Vec3Fx> = Vec::new();
    let mut v: usize = 0;
    while v < n
        invariant
            v <= n,
            scaled@.len() == v,
            forall|w: int|
                0 <= w < v ==> #[trigger] scaled@[w] == displaced_spec(positions@[w], heights@[w]),
            forall|w: int| 0 <= w < v ==> vec3_bounded(#[trigger] scaled@[w], COORD_LIMIT),
        decreases n - v,
    {
        scaled.push(displaced(positions[v], heights[v]));
        v += 1;
    }

    // BoundaryDetector.
    proof {
        assert forall|v2: int, k: int|
            0 <= v2 < adjacent@.len() && 0 <= k < adjacent@[v2]@.len() implies #[trigger] adjacent@[v2]@[k]
            < heights@.len() by {
            assert(rings[v2] == adjacent@[v2]@);
        }
    }
    let flags = boundary_flags(heights, adjacent);

    // Per-vertex classification and fan triangulation, in vertex order.
    let mut points: Vec<Vec3Fx> = Vec::new();
    let mut colors: Vec<Rgba> = Vec::new();
    let mut v: usize = 0;
    while v < n
        invariant
            v <= n,
            points@ == mesh_positions_upto(positions@, heights@, rings, v as int),
            colors@ == mesh_colors_upto(heights@, wetness@, rings, *palette, jitter@, v as int),
            points@.len() == colors@.len(),
        decreases n - v,
    {
        let ring = &adjacent[v];
        let mut ring_pos: Vec<Vec3Fx> = Vec::new();
        let mut k: usize = 0;
        while k < ring.len()
            invariant
                k <= ring@.len(),
                ring@ == adjacent@[v as int]@,
                v < n,
                ring_pos@.len() == k,
                forall|k2: int|
                    0 <= k2 < k ==> #[trigger] ring_pos@[k2] == displaced_spec(
                        positions@[ring@[k2] as int],
                        heights@[ring@[k2] as int],
                    ),
                forall|k2: int| 0 <= k2 < k ==> vec3_bounded(#[trigger] ring_pos@[k2], COORD_LIMIT),
            decreases ring@.len() - k,
        {
            proof {
                assert(rings[v as int] == adjacent@[v as int]@);
                assert(ring@[k as int] < n);
            }
            ring_pos.push(scaled[ring[k]]);
            k += 1;
        }
        proof {
            assert(ring_pos@ =~= ring_positions(positions@, heights@, rings[v as int]));
        }

        let wrank = Rank { num: wet_ranks.nums[v] as u64, den: wet_ranks.den as u64 };
        let hrank = Rank { num: height_ranks.nums[v] as u64, den: height_ranks.den as u64 };
        proof {
            assert(wrank == vertex_rank(wetness@, all_incl(n as nat), v as int));
            assert(hrank == vertex_rank(heights@, land_incl(heights@), v as int));
            assert(rank_wf(wrank));
            assert(rank_wf(hrank));
        }
        let c = palette.get(wrank, heights[v], hrank, flags[v]);
        let cj = apply_jitter(c, jitter[v]);
        let rgba = color_to_rgba(cj);
        proof {
            assert(rgba == vertex_color_spec(
                heights@,
                wetness@,
                rings,
                *palette,
                jitter@,
                v as int,
            ));
        }

        push_fan(&mut points, &mut colors, scaled[v], &ring_pos, rgba);
        v += 1;
    }

    Ok(MeshBuffers { positions: points, colors })
}

/// Create the land mesh as the application does: the jitter stream is drawn
/// from rand's standard generator under the fixed all-zero seed, then the
/// verified pipeline runs on it.  The buffers follow the pipeline's exact
/// description for some jitter stream within the fixed band.
pub fn create_land_mesh(
    positions: &Vec<Vec3Fx>,
    heights: &Vec<i64>,
    wetness: &Vec<i64>,
    adjacent: &Vec<Vec<usize>>,
    palette: &Palette,
) -> (r: Result<MeshBuffers, MeshError>)
    requires
        inputs_wf(positions@, heights@, wetness@, ring_views(adjacent@)),
        palette_wf(*palette),
    ensures
        match r {
            Ok(m) => heights@.len() > 0 && m.positions@ == mesh_positions_spec(
                positions@,
                heights@,
                ring_views(adjacent@),
            ) && exists|jit: Seq<u64>|
                #[trigger] jitter_wf(jit, heights@.len()) && m.colors@ == mesh_colors_spec(
                    heights@,
                    wetness@,
                    ring_views(adjacent@),
                    *palette,
                    jit,
                ),
            Err(e) => heights@.len() == 0 && e == MeshError::EmptyMesh,
        },
{
    let jitter = jitter_stream(heights.len());
    let r = synthesize_mesh(positions, heights, wetness, adjacent, palette, &jitter);
    proof {
        if r is Ok {
            assert(jitter_wf(jitter@, heights@.len()));
        }
    }
    r
}

} // verus!
