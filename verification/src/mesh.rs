//! Triangle-fan geometry and mesh buffers.
//!
//! Every vertex of the source mesh is rendered as a closed triangle fan over
//! its adjacency ring.  The fan's outer corners are not the raw ring
//! positions: each is the average of the source position and two consecutive
//! ring positions, a deliberate smoothing that pulls the rendered polygon
//! boundary inward.

use crate::palette::Rgba;
use vstd::prelude::*;

verus! {

/// A 3-D point or direction in fixed-point coordinates.
#[derive(Clone, Copy, PartialEq, Eq, Structural, Debug)]
pub struct Vec3Fx {
    pub x: i64,
    pub y: i64,
    pub z: i64,
}

/// Largest accepted magnitude of a displaced-position component
/// (ten height units).
pub const COORD_LIMIT: i64 = 10_000_000;

/// Largest accepted radial height (ten units).
pub const HEIGHT_LIMIT: i64 = 10_000_000;

pub open spec fn vec3_bounded(v: Vec3Fx, m: i64) -> bool {
    -m <= v.x <= m && -m <= v.y <= m && -m <= v.z <= m
}

/// `a * h / SCALE`, rounded toward zero (`a` may be negative, `h` may not).
pub open spec fn scale_comp_spec(a: i64, h: i64) -> int {
    if a >= 0 {
        (a * h) / (crate::fixed::SCALE as int)
    } else {
        -(((-a) * h) / (crate::fixed::SCALE as int))
    }
}

fn scale_comp(a: i64, h: i64) -> (r: i64)
    requires
        -(crate::fixed::SCALE as i64) <= a <= (crate::fixed::SCALE as i64),
        0 <= h <= HEIGHT_LIMIT,
    ensures
        r == scale_comp_spec(a, h),
        -HEIGHT_LIMIT <= r <= HEIGHT_LIMIT,
{
    proof {
        assert(a >= 0 ==> a * h <= 1_000_000 * 10_000_000) by (nonlinear_arith)
            requires 0 <= h <= 10_000_000 && a <= 1_000_000;
        assert(a < 0 ==> (-a) * h <= 1_000_000 * 10_000_000) by (nonlinear_arith)
            requires 0 <= h <= 10_000_000 && -a <= 1_000_000;
        assert(a >= 0 ==> a * h >= 0) by (nonlinear_arith)
            requires h >= 0;
        assert(a < 0 ==> (-a) * h >= 0) by (nonlinear_arith)
            requires h >= 0;
    }
    if a >= 0 {
        let p = (a as u64) * (h as u64);
        let d = p / crate::fixed::SCALE;
        d as i64
    } else {
        let p = ((-a) as u64) * (h as u64);
        let d = p / crate::fixed::SCALE;
        -(d as i64)
    }
}

/// The displaced position of a vertex: its unit direction times its radial
/// height.
pub open spec fn displaced_spec(dir: Vec3Fx, h: i64) -> Vec3Fx {
    Vec3Fx {
        x: scale_comp_spec(dir.x, h) as i64,
        y: scale_comp_spec(dir.y, h) as i64,
        z: scale_comp_spec(dir.z, h) as i64,
    }
}

pub fn displaced(dir: Vec3Fx, h: i64) -> (r: Vec3Fx)
    requires
        vec3_bounded(dir, crate::fixed::SCALE as i64),
        0 <= h <= HEIGHT_LIMIT,
    ensures
        r == displaced_spec(dir, h),
        vec3_bounded(r, COORD_LIMIT),
{
    Vec3Fx { x: scale_comp(dir.x, h), y: scale_comp(dir.y, h), z: scale_comp(dir.z, h) }
}

/// `v / 3`, rounded toward zero.
pub open spec fn div3_spec(v: int) -> int {
    if v >= 0 {
        v / 3
    } else {
        -((-v) / 3)
    }
}

fn div3(v: i64) -> (r: i64)
    requires
        -3 * COORD_LIMIT <= v <= 3 * COORD_LIMIT,
    ensures
        r == div3_spec(v as int),
        -COORD_LIMIT <= r <= COORD_LIMIT,
{
    if v >= 0 {
        let d = (v as u64) / 3;
        d as i64
    } else {
        let d = ((-v) as u64) / 3;
        -(d as i64)
    }
}

/// A smoothed fan corner: one third of the sum of the source position and
/// two consecutive ring positions.
pub open spec fn corner_spec(s: Vec3Fx, u: Vec3Fx, v: Vec3Fx) -> Vec3Fx {
    Vec3Fx {
        x: div3_spec(s.x + u.x + v.x) as i64,
        y: div3_spec(s.y + u.y + v.y) as i64,
        z: div3_spec(s.z + u.z + v.z) as i64,
    }
}

fn corner(s: Vec3Fx, u: Vec3Fx, v: Vec3Fx) -> (r: Vec3Fx)
    requires
        vec3_bounded(s, COORD_LIMIT),
        vec3_bounded(u, COORD_LIMIT),
        vec3_bounded(v, COORD_LIMIT),
    ensures
        r == corner_spec(s, u, v),
        vec3_bounded(r, COORD_LIMIT),
{
    Vec3Fx { x: div3(s.x + u.x + v.x), y: div3(s.y + u.y + v.y), z: div3(s.z + u.z + v.z) }
}

/// The `m`-th position of the fan over `ring` anchored at `src`: triangle
/// `k = m / 3` spans the source position and the two smoothed corners built
/// from ring entries `k`, `k + 1` and `k + 2` (wrapping around), so a ring
/// of length `L` yields exactly `L` triangles covering the closed polygon.
pub open spec fn fan_pos_at(src: Vec3Fx, ring: Seq<Vec3Fx>, m: int) -> Vec3Fx {
    let len = ring.len() as int;
    let k = m / 3;
    let r = m % 3;
    let b = ring[(k + 1) % len];
    if r == 0 {
        src
    } else if r == 1 {
        corner_spec(src, b, ring[k])
    } else {
        corner_spec(src, b, ring[(k + 2) % len])
    }
}

/// All `3 * ring.len()` fan positions of one vertex, in emission order.
pub open spec fn fan_positions(src: Vec3Fx, ring: Seq<Vec3Fx>) -> Seq<Vec3Fx> {
    Seq::new(3 * ring.len(), |m: int| fan_pos_at(src, ring, m))
}

/// A sequence repeating one colour: all corners of a vertex's fan carry the
/// source vertex's colour.
pub open spec fn repeat_color(c: Rgba, len: nat) -> Seq<Rgba> {
    Seq::new(len, |m: int| c)
}

/// The final mesh: parallel position and colour buffers, read in groups of
/// three as triangles.
#[derive(Debug)]
pub struct MeshBuffers {
    pub positions: Vec<Vec3Fx>,
    pub colors: Vec<Rgba>,
}

/// FanTriangulator: append the closed triangle fan of one vertex to the
/// mesh buffers, one triangle per adjacency-ring entry, every corner
/// carrying the vertex's colour.
pub fn push_fan(
    points: &mut Vec<Vec3Fx>,
    colors: &mut Vec<Rgba>,
    src: Vec3Fx,
    ring: &Vec<Vec3Fx>,
    color: Rgba,
)
    requires
        3 <= ring@.len() <= 1_000_000,
        vec3_bounded(src, COORD_LIMIT),
        forall|k: int| 0 <= k < ring@.len() ==> vec3_bounded(#[trigger] ring@[k], COORD_LIMIT),
        old(points)@.len() == old(colors)@.len(),
    ensures
        final(points)@ == old(points)@ + fan_positions(src, ring@),
        final(colors)@ == old(colors)@ + repeat_color(color, 3 * ring@.len()),
        final(points)@.len() == final(colors)@.len(),
        final(points)@.len() == old(points)@.len() + 3 * ring@.len(),
{
    let len = ring.len();
    let ghost p0 = points@;
    let ghost c0 = colors@;
    let mut k: usize = 0;
    while k < len
        invariant
            k <= len,
            len == ring@.len(),
            3 <= len <= 1_000_000,
            vec3_bounded(src, COORD_LIMIT),
            forall|k2: int| 0 <= k2 < ring@.len() ==> vec3_bounded(#[trigger] ring@[k2], COORD_LIMIT),
            points@ == p0 + fan_positions(src, ring@).subrange(0, 3 * k as int),
            colors@ == c0 + repeat_color(color, 3 * ring@.len()).subrange(0, 3 * k as int),
        decreases len - k,
    {
        let i1 = if k + 1 < len {
            k + 1
        } else {
            k + 1 - len
        };
        let i2 = if k + 2 < len {
            k + 2
        } else {
            k + 2 - len
        };
        let b = ring[i1];
        let c1 = corner(src, b, ring[k]);
        let c2 = corner(src, b, ring[i2]);
        points.push(src);
        points.push(c1);
        points.push(c2);
        colors.push(color);
        colors.push(color);
        colors.push(color);
        proof {
            let fan = fan_positions(src, ring@);
            let m0 = 3 * k as int;
            let li = len as int;
            assert(i1 as int == (k as int + 1) % li) by {
                if k + 1 < len {
                    vstd::arithmetic::div_mod::lemma_small_mod((k + 1) as nat, len as nat);
                } else {
                    vstd::arithmetic::div_mod::lemma_mod_self_0(li);
                }
            }
            assert(i2 as int == (k as int + 2) % li) by {
                if k + 2 < len {
                    vstd::arithmetic::div_mod::lemma_small_mod((k + 2) as nat, len as nat);
                } else if k + 2 == len {
                    vstd::arithmetic::div_mod::lemma_mod_self_0(li);
                } else {
                    vstd::arithmetic::div_mod::lemma_mod_multiples_vanish(1, 1, li);
                    vstd::arithmetic::div_mod::lemma_small_mod(1nat, len as nat);
                    assert(li * 1 + 1 == li + 1);
                }
            }
            assert(m0 / 3 == k as int && m0 % 3 == 0);
            assert((m0 + 1) / 3 == k as int && (m0 + 1) % 3 == 1);
            assert((m0 + 2) / 3 == k as int && (m0 + 2) % 3 == 2);
            assert(fan[m0] == src);
            assert(fan[m0 + 1] == c1);
            assert(fan[m0 + 2] == c2);
            assert(points@ =~= p0 + fan.subrange(0, 3 * (k + 1) as int));
            assert(colors@ =~= c0 + repeat_color(color, 3 * ring@.len()).subrange(
                0,
                3 * (k + 1) as int,
            ));
        }
        k += 1;
    }
    proof {
        assert(fan_positions(src, ring@).subrange(0, 3 * len as int) =~= fan_positions(
            src,
            ring@,
        ));
        assert(repeat_color(color, 3 * ring@.len()).subrange(0, 3 * len as int) =~= repeat_color(
            color,
            3 * ring@.len(),
        ));
    }
}

} // verus!
