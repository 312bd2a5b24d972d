//! The biome palette and colour classification.
//!
//! A vertex's colour comes from a fixed 4-row by 6-column grid of named
//! biome colours, bilinearly sampled at a continuous (wetness, height)
//! coordinate derived from the vertex's rank-normalized wetness and land
//! height.  Shoreline-adjacent vertices instead blend between a fixed
//! shoreline colour and a fixed rock colour by a smooth weight of the raw
//! height across a narrow band around sea level.

use crate::fixed::{
    lemma_lerp_at_one, lemma_lerp_at_zero, lerp, lerp_spec, smoothstep, smoothstep_spec, SCALAR_LIMIT,
    SCALE,
};
use vstd::prelude::*;

verus! {

/// An RGB colour with fixed-point channels in `[0, SCALE]`.
#[derive(Clone, Copy, PartialEq, Eq, Structural, Debug)]
pub struct Color {
    pub r: u64,
    pub g: u64,
    pub b: u64,
}

pub open spec fn color_wf(c: Color) -> bool {
    c.r <= SCALE && c.g <= SCALE && c.b <= SCALE
}

/// An exact rational rank in `[0, 1]`: the value `num / den`.
#[derive(Clone, Copy, PartialEq, Eq, Structural, Debug)]
pub struct Rank {
    pub num: u64,
    pub den: u64,
}

/// Largest accepted rank denominator, so that squared denominators and the
/// products inside the bilinear interpolation fit in 64 bits.
pub const RANK_DEN_LIMIT: u64 = 1_000_000;

pub open spec fn rank_wf(r: Rank) -> bool {
    1 <= r.den <= RANK_DEN_LIMIT && r.num <= r.den
}

/// The hand-authored biome palette: 13 named colours, arranged by
/// `cell_spec` into the 4 by 6 biome grid (several cells intentionally
/// alias one named colour).
#[derive(Clone, Copy, Debug)]
pub struct Palette {
    pub snow: Color,
    pub tundra: Color,
    pub bare: Color,
    pub scorched: Color,
    pub taiga: Color,
    pub shrubland: Color,
    pub temperate_desert: Color,
    pub temperate_rainforest: Color,
    pub temperate_deciduous_forest: Color,
    pub grassland: Color,
    pub tropical_rainforest: Color,
    pub tropical_seasonal_forest: Color,
    pub subtropical_desert: Color,
}

pub open spec fn palette_wf(p: Palette) -> bool {
    &&& color_wf(p.snow)
    &&& color_wf(p.tundra)
    &&& color_wf(p.bare)
    &&& color_wf(p.scorched)
    &&& color_wf(p.taiga)
    &&& color_wf(p.shrubland)
    &&& color_wf(p.temperate_desert)
    &&& color_wf(p.temperate_rainforest)
    &&& color_wf(p.temperate_deciduous_forest)
    &&& color_wf(p.grassland)
    &&& color_wf(p.tropical_rainforest)
    &&& color_wf(p.tropical_seasonal_forest)
    &&& color_wf(p.subtropical_desert)
}

impl Default for Palette {
    /// An all-black palette; the application supplies the authored colours.
    fn default() -> (p: Palette)
        ensures
            p == (Palette {
                snow: Color { r: 0, g: 0, b: 0 },
                tundra: Color { r: 0, g: 0, b: 0 },
                bare: Color { r: 0, g: 0, b: 0 },
                scorched: Color { r: 0, g: 0, b: 0 },
                taiga: Color { r: 0, g: 0, b: 0 },
                shrubland: Color { r: 0, g: 0, b: 0 },
                temperate_desert: Color { r: 0, g: 0, b: 0 },
                temperate_rainforest: Color { r: 0, g: 0, b: 0 },
                temperate_deciduous_forest: Color { r: 0, g: 0, b: 0 },
                grassland: Color { r: 0, g: 0, b: 0 },
                tropical_rainforest: Color { r: 0, g: 0, b: 0 },
                tropical_seasonal_forest: Color { r: 0, g: 0, b: 0 },
                subtropical_desert: Color { r: 0, g: 0, b: 0 },
            }),
            palette_wf(p),
    {
        let black = Color { r: 0, g: 0, b: 0 };
        Palette {
            snow: black,
            tundra: black,
            bare: black,
            scorched: black,
            taiga: black,
            shrubland: black,
            temperate_desert: black,
            temperate_rainforest: black,
            temperate_deciduous_forest: black,
            grassland: black,
            tropical_rainforest: black,
            tropical_seasonal_forest: black,
            subtropical_desert: black,
        }
    }
}

/// The biome grid cell at height band `row` (0 low .. 3 high) and wetness
/// band `col` (0 dry .. 5 wet).
pub open spec fn cell_spec(p: Palette, row: int, col: int) -> Color {
    if row == 0 {
        if col == 0 {
            p.subtropical_desert
        } else if col == 1 {
            p.grassland
        } else if col == 2 || col == 3 {
            p.tropical_seasonal_forest
        } else {
            p.tropical_rainforest
        }
    } else if row == 1 {
        if col == 0 {
            p.temperate_desert
        } else if col == 1 || col == 2 {
            p.grassland
        } else if col == 3 || col == 4 {
            p.temperate_deciduous_forest
        } else {
            p.temperate_rainforest
        }
    } else if row == 2 {
        if col == 0 || col == 1 {
            p.temperate_desert
        } else if col == 2 || col == 3 {
            p.shrubland
        } else {
            p.taiga
        }
    } else {
        if col == 0 {
            p.scorched
        } else if col == 1 {
            p.bare
        } else if col == 2 {
            p.tundra
        } else {
            p.snow
        }
    }
}

/// Channel-wise linear interpolation between two colours.
pub open spec fn lerp_color_spec(a: Color, b: Color, p: int, q: int) -> Color {
    Color {
        r: lerp_spec(a.r as int, b.r as int, p, q) as u64,
        g: lerp_spec(a.g as int, b.g as int, p, q) as u64,
        b: lerp_spec(a.b as int, b.b as int, p, q) as u64,
    }
}

pub fn lerp_color(a: Color, b: Color, p: u64, q: u64) -> (c: Color)
    requires
        color_wf(a),
        color_wf(b),
        1 <= q <= 1_000_000_000_000,
        p <= q,
    ensures
        c == lerp_color_spec(a, b, p as int, q as int),
        color_wf(c),
{
    Color { r: lerp(a.r, b.r, p, q), g: lerp(a.g, b.g, p, q), b: lerp(a.b, b.b, p, q) }
}

/// The bilinear grid sample: interpolate the four surrounding cells, first
/// along the wetness axis with weight `wp / wq`, then along the height axis
/// with weight `hp / hq`.
pub open spec fn bilinear_spec(
    p: Palette,
    lh: int,
    uh: int,
    hp: int,
    hq: int,
    lw: int,
    uw: int,
    wp: int,
    wq: int,
) -> Color {
    let top = lerp_color_spec(cell_spec(p, uh, lw), cell_spec(p, uh, uw), wp, wq);
    let bottom = lerp_color_spec(cell_spec(p, lh, lw), cell_spec(p, lh, uw), wp, wq);
    lerp_color_spec(bottom, top, hp, hq)
}

/// Continuous wetness coordinate `6 w` over the columns: floor band.
pub open spec fn wet_lower(w: Rank) -> int {
    let c = 6 * w.num / (w.den as int);
    if c > 5 {
        5
    } else {
        c as int
    }
}

/// Continuous wetness coordinate `6 w` over the columns: ceiling band.
pub open spec fn wet_upper(w: Rank) -> int {
    let c = (6 * w.num + w.den - 1) / (w.den as int);
    if c > 5 {
        5
    } else {
        c as int
    }
}

/// Fractional part of the wetness coordinate, as a numerator over `w.den`.
pub open spec fn wet_frac(w: Rank) -> int {
    (6 * w.num) % (w.den as int)
}

/// Continuous height coordinate `4 h^2` over the rows: floor band.  The
/// squaring deliberately compresses low ranks toward the low bands.
pub open spec fn height_lower(h: Rank) -> int {
    let c = 4 * h.num * h.num / (h.den * h.den);
    if c > 3 {
        3
    } else {
        c as int
    }
}

/// Continuous height coordinate `4 h^2` over the rows: ceiling band.
pub open spec fn height_upper(h: Rank) -> int {
    let c = (4 * h.num * h.num + h.den * h.den - 1) / (h.den * h.den);
    if c > 3 {
        3
    } else {
        c as int
    }
}

/// Fractional part of the height coordinate, over `h.den * h.den`.
pub open spec fn height_frac(h: Rank) -> int {
    (4 * h.num * h.num) % (h.den * h.den)
}

/// The non-shoreline colour: the bilinear grid sample at the (wetness,
/// height) coordinate of the vertex's ranks.
pub open spec fn grid_color_spec(p: Palette, w: Rank, h: Rank) -> Color {
    bilinear_spec(
        p,
        height_lower(h),
        height_upper(h),
        height_frac(h),
        h.den * h.den,
        wet_lower(w),
        wet_upper(w),
        wet_frac(w),
        w.den as int,
    )
}

/// Lower edge of the shoreline blend band, just below sea level.
pub const SHORE_LOW: i64 = 980_000;

/// Upper edge of the shoreline blend band, just above sea level.
pub const SHORE_HIGH: i64 = 1_010_000;

/// The fixed shoreline colour (a salmon tone).
pub open spec fn shoreline_color_spec() -> Color {
    Color { r: 980_392, g: 501_960, b: 447_058 }
}

pub fn shoreline_color() -> (c: Color)
    ensures
        c == shoreline_color_spec(),
        color_wf(c),
{
    Color { r: 980_392, g: 501_960, b: 447_058 }
}

/// The fixed rock colour shown where the shoreline weight vanishes
/// (a dark gray).
pub open spec fn rock_color_spec() -> Color {
    Color { r: 662_745, g: 662_745, b: 662_745 }
}

pub fn rock_color() -> (c: Color)
    ensures
        c == rock_color_spec(),
        color_wf(c),
{
    Color { r: 662_745, g: 662_745, b: 662_745 }
}

/// The shoreline colour: blend from rock to shoreline colour by the smooth
/// weight of the raw height across the band around sea level.
pub open spec fn shore_color_spec(height: i64) -> Color {
    lerp_color_spec(
        rock_color_spec(),
        shoreline_color_spec(),
        smoothstep_spec(height, SHORE_LOW, SHORE_HIGH),
        SCALE as int,
    )
}

/// The classified colour of a vertex.
pub open spec fn classify_spec(p: Palette, w: Rank, h: Rank, height: i64, shoreline: bool) -> Color {
    if shoreline {
        shore_color_spec(height)
    } else {
        grid_color_spec(p, w, h)
    }
}

impl Palette {
    /// Look up one grid cell.
    pub fn cell(&self, row: usize, col: usize) -> (c: Color)
        requires
            row <= 3,
            col <= 5,
        ensures
            c == cell_spec(*self, row as int, col as int),
    {
        if row == 0 {
            if col == 0 {
                self.subtropical_desert
            } else if col == 1 {
                self.grassland
            } else if col == 2 || col == 3 {
                self.tropical_seasonal_forest
            } else {
                self.tropical_rainforest
            }
        } else if row == 1 {
            if col == 0 {
                self.temperate_desert
            } else if col == 1 || col == 2 {
                self.grassland
            } else if col == 3 || col == 4 {
                self.temperate_deciduous_forest
            } else {
                self.temperate_rainforest
            }
        } else if row == 2 {
            if col == 0 || col == 1 {
                self.temperate_desert
            } else if col == 2 || col == 3 {
                self.shrubland
            } else {
                self.taiga
            }
        } else {
            if col == 0 {
                self.scorched
            } else if col == 1 {
                self.bare
            } else if col == 2 {
                self.tundra
            } else {
                self.snow
            }
        }
    }

    /// BiomeClassifier: the colour of a vertex with the given wetness rank,
    /// raw height, land-height rank and shoreline flag.  A flagged vertex
    /// takes the shoreline blend; any other vertex takes the bilinear grid
    /// sample.
    pub fn get(&self, wetness: Rank, height: i64, height_rank: Rank, neighbouring: bool) -> (c:
        Color)
        requires
            palette_wf(*self),
            rank_wf(wetness),
            rank_wf(height_rank),
            -SCALAR_LIMIT <= height <= SCALAR_LIMIT,
        ensures
            c == classify_spec(*self, wetness, height_rank, height, neighbouring),
            color_wf(c),
    {
        if neighbouring {
            let weight = smoothstep(height, SHORE_LOW, SHORE_HIGH);
            lerp_color(rock_color(), shoreline_color(), weight, SCALE)
        } else {
            let q = wetness.den;
            let wc = 6 * wetness.num;
            let lw_raw = wc / q;
            let lw: usize = if lw_raw > 5 {
                5
            } else {
                lw_raw as usize
            };
            let uw_raw = (wc + q - 1) / q;
            let uw: usize = if uw_raw > 5 {
                5
            } else {
                uw_raw as usize
            };
            let wp = wc % q;
            proof {
                assert(4 * height_rank.num * height_rank.num <= 4 * 1_000_000 * 1_000_000)
                    by (nonlinear_arith)
                    requires height_rank.num <= 1_000_000;
                assert(height_rank.den * height_rank.den <= 1_000_000 * 1_000_000)
                    by (nonlinear_arith)
                    requires height_rank.den <= 1_000_000;
                assert(height_rank.den * height_rank.den >= 1) by (nonlinear_arith)
                    requires height_rank.den >= 1;
            }
            let hq = height_rank.den * height_rank.den;
            let hc = 4 * height_rank.num * height_rank.num;
            let lh_raw = hc / hq;
            let lh: usize = if lh_raw > 3 {
                3
            } else {
                lh_raw as usize
            };
            let uh_raw = (hc + hq - 1) / hq;
            let uh: usize = if uh_raw > 3 {
                3
            } else {
                uh_raw as usize
            };
            let hp = hc % hq;
            let top = lerp_color(self.cell(uh, lw), self.cell(uh, uw), wp, q);
            let bottom = lerp_color(self.cell(lh, lw), self.cell(lh, uw), wp, q);
            lerp_color(bottom, top, hp, hq)
        }
    }
}

/// Interpolating colours with weight zero returns the left colour exactly.
pub proof fn lemma_lerp_color_at_zero(a: Color, b: Color, q: int)
    requires
        q >= 1,
    ensures
        lerp_color_spec(a, b, 0, q) == a,
{
    lemma_lerp_at_zero(a.r as int, b.r as int, q);
    lemma_lerp_at_zero(a.g as int, b.g as int, q);
    lemma_lerp_at_zero(a.b as int, b.b as int, q);
}

/// Interpolating colours with weight one returns the right colour exactly.
pub proof fn lemma_lerp_color_at_one(a: Color, b: Color, q: int)
    requires
        q >= 1,
    ensures
        lerp_color_spec(a, b, q, q) == b,
{
    lemma_lerp_at_one(a.r as int, b.r as int, q);
    lemma_lerp_at_one(a.g as int, b.g as int, q);
    lemma_lerp_at_one(a.b as int, b.b as int, q);
}

/// Law: the grid sample is continuous across a wetness grid line.  The
/// bilinear formula of the cell left of line `c`, taken at its largest
/// interpolation weight, agrees exactly with the formula computed on the
/// line (both collapse to the column-`c` cells), so approaching the line
/// from either side meets the same colour.
pub proof fn lemma_wet_line_continuity(
    p: Palette,
    lh: int,
    uh: int,
    hp: int,
    hq: int,
    c: int,
    q: int,
)
    requires
        hq >= 1,
        q >= 1,
        1 <= c <= 5,
    ensures
        bilinear_spec(p, lh, uh, hp, hq, c - 1, c, q, q) == bilinear_spec(
            p,
            lh,
            uh,
            hp,
            hq,
            c,
            c,
            0,
            q,
        ),
{
    lemma_lerp_color_at_one(cell_spec(p, uh, c - 1), cell_spec(p, uh, c), q);
    lemma_lerp_color_at_one(cell_spec(p, lh, c - 1), cell_spec(p, lh, c), q);
    lemma_lerp_color_at_zero(cell_spec(p, uh, c), cell_spec(p, uh, c), q);
    lemma_lerp_color_at_zero(cell_spec(p, lh, c), cell_spec(p, lh, c), q);
}

/// Law: the grid sample is continuous across a height grid line, in the
/// same sense as `lemma_wet_line_continuity`.
pub proof fn lemma_height_line_continuity(
    p: Palette,
    c: int,
    lw: int,
    uw: int,
    wp: int,
    wq: int,
    hq: int,
)
    requires
        hq >= 1,
        wq >= 1,
        1 <= c <= 3,
    ensures
        bilinear_spec(p, c - 1, c, hq, hq, lw, uw, wp, wq) == bilinear_spec(
            p,
            c,
            c,
            0,
            hq,
            lw,
            uw,
            wp,
            wq,
        ),
{
    let top = lerp_color_spec(cell_spec(p, c, lw), cell_spec(p, c, uw), wp, wq);
    let bottom = lerp_color_spec(cell_spec(p, c - 1, lw), cell_spec(p, c - 1, uw), wp, wq);
    lemma_lerp_color_at_one(bottom, top, hq);
    lemma_lerp_color_at_zero(top, top, hq);
}

/// An 8-bit RGBA colour, as handed to the renderer.
#[derive(Clone, Copy, PartialEq, Eq, Structural, Debug)]
pub struct Rgba {
    pub r: u8,
    pub g: u8,
    pub b: u8,
    pub a: u8,
}

/// ColourJitter: darken a colour by the multiplicative factor `jit / SCALE`.
pub open spec fn jitter_color_spec(c: Color, jit: u64) -> Color {
    Color {
        r: (c.r * jit / (SCALE as int)) as u64,
        g: (c.g * jit / (SCALE as int)) as u64,
        b: (c.b * jit / (SCALE as int)) as u64,
    }
}

pub fn apply_jitter(c: Color, jit: u64) -> (r: Color)
    requires
        color_wf(c),
        jit <= SCALE,
    ensures
        r == jitter_color_spec(c, jit),
        color_wf(r),
{
    proof {
        assert(c.r * jit <= 1_000_000 * 1_000_000) by (nonlinear_arith)
            requires c.r <= 1_000_000 && jit <= 1_000_000;
        assert(c.g * jit <= 1_000_000 * 1_000_000) by (nonlinear_arith)
            requires c.g <= 1_000_000 && jit <= 1_000_000;
        assert(c.b * jit <= 1_000_000 * 1_000_000) by (nonlinear_arith)
            requires c.b <= 1_000_000 && jit <= 1_000_000;
    }
    Color { r: c.r * jit / SCALE, g: c.g * jit / SCALE, b: c.b * jit / SCALE }
}

/// A fixed-point colour scaled to 8-bit channels, with full opacity.
pub open spec fn to_rgba_spec(c: Color) -> Rgba {
    Rgba {
        r: (c.r * 255 / (SCALE as int)) as u8,
        g: (c.g * 255 / (SCALE as int)) as u8,
        b: (c.b * 255 / (SCALE as int)) as u8,
        a: 255,
    }
}

pub fn color_to_rgba(c: Color) -> (r: Rgba)
    requires
        color_wf(c),
    ensures
        r == to_rgba_spec(c),
{
    Rgba { r: (c.r * 255 / SCALE) as u8, g: (c.g * 255 / SCALE) as u8, b: (c.b * 255 / SCALE) as u8, a: 255 }
}

/// A rank sitting exactly on the wetness grid line `c` (that is,
/// `6 num == c den`) selects column `c` as both band ends with a zero
/// fraction, so `lemma_wet_line_continuity` speaks about exactly what the
/// classifier computes on the line.
pub proof fn lemma_rank_on_wet_line(w: Rank, c: int)
    requires
        rank_wf(w),
        0 <= c <= 5,
        6 * w.num == c * w.den,
    ensures
        wet_lower(w) == c,
        wet_upper(w) == c,
        wet_frac(w) == 0,
{
    let q = w.den as int;
    assert((c * q) / q == c) by (nonlinear_arith)
        requires q >= 1;
    assert((c * q) % q == 0) by (nonlinear_arith)
        requires q >= 1;
    assert((c * q + q - 1) / q == c) by (nonlinear_arith)
        requires q >= 1;
}

/// The height-axis counterpart of `lemma_rank_on_wet_line`: a rank whose
/// squared coordinate sits exactly on the height grid line `c` selects row
/// `c` as both band ends with a zero fraction.
pub proof fn lemma_rank_on_height_line(h: Rank, c: int)
    requires
        rank_wf(h),
        0 <= c <= 3,
        4 * h.num * h.num == c * (h.den * h.den),
    ensures
        height_lower(h) == c,
        height_upper(h) == c,
        height_frac(h) == 0,
{
    assert(h.den * h.den >= 1) by (nonlinear_arith)
        requires h.den >= 1;
    let q = h.den * h.den;
    assert((c * q) / q == c) by (nonlinear_arith)
        requires q >= 1;
    assert((c * q) % q == 0) by (nonlinear_arith)
        requires q >= 1;
    assert((c * q + q - 1) / q == c) by (nonlinear_arith)
        requires q >= 1;
}

/// Law: the classifier is continuous at a wetness grid line.  For a rank
/// sitting exactly on line `c`, the classified grid colour equals the
/// left-hand cell's bilinear formula taken at its extreme weight — the
/// value that formula tends to as the coordinate approaches the line from
/// below — so no jump occurs across the line.
pub proof fn lemma_classifier_continuous_at_wet_line(p: Palette, w: Rank, h: Rank, c: int)
    requires
        rank_wf(w),
        rank_wf(h),
        1 <= c <= 5,
        6 * w.num == c * w.den,
    ensures
        grid_color_spec(p, w, h) == bilinear_spec(
            p,
            height_lower(h),
            height_upper(h),
            height_frac(h),
            h.den * h.den,
            c - 1,
            c,
            w.den as int,
            w.den as int,
        ),
{
    assert(h.den * h.den >= 1) by (nonlinear_arith)
        requires h.den >= 1;
    lemma_rank_on_wet_line(w, c);
    lemma_wet_line_continuity(
        p,
        height_lower(h),
        height_upper(h),
        height_frac(h),
        h.den * h.den,
        c,
        w.den as int,
    );
}

/// Law: the classifier is continuous at a height grid line, in the same
/// sense as `lemma_classifier_continuous_at_wet_line`.
pub proof fn lemma_classifier_continuous_at_height_line(p: Palette, w: Rank, h: Rank, c: int)
    requires
        rank_wf(w),
        rank_wf(h),
        1 <= c <= 3,
        4 * h.num * h.num == c * (h.den * h.den),
    ensures
        grid_color_spec(p, w, h) == bilinear_spec(
            p,
            c - 1,
            c,
            h.den * h.den,
            h.den * h.den,
            wet_lower(w),
            wet_upper(w),
            wet_frac(w),
            w.den as int,
        ),
{
    assert(h.den * h.den >= 1) by (nonlinear_arith)
        requires h.den >= 1;
    lemma_rank_on_height_line(h, c);
    lemma_height_line_continuity(
        p,
        c,
        wet_lower(w),
        wet_upper(w),
        wet_frac(w),
        w.den as int,
        h.den * h.den,
    );
}

/// Law: a shoreline-flagged vertex is coloured by the shoreline blend of
/// its raw height alone; the wetness and height ranks play no part.
pub proof fn lemma_shoreline_ignores_ranks(
    p: Palette,
    w1: Rank,
    h1: Rank,
    w2: Rank,
    h2: Rank,
    height: i64,
)
    ensures
        classify_spec(p, w1, h1, height, true) == classify_spec(p, w2, h2, height, true),
{
}

} // verus!
