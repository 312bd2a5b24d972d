use landmesh::fixed::{smoothstep, SCALE};
use landmesh::palette::{
    apply_jitter, color_to_rgba, rock_color, shoreline_color, Color, Palette, Rank,
};

fn grey(v: u64) -> Color {
    Color { r: v, g: v, b: v }
}

/// A palette of 13 distinct colours for exact-value checks.
fn test_palette() -> Palette {
    Palette {
        snow: grey(990_000),
        tundra: grey(910_000),
        bare: grey(830_000),
        scorched: grey(750_000),
        taiga: grey(670_000),
        shrubland: grey(590_000),
        temperate_desert: grey(510_000),
        temperate_rainforest: grey(430_000),
        temperate_deciduous_forest: grey(350_000),
        grassland: Color { r: 400_000, g: 400_000, b: 400_000 },
        tropical_rainforest: grey(190_000),
        tropical_seasonal_forest: Color { r: 800_000, g: 800_000, b: 800_000 },
        subtropical_desert: grey(110_000),
    }
}

#[test]
fn smoothstep_at_thresholds() {
    assert_eq!(smoothstep(980_000, 980_000, 1_010_000), 0);
    assert_eq!(smoothstep(900_000, 980_000, 1_010_000), 0);
    assert_eq!(smoothstep(1_010_000, 980_000, 1_010_000), SCALE);
    assert_eq!(smoothstep(1_200_000, 980_000, 1_010_000), SCALE);
}

#[test]
fn smoothstep_midpoint_is_half() {
    // The quintic 10t^3 - 15t^4 + 6t^5 equals exactly 1/2 at t = 1/2.
    assert_eq!(smoothstep(1_000_000, 0, 2_000_000), 500_000);
}

#[test]
fn shoreline_below_band_is_rock() {
    let p = test_palette();
    let w = Rank { num: 1, den: 2 };
    let h = Rank { num: 1, den: 2 };
    // Height 0.9 sits below the blend band: pure rock colour.
    let c = p.get(w, 900_000, h, true);
    assert_eq!(c, rock_color());
}

#[test]
fn shoreline_above_band_is_shore_colour() {
    let p = test_palette();
    let w = Rank { num: 0, den: 1 };
    let h = Rank { num: 0, den: 1 };
    let c = p.get(w, 1_200_000, h, true);
    assert_eq!(c, shoreline_color());
}

#[test]
fn shoreline_ignores_ranks() {
    // A flagged vertex gets the same colour whatever its ranks are.
    let p = test_palette();
    let c1 = p.get(Rank { num: 0, den: 1 }, 900_000, Rank { num: 0, den: 1 }, true);
    let c2 = p.get(Rank { num: 7, den: 9 }, 900_000, Rank { num: 3, den: 5 }, true);
    assert_eq!(c1, c2);
}

#[test]
fn grid_lookup_on_cell_point() {
    let p = test_palette();
    // Wetness rank 1/2: coordinate 3 exactly; height rank 1/2: coordinate
    // 4 * (1/4) = 1 exactly.  Row 1, column 3: temperate deciduous forest.
    let w = Rank { num: 1, den: 2 };
    let h = Rank { num: 1, den: 2 };
    let c = p.get(w, 1_200_000, h, false);
    assert_eq!(c, grey(350_000));
}

#[test]
fn grid_lookup_interpolates_between_columns() {
    let p = test_palette();
    // Wetness rank 1/4: coordinate 1.5, halfway between the grassland and
    // tropical-seasonal-forest columns of the lowest row.
    let w = Rank { num: 1, den: 4 };
    let h = Rank { num: 0, den: 1 };
    let c = p.get(w, 1_200_000, h, false);
    assert_eq!(c.r, (400_000 * 2 + 800_000 * 2) / 4);
    assert_eq!(c.r, 600_000);
}

#[test]
fn grid_lookup_continuous_at_column_boundary() {
    let p = test_palette();
    let h = Rank { num: 0, den: 1 };
    // Exactly on the column-2 grid line.
    let on_line = p.get(Rank { num: 1, den: 3 }, 1_200_000, h, false);
    assert_eq!(on_line, Color { r: 800_000, g: 800_000, b: 800_000 });
    // Just left of the line: coordinate 1.998, weight 2994/3000.
    let left = p.get(Rank { num: 999, den: 3000 }, 1_200_000, h, false);
    assert_eq!(left.r, (400_000u64 * 6 + 800_000u64 * 2994) / 3000);
    assert_eq!(left.r, 799_200);
    assert!(on_line.r - left.r <= 1_000);
}

#[test]
fn grid_extremes_reach_corner_cells() {
    let p = test_palette();
    // Driest, lowest: subtropical desert.
    let c = p.get(Rank { num: 0, den: 1 }, 1_200_000, Rank { num: 0, den: 1 }, false);
    assert_eq!(c, grey(110_000));
    // Wettest, highest: snow.
    let c = p.get(Rank { num: 1, den: 1 }, 1_200_000, Rank { num: 1, den: 1 }, false);
    assert_eq!(c, grey(990_000));
}

#[test]
fn jitter_darkens_channels() {
    let c = Color { r: SCALE, g: 500_000, b: 0 };
    let j = apply_jitter(c, 900_000);
    assert_eq!(j, Color { r: 900_000, g: 450_000, b: 0 });
}

#[test]
fn rgba_conversion_scales_to_bytes() {
    let c = Color { r: 800_000, g: 600_000, b: 400_000 };
    let rgba = color_to_rgba(c);
    assert_eq!((rgba.r, rgba.g, rgba.b, rgba.a), (204, 153, 102, 255));
    let white = color_to_rgba(Color { r: SCALE, g: SCALE, b: SCALE });
    assert_eq!((white.r, white.g, white.b, white.a), (255, 255, 255, 255));
}

#[test]
fn palette_default_is_black() {
    let p = Palette::default();
    assert_eq!(p.snow, grey(0));
    assert_eq!(p.subtropical_desert, grey(0));
}
