use landmesh::boundary::{boundary_flags, is_boundary};
use landmesh::fixed::SCALE;
use landmesh::jitter::{jitter_stream, JITTER_MIN};
use landmesh::mesh::{push_fan, Vec3Fx};
use landmesh::palette::{apply_jitter, Color, Palette, Rgba};
use landmesh::pipeline::{create_land_mesh, synthesize_mesh, MeshError};

fn v3(x: i64, y: i64, z: i64) -> Vec3Fx {
    Vec3Fx { x, y, z }
}

fn grey(v: u64) -> Color {
    Color { r: v, g: v, b: v }
}

fn test_palette() -> Palette {
    Palette {
        snow: grey(990_000),
        tundra: grey(910_000),
        bare: grey(830_000),
        scorched: grey(750_000),
        taiga: grey(670_000),
        shrubland: grey(590_000),
        temperate_desert: grey(510_000),
        temperate_rainforest: grey(430_000),
        temperate_deciduous_forest: grey(350_000),
        grassland: grey(400_000),
        tropical_rainforest: grey(190_000),
        tropical_seasonal_forest: Color { r: 800_000, g: 600_000, b: 400_000 },
        subtropical_desert: grey(110_000),
    }
}

/// Four vertices, each adjacent to the other three.
fn tetra_world() -> (Vec<Vec3Fx>, Vec<i64>, Vec<i64>, Vec<Vec<usize>>) {
    let positions = vec![
        v3(1_000_000, 0, 0),
        v3(0, 1_000_000, 0),
        v3(0, 0, 1_000_000),
        v3(0, -1_000_000, 0),
    ];
    let heights: Vec<i64> = vec![1_200_000, 1_300_000, 1_300_000, 1_300_000];
    let wetness: Vec<i64> = vec![500_000, 200_000, 800_000, 900_000];
    let adjacent: Vec<Vec<usize>> = vec![
        vec![1, 2, 3],
        vec![0, 2, 3],
        vec![0, 1, 3],
        vec![0, 1, 2],
    ];
    (positions, heights, wetness, adjacent)
}

#[test]
fn boundary_true_at_threshold_with_low_neighbour() {
    // The vertex sits exactly at sea level; one neighbour is below it.
    let heights: Vec<i64> = vec![1_000_000, 999_999, 1_100_000];
    let ring: Vec<usize> = vec![1, 2];
    assert!(is_boundary(&heights, &ring, 0));
}

#[test]
fn boundary_false_when_all_above() {
    let heights: Vec<i64> = vec![1_000_000, 1_000_000, 1_100_000];
    let ring: Vec<usize> = vec![1, 2];
    assert!(!is_boundary(&heights, &ring, 0));
}

#[test]
fn boundary_true_below_sea_level() {
    let heights: Vec<i64> = vec![900_000, 1_200_000];
    let ring: Vec<usize> = vec![1];
    assert!(is_boundary(&heights, &ring, 0));
}

#[test]
fn boundary_flags_whole_mesh() {
    let heights: Vec<i64> = vec![900_000, 1_200_000, 1_300_000];
    let adjacent: Vec<Vec<usize>> = vec![vec![1, 2], vec![0, 2], vec![1, 1, 1]];
    let flags = boundary_flags(&heights, &adjacent);
    // Vertex 0 is itself below; vertex 1 has the low neighbour; vertex 2
    // touches only vertex 1, which is above sea level.
    assert_eq!(flags, vec![true, true, false]);
}

#[test]
fn fan_emits_one_triangle_per_ring_entry() {
    let mut points: Vec<Vec3Fx> = Vec::new();
    let mut colors: Vec<Rgba> = Vec::new();
    let ring = vec![
        v3(3, 0, 0),
        v3(0, 3, 0),
        v3(0, 0, 3),
        v3(0, -3, 0),
        v3(-3, 0, 0),
    ];
    let c = Rgba { r: 1, g: 2, b: 3, a: 255 };
    push_fan(&mut points, &mut colors, v3(0, 0, 0), &ring, c);
    assert_eq!(points.len(), 15);
    assert_eq!(colors.len(), 15);
    assert!(colors.iter().all(|x| *x == c));
    // First triangle: the source, then the two smoothed corners
    // (source + ring[1] + ring[0]) / 3 and (source + ring[1] + ring[2]) / 3.
    assert_eq!(points[0], v3(0, 0, 0));
    assert_eq!(points[1], v3(1, 1, 0));
    assert_eq!(points[2], v3(0, 1, 1));
}

#[test]
fn mesh_total_is_sum_of_ring_lengths() {
    let (positions, heights, wetness, adjacent) = tetra_world();
    let jitter: Vec<u64> = vec![SCALE; 4];
    let m = synthesize_mesh(&positions, &heights, &wetness, &adjacent, &test_palette(), &jitter)
        .unwrap();
    // Four rings of three entries: 12 triangles, 36 buffer entries.
    assert_eq!(m.positions.len(), 36);
    assert_eq!(m.colors.len(), 36);
}

#[test]
fn end_to_end_land_vertex() {
    let (positions, heights, wetness, adjacent) = tetra_world();
    // A unit jitter leaves the classified colour untouched.
    let jitter: Vec<u64> = vec![SCALE; 4];
    let m = synthesize_mesh(&positions, &heights, &wetness, &adjacent, &test_palette(), &jitter)
        .unwrap();

    // No vertex is below sea level, so no shoreline path anywhere.
    assert_eq!(boundary_flags(&heights, &adjacent), vec![false; 4]);

    // Vertex 0: wetness 0.5 ranks 1 of {0.2, 0.5, 0.8, 0.9} -> rank 1/3,
    // wetness coordinate exactly 2; height 1.2 is the lowest land height ->
    // rank 0/3, height coordinate 0.  Cell (0, 2): tropical seasonal forest
    // (800000, 600000, 400000), as bytes (204, 153, 102, 255).
    let expected = Rgba { r: 204, g: 153, b: 102, a: 255 };
    for k in 0..9 {
        assert_eq!(m.colors[k], expected);
    }

    // Vertex 0 emits exactly three triangles, anchored at its displaced
    // position: direction (1, 0, 0) times height 1.2.
    assert_eq!(m.positions[0], v3(1_200_000, 0, 0));
    assert_eq!(m.positions[3], v3(1_200_000, 0, 0));
    assert_eq!(m.positions[6], v3(1_200_000, 0, 0));
    assert_ne!(m.colors[9], expected);
}

#[test]
fn shoreline_vertex_takes_blend_path() {
    let (positions, mut heights, wetness, adjacent) = tetra_world();
    heights[0] = 900_000;
    let jitter: Vec<u64> = vec![SCALE; 4];
    let m = synthesize_mesh(&positions, &heights, &wetness, &adjacent, &test_palette(), &jitter)
        .unwrap();
    // Vertex 0 is below sea level: pure rock colour 662745 -> byte 168.
    assert_eq!(m.colors[0], Rgba { r: 168, g: 168, b: 168, a: 255 });
}

#[test]
fn empty_world_is_rejected() {
    let positions: Vec<Vec3Fx> = Vec::new();
    let heights: Vec<i64> = Vec::new();
    let wetness: Vec<i64> = Vec::new();
    let adjacent: Vec<Vec<usize>> = Vec::new();
    let jitter: Vec<u64> = Vec::new();
    let r = synthesize_mesh(&positions, &heights, &wetness, &adjacent, &test_palette(), &jitter);
    assert_eq!(r.unwrap_err(), MeshError::EmptyMesh);
    let r2 = create_land_mesh(&positions, &heights, &wetness, &adjacent, &test_palette());
    assert_eq!(r2.unwrap_err(), MeshError::EmptyMesh);
}

#[test]
fn jitter_stream_stays_in_band_and_darkens() {
    let jitter = jitter_stream(64);
    assert_eq!(jitter.len(), 64);
    for &j in jitter.iter() {
        assert!(JITTER_MIN <= j && j < SCALE);
        // A white colour is strictly darkened by every drawn factor.
        let white = Color { r: SCALE, g: SCALE, b: SCALE };
        assert!(apply_jitter(white, j).r < SCALE);
    }
}

#[test]
fn rerun_reproduces_buffers_exactly() {
    let (positions, heights, wetness, adjacent) = tetra_world();
    let p = test_palette();

    // Same explicit jitter stream: identical buffers.
    let jitter = jitter_stream(4);
    let a = synthesize_mesh(&positions, &heights, &wetness, &adjacent, &p, &jitter).unwrap();
    let b = synthesize_mesh(&positions, &heights, &wetness, &adjacent, &p, &jitter).unwrap();
    assert_eq!(a.positions, b.positions);
    assert_eq!(a.colors, b.colors);

    // The full call re-seeds the generator with the fixed seed each time,
    // so even the drawn jitter repeats run to run.
    let c = create_land_mesh(&positions, &heights, &wetness, &adjacent, &p).unwrap();
    let d = create_land_mesh(&positions, &heights, &wetness, &adjacent, &p).unwrap();
    assert_eq!(c.positions, d.positions);
    assert_eq!(c.colors, d.colors);
}
