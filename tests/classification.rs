use nrg_m2v::exporter::{decode_binary_state_u1, encode_binary_edge_state_u1};
use nrg_m2v::grid::VoxelGrid;
use nrg_m2v::infill::classify_interior_voxels;
use nrg_m2v::pipeline::{voxelize_model_grid, TriangleIndexBox};
use nrg_m2v::voxel::{NonFinalVoxelData, VoxelData};

type Work = NonFinalVoxelData<[f32; 3], f32>;

fn rms(samples: &Vec<[f32; 3]>) -> [f32; 3] {
    let n = samples.len() as f32;
    let mut sum = [0.0f32; 3];
    for s in samples {
        for c in 0..3 {
            sum[c] += s[c] * s[c];
        }
    }
    [(sum[0] / n).sqrt(), (sum[1] / n).sqrt(), (sum[2] / n).sqrt()]
}

fn mean(samples: &Vec<f32>) -> f32 {
    samples.iter().sum::<f32>() / samples.len() as f32
}

/// A grid of side `n` whose edge voxels form the surface of the box `lo..=hi` on every
/// axis, without the top face (z == hi) when `open_top` is set.
fn shell_grid(n: usize, lo: usize, hi: usize, open_top: bool) -> VoxelGrid<Work> {
    let mut grid: VoxelGrid<Work> = VoxelGrid::new(n, n, n);
    for x in lo..=hi {
        for y in lo..=hi {
            for z in lo..=hi {
                let on_face = x == lo || x == hi || y == lo || y == hi || z == lo || z == hi;
                let on_open_face = open_top && z == hi && x != lo && x != hi && y != lo && y != hi;
                if on_face && !on_open_face {
                    let mut v = grid.take_voxel_by_xyz_index_unchecked(x, y, z);
                    v.add_sample([1.0, 1.0, 1.0], 0.0, 0.5);
                    grid.set_voxel_by_xyz_index_unchecked(x, y, z, v);
                }
            }
        }
    }
    grid
}

fn count<F: Fn(&Work) -> bool>(grid: &VoxelGrid<Work>, f: F) -> usize {
    grid.voxels().iter().filter(|v| f(v)).count()
}

#[test]
fn closed_shell_fills_exactly_its_inside() {
    let mut grid = shell_grid(8, 1, 6, false);
    let edges_before = count(&grid, |v| v.is_edge());
    classify_interior_voxels(&mut grid);
    assert_eq!(count(&grid, |v| v.is_inside_mesh()), 4 * 4 * 4);
    assert_eq!(count(&grid, |v| v.is_edge()), edges_before);
    for x in 0..8 {
        for y in 0..8 {
            for z in 0..8 {
                let inside = (2..=5).contains(&x) && (2..=5).contains(&y) && (2..=5).contains(&z);
                assert_eq!(grid.voxel_by_xyz_index_unchecked(x, y, z).is_inside_mesh(), inside);
            }
        }
    }
}

#[test]
fn inside_voxels_are_shielded_along_every_axis() {
    let mut grid = shell_grid(9, 1, 7, false);
    // A second, inner edge wall splits the box along x.
    for y in 1..=7 {
        for z in 1..=7 {
            let mut v = grid.take_voxel_by_xyz_index_unchecked(4, y, z);
            v.add_sample([0.0, 0.0, 0.0], 0.0, 0.0);
            grid.set_voxel_by_xyz_index_unchecked(4, y, z, v);
        }
    }
    classify_interior_voxels(&mut grid);
    let n = 9;
    let edge = |g: &VoxelGrid<Work>, x: usize, y: usize, z: usize| {
        g.voxel_by_xyz_index_unchecked(x, y, z).is_edge()
    };
    let mut inside = 0;
    for x in 0..n {
        for y in 0..n {
            for z in 0..n {
                if grid.voxel_by_xyz_index_unchecked(x, y, z).is_inside_mesh() {
                    inside += 1;
                    assert!((0..x).any(|a| edge(&grid, a, y, z)));
                    assert!((x + 1..n).any(|a| edge(&grid, a, y, z)));
                    assert!((0..y).any(|b| edge(&grid, x, b, z)));
                    assert!((y + 1..n).any(|b| edge(&grid, x, b, z)));
                    assert!((0..z).any(|c| edge(&grid, x, y, c)));
                    assert!((z + 1..n).any(|c| edge(&grid, x, y, c)));
                }
            }
        }
    }
    assert_eq!(inside, 2 * 2 * 5 * 5);
}

#[test]
fn open_box_leaves_no_runaway_fill() {
    let mut grid = shell_grid(8, 1, 6, true);
    classify_interior_voxels(&mut grid);
    assert_eq!(count(&grid, |v| v.is_inside_mesh()), 0);
    for x in 0..8 {
        for y in 0..8 {
            assert!(!grid.voxel_by_xyz_index_unchecked(x, y, 7).is_inside_mesh());
        }
    }
}

#[test]
fn edges_survive_classification_and_finalization() {
    let mut grid = shell_grid(8, 1, 6, false);
    let surface_edges: Vec<bool> = grid.voxels().iter().map(|v| v.is_edge()).collect();
    classify_interior_voxels(&mut grid);
    let fin = grid.into_final_grid(&rms, &mean);
    let final_edges: Vec<bool> = fin.voxels().iter().map(|v| v.is_edge()).collect();
    assert_eq!(surface_edges, final_edges);
    assert_eq!(fin.voxels().iter().filter(|v| matches!(v, VoxelData::InsideMesh)).count(), 64);
}

#[test]
fn color_samples_reduce_to_root_mean_square() {
    let mut v: Work = NonFinalVoxelData::new_empty();
    v.add_sample([1.0, 0.0, 0.0], 0.0, 0.3);
    v.add_sample([0.0, 1.0, 0.0], 0.5, 0.6);
    v.add_sample([0.0, 0.0, 1.0], 1.0, 0.9);
    match v.into_final_voxel_data(&rms, &mean) {
        VoxelData::Edge { color, metallic_value, roughness_value } => {
            for c in color {
                assert!((c - 0.5774).abs() < 1e-4);
            }
            assert!((metallic_value - 0.5).abs() < 1e-6);
            assert!((roughness_value - 0.6).abs() < 1e-6);
        }
        _ => panic!("expected an edge voxel"),
    }
}

#[test]
fn model_without_triangles_gives_an_empty_grid() {
    let probe = |_t: usize, _x: usize, _y: usize, _z: usize| -> Option<([f32; 3], f32, f32)> {
        Some(([1.0, 1.0, 1.0], 1.0, 1.0))
    };
    let fin = voxelize_model_grid(5, 3, 2, &Vec::new(), &probe, &rms, &mean);
    assert_eq!(fin.voxels().len(), 30);
    assert!(fin.voxels().iter().all(|v| matches!(v, VoxelData::Empty)));
    let bytes = encode_binary_edge_state_u1(&fin);
    assert_eq!(bytes, vec![0u8; 4]);
}

/// Overlap of voxel (i, j, k) of the grid with origin (-1, -1, -1) and voxel size 0.5
/// with the triangle (0,0,0), (1,0,0), (0,1,0), boundary contact included.
fn unit_triangle_overlaps(i: usize, j: usize, k: usize) -> bool {
    let lo = |n: usize| -1.0f32 + 0.5 * n as f32;
    let (x0, x1) = (lo(i), lo(i) + 0.5);
    let (y0, y1) = (lo(j), lo(j) + 0.5);
    let (z0, z1) = (lo(k), lo(k) + 0.5);
    z0 <= 0.0 && 0.0 <= z1 && x1 >= 0.0 && y1 >= 0.0 && x0.max(0.0) + y0.max(0.0) <= 1.0
}

#[test]
fn single_triangle_marks_one_slab() {
    // Triangle bounding box (0,0,0)..(1,1,0) in a grid at (-1,-1,-1) with voxel size 0.5:
    // first index (0 - -1) / 0.5 = 2, count 1 / 0.5 + 2 = 4 on x and y, 0 / 0.5 + 2 on z.
    let boxes = vec![TriangleIndexBox {
        x_start: 2,
        x_count: 4,
        y_start: 2,
        y_count: 4,
        z_start: 2,
        z_count: 2,
    }];
    let probe = |_t: usize, x: usize, y: usize, z: usize| -> Option<([f32; 3], f32, f32)> {
        if unit_triangle_overlaps(x, y, z) {
            Some(([0.2, 0.4, 0.6], 0.1, 0.9))
        } else {
            None
        }
    };
    let fin = voxelize_model_grid(4, 4, 4, &boxes, &probe, &rms, &mean);
    let mut edges = 0;
    for (i, v) in fin.voxels().iter().enumerate() {
        let k = i / 16;
        match v {
            VoxelData::Edge { .. } => {
                edges += 1;
                assert_eq!(k, 2);
            }
            VoxelData::InsideMesh => panic!("no inside voxels expected"),
            VoxelData::Empty => {}
        }
    }
    assert!(edges > 0);
}

#[test]
fn binary_edge_stream_round_trips_the_edge_mask() {
    let mut grid = shell_grid(5, 1, 3, false);
    classify_interior_voxels(&mut grid);
    let fin = grid.into_final_grid(&rms, &mean);
    let bytes = encode_binary_edge_state_u1(&fin);
    assert_eq!(bytes.len(), (125 + 7) / 8);
    let mask = decode_binary_state_u1(&bytes, 125);
    let expected: Vec<bool> = fin.voxels().iter().map(|v| v.is_edge()).collect();
    assert_eq!(mask, expected);
}

#[test]
fn hit_samples_are_recorded_in_triangle_order() {
    let boxes = vec![
        TriangleIndexBox { x_start: 0, x_count: 2, y_start: 0, y_count: 1, z_start: 0, z_count: 1 },
        TriangleIndexBox { x_start: 1, x_count: 1, y_start: 0, y_count: 1, z_start: 0, z_count: 1 },
    ];
    let probe = |t: usize, x: usize, _y: usize, _z: usize| -> Option<([f32; 3], f32, f32)> {
        if t == 0 && x == 0 {
            None
        } else {
            Some(([t as f32, x as f32, 0.0], t as f32, 1.0))
        }
    };
    let first_color = |s: &Vec<[f32; 3]>| s[0];
    let last_value = |s: &Vec<f32>| s[s.len() - 1];
    let fin = voxelize_model_grid(2, 1, 1, &boxes, &probe, &first_color, &last_value);
    assert!(matches!(fin.voxels()[0], VoxelData::Empty));
    match &fin.voxels()[1] {
        VoxelData::Edge { color, metallic_value, roughness_value } => {
            assert_eq!(*color, [0.0, 1.0, 0.0]);
            assert_eq!(*metallic_value, 1.0);
            assert_eq!(*roughness_value, 1.0);
        }
        _ => panic!("expected an edge voxel"),
    }
}
