use nrg_m2v::grid::{Axis, VoxelGrid};
use nrg_m2v::surface::clamp_index_range;
use nrg_m2v::voxel::NonFinalVoxelData;

type Work = NonFinalVoxelData<[f32; 3], f32>;

#[test]
fn new_grid_has_one_empty_voxel_per_index() {
    let grid: VoxelGrid<Work> = VoxelGrid::new(3, 4, 5);
    assert_eq!(grid.voxels().len(), 60);
    assert!(grid.voxels().iter().all(|v| v.is_empty()));
    assert_eq!((grid.x_length(), grid.y_length(), grid.z_length()), (3, 4, 5));
}

#[test]
fn flat_index_layout_is_x_fastest_then_y_then_z() {
    let mut grid: VoxelGrid<Work> = VoxelGrid::new(3, 4, 5);
    grid.set_voxel_by_xyz_index_unchecked(1, 2, 3, NonFinalVoxelData::InsideMesh);
    let flat = 1 + 2 * 3 + 3 * 3 * 4;
    for (i, v) in grid.voxels().iter().enumerate() {
        assert_eq!(v.is_inside_mesh(), i == flat);
    }
    assert!(grid.voxel_by_xyz_index_unchecked(1, 2, 3).is_inside_mesh());
    assert_eq!(grid.xyz_index_of_flat_index(flat), (1, 2, 3));
    assert_eq!(grid.xyz_index_of_flat_index(0), (0, 0, 0));
    assert_eq!(grid.xyz_index_of_flat_index(59), (2, 3, 4));
}

#[test]
fn voxel_center_is_origin_plus_half_extent_plus_full_steps() {
    let grid: VoxelGrid<Work> = VoxelGrid::new(4, 4, 4);
    let origin = [-1.0f32, -2.0, 0.5];
    let h = 0.25f32;
    let (cx, cy, cz) = grid.center_offsets_in_half_extents(1, 2, 3);
    assert_eq!((cx, cy, cz), (3, 5, 7));
    let center = [
        origin[0] + h * cx as f32,
        origin[1] + h * cy as f32,
        origin[2] + h * cz as f32,
    ];
    let expected = [
        origin[0] + h + 2.0 * h * 1.0,
        origin[1] + h + 2.0 * h * 2.0,
        origin[2] + h + 2.0 * h * 3.0,
    ];
    for a in 0..3 {
        assert!((center[a] - expected[a]).abs() < 1e-6);
    }
    let (lo, hi) = grid.aabb_offsets_in_half_extents(1, 2, 3);
    assert_eq!(lo, (2, 4, 6));
    assert_eq!(hi, (4, 6, 8));
}

#[test]
fn axis_lengths_follow_the_axis() {
    let grid: VoxelGrid<Work> = VoxelGrid::new(2, 3, 4);
    assert_eq!(grid.axis_length(Axis::X), 2);
    assert_eq!(grid.axis_length(Axis::Y), 3);
    assert_eq!(grid.axis_length(Axis::Z), 4);
    assert_eq!(grid.fixed_lengths(Axis::X), (3, 4));
    assert_eq!(grid.fixed_lengths(Axis::Y), (2, 4));
    assert_eq!(grid.fixed_lengths(Axis::Z), (2, 3));
}

#[test]
fn index_ranges_are_clamped_to_the_grid() {
    assert_eq!(clamp_index_range(-2, 5, 10), (0, 3));
    assert_eq!(clamp_index_range(8, 5, 10), (8, 10));
    assert_eq!(clamp_index_range(12, 2, 10), (10, 10));
    assert_eq!(clamp_index_range(-9, 3, 10), (0, 0));
    assert_eq!(clamp_index_range(3, 2, 10), (3, 5));
}

#[test]
fn samples_accumulate_in_parallel_sequences() {
    let mut v: Work = NonFinalVoxelData::new_empty();
    v.add_sample([1.0, 0.0, 0.0], 0.5, 0.25);
    v.add_sample([0.0, 1.0, 0.0], 0.0, 1.0);
    match v {
        NonFinalVoxelData::Edge {
            color_samples,
            metallic_value_samples,
            roughness_value_samples,
        } => {
            assert_eq!(color_samples, vec![[1.0, 0.0, 0.0], [0.0, 1.0, 0.0]]);
            assert_eq!(metallic_value_samples, vec![0.5, 0.0]);
            assert_eq!(roughness_value_samples, vec![0.25, 1.0]);
        }
        _ => panic!("expected an edge voxel"),
    }
}
