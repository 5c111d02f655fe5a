use nrg_m2v::exporter::{
    decode_binary_state_u1, encode_binary_edge_state_u1, encode_binary_fill_state_u1,
    encode_linear_rgb8_color_u8, encode_metallic_value_u8, encode_roughness_value_u8,
    BinaryEdgeStateU1RawWriter, BinaryFillStateU1RawWriter, LinearRgb8ColorU8RawWriter,
};
use nrg_m2v::grid::VoxelGrid;
use nrg_m2v::voxel::{NonFinalVoxelData, VoxelData};

type Work = NonFinalVoxelData<[f32; 3], f32>;

fn first(samples: &Vec<[f32; 3]>) -> [f32; 3] {
    samples[0]
}

fn first_value(samples: &Vec<f32>) -> f32 {
    samples[0]
}

fn to_byte(c: &f32) -> u8 {
    (c * 255.0) as u8
}

fn to_rgb(c: &[f32; 3]) -> (u8, u8, u8) {
    (to_byte(&c[0]), to_byte(&c[1]), to_byte(&c[2]))
}

/// A 3 x 2 x 2 final grid: voxel 0 and 9 are edges, voxel 4 is inside, the rest empty.
fn small_grid() -> VoxelGrid<VoxelData<[f32; 3], f32>> {
    let mut grid: VoxelGrid<Work> = VoxelGrid::new(3, 2, 2);
    let mut a = grid.take_voxel_by_xyz_index_unchecked(0, 0, 0);
    a.add_sample([1.0, 0.5, 0.0], 1.0, 0.25);
    grid.set_voxel_by_xyz_index_unchecked(0, 0, 0, a);
    let mut b = grid.take_voxel_by_xyz_index_unchecked(0, 1, 1);
    b.add_sample([0.0, 0.2, 1.0], 0.5, 0.75);
    grid.set_voxel_by_xyz_index_unchecked(0, 1, 1, b);
    grid.set_voxel_by_xyz_index_unchecked(1, 1, 0, NonFinalVoxelData::InsideMesh);
    grid.into_final_grid(&first, &first_value)
}

#[test]
fn binary_edge_stream_packs_msb_first() {
    let grid = small_grid();
    let bytes = encode_binary_edge_state_u1(&grid);
    assert_eq!(bytes, vec![0b1000_0000, 0b0100_0000]);
}

#[test]
fn binary_fill_stream_includes_inside_voxels() {
    let grid = small_grid();
    let bytes = encode_binary_fill_state_u1(&grid);
    assert_eq!(bytes, vec![0b1000_1000, 0b0100_0000]);
}

#[test]
fn export_sizes_follow_the_voxel_count() {
    let grid = small_grid();
    assert_eq!(encode_binary_edge_state_u1(&grid).len(), 2);
    assert_eq!(encode_binary_fill_state_u1(&grid).len(), 2);
    assert_eq!(encode_linear_rgb8_color_u8(&grid, &to_rgb).len(), 36);
    assert_eq!(encode_metallic_value_u8(&grid, &to_byte).len(), 12);
    assert_eq!(encode_roughness_value_u8(&grid, &to_byte).len(), 12);
    let exact: VoxelGrid<Work> = VoxelGrid::new(4, 2, 2);
    let exact = exact.into_final_grid(&first, &first_value);
    assert_eq!(encode_binary_edge_state_u1(&exact), vec![0u8, 0u8]);
}

#[test]
fn color_and_scalar_channels_write_edge_values_only() {
    let grid = small_grid();
    let rgb = encode_linear_rgb8_color_u8(&grid, &to_rgb);
    assert_eq!(&rgb[0..3], &[255, 127, 0]);
    assert_eq!(&rgb[27..30], &[0, 51, 255]);
    assert_eq!(&rgb[12..15], &[0, 0, 0]);
    let metallic = encode_metallic_value_u8(&grid, &to_byte);
    assert_eq!(metallic[0], 255);
    assert_eq!(metallic[9], 127);
    assert_eq!(metallic[4], 0);
    let roughness = encode_roughness_value_u8(&grid, &to_byte);
    assert_eq!(roughness[0], 63);
    assert_eq!(roughness[9], 191);
    assert_eq!(roughness[4], 0);
}

#[test]
fn writers_stream_the_same_bytes() {
    let grid = small_grid();
    let mut edge = BinaryEdgeStateU1RawWriter::from_grid(&grid);
    let mut buf = [0u8; 4];
    let mut out = Vec::new();
    loop {
        let n = edge.read(&mut buf);
        if n == 0 {
            break;
        }
        out.extend_from_slice(&buf[..n]);
    }
    assert_eq!(out, encode_binary_edge_state_u1(&grid));

    let mut fill = BinaryFillStateU1RawWriter::from_grid(&grid);
    let mut out = Vec::new();
    loop {
        let n = fill.read(&mut buf);
        if n == 0 {
            break;
        }
        out.extend_from_slice(&buf[..n]);
    }
    assert_eq!(out, encode_binary_fill_state_u1(&grid));

    let mut rgb = LinearRgb8ColorU8RawWriter::from_grid(&grid);
    let mut out = Vec::new();
    loop {
        let n = rgb.read(&mut buf, &to_rgb);
        if n == 0 {
            break;
        }
        out.extend_from_slice(&buf[..n]);
    }
    assert_eq!(out, encode_linear_rgb8_color_u8(&grid, &to_rgb));
}

#[test]
fn decoding_reads_bits_msb_first() {
    let bits = decode_binary_state_u1(&[0b1010_0000, 0b0000_0001], 16);
    let expected: Vec<bool> = (0..16).map(|i| i == 0 || i == 2 || i == 15).collect();
    assert_eq!(bits, expected);
}

#[test]
fn grid_without_voxels_exports_nothing() {
    let grid: VoxelGrid<Work> = VoxelGrid::new(0, 3, 3);
    let grid = grid.into_final_grid(&first, &first_value);
    assert!(grid.voxels().is_empty());
    assert!(encode_binary_edge_state_u1(&grid).is_empty());
    assert!(encode_binary_fill_state_u1(&grid).is_empty());
    assert!(encode_linear_rgb8_color_u8(&grid, &to_rgb).is_empty());
    let mut writer = BinaryEdgeStateU1RawWriter::from_grid(&grid);
    let mut buf = [7u8; 1];
    assert_eq!(writer.read(&mut buf), 0);
    assert_eq!(buf, [7u8]);
}

#[test]
fn writers_read_to_end_give_the_whole_streams() {
    let grid = small_grid();
    let edge = BinaryEdgeStateU1RawWriter::from_grid(&grid).read_to_end();
    assert_eq!(edge, vec![0b1000_0000, 0b0100_0000]);
    let fill = BinaryFillStateU1RawWriter::from_grid(&grid).read_to_end();
    assert_eq!(fill, vec![0b1000_1000, 0b0100_0000]);
    let rgb = LinearRgb8ColorU8RawWriter::from_grid(&grid).read_to_end(&to_rgb);
    assert_eq!(rgb.len(), 36);
    assert_eq!(rgb, encode_linear_rgb8_color_u8(&grid, &to_rgb));
}
