use nrg_m2v::cli::{split_voxelization_bounds, split_xyz_components, ExportArgs, InputError};
use nrg_m2v::exporter::VoxelExportType;
use nrg_m2v::visualization::parse_scene_path;

fn export_args(format: &str) -> ExportArgs {
    ExportArgs { output_file_path: "out".to_string(), export_format: format.to_string() }
}

#[test]
fn export_types_are_matched_ignoring_ascii_case() {
    assert_eq!(export_args("binary-edge_u1").export_format(), Ok(VoxelExportType::BinaryEdgeStateU1));
    assert_eq!(export_args("Binary-Fill_U1").export_format(), Ok(VoxelExportType::BinaryFillStateU1));
    assert_eq!(
        export_args("LINEAR-RGB8-COLOR_U8").export_format(),
        Ok(VoxelExportType::LinearRgb8ColorU8)
    );
    assert_eq!(export_args("metallic-value_u8").export_format(), Ok(VoxelExportType::MetallicValueU8));
    assert_eq!(
        export_args("roughness-value_u8").export_format(),
        Ok(VoxelExportType::RoughnessValueU8)
    );
    assert_eq!(export_args("binary-edge").export_format(), Err(InputError::InvalidExportType));
    assert_eq!(export_args("").export_format(), Err(InputError::InvalidExportType));
}

fn floats(c: &nrg_m2v::cli::XyzComponents) -> Result<[f32; 3], std::num::ParseFloatError> {
    Ok([c.x.parse::<f32>()?, c.y.parse::<f32>()?, c.z.parse::<f32>()?])
}

#[test]
fn bounds_text_splits_into_two_points() {
    let (lo, hi) = split_voxelization_bounds(" (-3, -2.5, -1) / (1, 1, 4.2)").unwrap();
    assert_eq!((lo.x.as_str(), lo.y.as_str(), lo.z.as_str()), ("-3", "-2.5", "-1"));
    assert_eq!((hi.x.as_str(), hi.y.as_str(), hi.z.as_str()), ("1", "1", "4.2"));
    assert_eq!(floats(&lo).unwrap(), [-3.0, -2.5, -1.0]);
    assert_eq!(floats(&hi).unwrap(), [1.0, 1.0, 4.2]);
}

#[test]
fn malformed_bounds_are_rejected() {
    assert_eq!(
        split_voxelization_bounds("(1, 2) / (1, 2, 3)").unwrap_err(),
        InputError::InvalidVoxelizationBounds
    );
    assert_eq!(
        split_voxelization_bounds("(1, 2, 3) | (4, 5, 6)").unwrap_err(),
        InputError::InvalidVoxelizationBounds
    );
    assert_eq!(
        split_voxelization_bounds("(1, 2, 3, 4) / (4, 5, 6)").unwrap_err(),
        InputError::InvalidVoxelizationBounds
    );
    let (lo, _) = split_voxelization_bounds("(a, 2, 3) / (4, 5, 6)").unwrap();
    assert!(floats(&lo).is_err());
}

#[test]
fn parentheses_are_optional() {
    let c = split_xyz_components("  1 ,2,  3 ").unwrap();
    assert_eq!((c.x.as_str(), c.y.as_str(), c.z.as_str()), ("1", "2", "3"));
    let c = split_xyz_components(" ( 4,5,6 ) ").unwrap();
    assert_eq!((c.x.as_str(), c.y.as_str(), c.z.as_str()), ("4", "5", "6"));
    assert!(split_xyz_components("1,2").is_err());
}

#[test]
fn unbalanced_parentheses_are_malformed() {
    let c = split_xyz_components("(1, 2, 3").unwrap();
    assert_eq!(c.x.as_str(), "(1");
    assert!(c.x.parse::<f32>().is_err());
    let c = split_xyz_components("1, 2, 3)").unwrap();
    assert!(c.z.parse::<f32>().is_err());
    let (lo, _) = split_voxelization_bounds("(1, 2, 3 / (4, 5, 6)").unwrap();
    assert!(lo.x.parse::<f32>().is_err());
}

#[test]
fn scene_path_carries_an_optional_scene_index() {
    assert_eq!(parse_scene_path("models/a.gltf#Scene2"), ("models/a.gltf".to_string(), 2));
    assert_eq!(parse_scene_path("a#b#Scene10"), ("a#b".to_string(), 10));
    assert_eq!(parse_scene_path("plain.gltf"), ("plain.gltf".to_string(), 0));
    assert_eq!(parse_scene_path("x.gltf#SceneX"), ("x.gltf#SceneX".to_string(), 0));
    assert_eq!(parse_scene_path("x.gltf#Scene"), ("x.gltf#Scene".to_string(), 0));
    assert_eq!(parse_scene_path("x.gltf#Mesh3"), ("x.gltf#Mesh3".to_string(), 0));
    assert_eq!(parse_scene_path("x.gltf#Scene+3"), ("x.gltf".to_string(), 3));
    assert_eq!(parse_scene_path("x.gltf#Scene+"), ("x.gltf#Scene+".to_string(), 0));
    assert_eq!(parse_scene_path("x.gltf#Scene-1"), ("x.gltf#Scene-1".to_string(), 0));
    let huge = "x.gltf#Scene99999999999999999999999";
    assert_eq!(parse_scene_path(huge), (huge.to_string(), 0));
    let max = format!("x.gltf#Scene{}", usize::MAX);
    assert_eq!(parse_scene_path(&max), ("x.gltf".to_string(), usize::MAX));
}
