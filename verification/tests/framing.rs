use mesh_thumbnail::error::ErrorKind;
use mesh_thumbnail::format::InputFormat;
use mesh_thumbnail::framing::{frame_mesh, Orientation};
use mesh_thumbnail::mesh::{compute_aabb, mesh_from_indexed, IndexTriple, Vec3Fix};
use mesh_thumbnail::should_write_output;

fn v(x: i64, y: i64, z: i64) -> Vec3Fix {
    Vec3Fix { x, y, z }
}

fn cube_mesh() -> mesh_thumbnail::mesh::Mesh {
    // bounding box (0,0,0) .. (2,2,2) in units, fixed point in thousandths
    let verts = vec![v(0, 0, 0), v(2000, 2000, 2000), v(2000, 0, 0)];
    let faces = vec![IndexTriple { a: 0, b: 1, c: 2 }];
    mesh_from_indexed(verts, &faces).unwrap()
}

#[test]
fn centering_moves_box_center_to_origin() {
    let m = cube_mesh();
    let plan = frame_mesh(&m, InputFormat::Stl, 1, 0, 0, 1000).unwrap();
    assert_eq!(plan.translation, v(-1000, -1000, -1000));
}

#[test]
fn magnitude_is_box_diagonal() {
    let m = cube_mesh();
    let plan = frame_mesh(&m, InputFormat::Stl, 1, 0, 0, 1000).unwrap();
    // extent (2,2,2): |extent| = 2*sqrt(3); squared and scaled by the
    // fixed-point factors: (2000^2 * 3) * (1000^2)
    assert_eq!(plan.mag_sq, 12_000_000 * 1_000_000u128);
    let magnitude = (plan.mag_sq as f64).sqrt() / 1_000_000.0;
    let expected = 2.0 * 3.0f64.sqrt();
    assert!((magnitude - expected).abs() < 1e-9);
}

#[test]
fn orientation_by_format_family() {
    let m = cube_mesh();
    for fmt in [
        InputFormat::Stl,
        InputFormat::StlZip,
        InputFormat::ThreeMf,
        InputFormat::Obj,
        InputFormat::ObjZip,
    ] {
        let plan = frame_mesh(&m, fmt, 1, 0, 0, 1000).unwrap();
        assert_eq!(plan.orientation, Orientation::RotateX270);
    }
    for fmt in [InputFormat::Gcode, InputFormat::GcodeZip] {
        let plan = frame_mesh(&m, fmt, 1, 0, 0, 1000).unwrap();
        assert_eq!(plan.orientation, Orientation::RotateY180);
    }
}

#[test]
fn four_images_get_quarter_turn_yaws() {
    let m = cube_mesh();
    // the caller's yaw of 45 degrees is ignored: a warning, not an error
    let plan = frame_mesh(&m, InputFormat::Stl, 4, 0, 45_000, 1000).unwrap();
    assert!(plan.yaw_ignored);
    assert_eq!(plan.yaws.len(), 4);
    let degrees: Vec<i64> = plan
        .yaws
        .iter()
        .map(|y| y.num / (y.den as i64) / 1000)
        .collect();
    assert_eq!(degrees, vec![0, 90, 180, 270]);
}

#[test]
fn single_image_keeps_caller_yaw() {
    let m = cube_mesh();
    let plan = frame_mesh(&m, InputFormat::Stl, 1, 0, 45_000, 1000).unwrap();
    assert!(!plan.yaw_ignored);
    assert_eq!(plan.yaws.len(), 1);
    assert_eq!(plan.yaws[0].num, 45_000);
    assert_eq!(plan.yaws[0].den, 1);
}

#[test]
fn zero_image_count_is_clamped_to_one() {
    let m = cube_mesh();
    let plan = frame_mesh(&m, InputFormat::Stl, 0, 0, 7_000, 1000).unwrap();
    assert_eq!(plan.yaws.len(), 1);
    assert_eq!(plan.yaws[0].num, 7_000);
}

#[test]
fn pitch_is_clamped_to_quarter_turn() {
    let m = cube_mesh();
    let plan = frame_mesh(&m, InputFormat::Stl, 1, 123_000, 0, 1000).unwrap();
    assert_eq!(plan.pitch_millideg, 90_000);
    let plan = frame_mesh(&m, InputFormat::Stl, 1, -123_000, 0, 1000).unwrap();
    assert_eq!(plan.pitch_millideg, -90_000);
    let plan = frame_mesh(&m, InputFormat::Stl, 1, 12_000, 0, 1000).unwrap();
    assert_eq!(plan.pitch_millideg, 12_000);
}

#[test]
fn degenerate_mesh_fails_framing() {
    // a single-point, zero-extent mesh must fail, never divide by zero
    let verts = vec![v(500, 500, 500)];
    let faces = vec![IndexTriple { a: 0, b: 0, c: 0 }];
    let m = mesh_from_indexed(verts, &faces).unwrap();
    let err = frame_mesh(&m, InputFormat::Stl, 1, 0, 0, 1000).unwrap_err();
    assert_eq!(err.kind, ErrorKind::DegenerateMesh);
}

#[test]
fn empty_mesh_fails_framing() {
    let m = mesh_from_indexed(vec![], &vec![]).unwrap();
    let err = frame_mesh(&m, InputFormat::Stl, 1, 0, 0, 1000).unwrap_err();
    assert_eq!(err.kind, ErrorKind::DegenerateMesh);
}

#[test]
fn aabb_round_trip_indexed_format() {
    let verts = vec![v(-3000, 7, 20), v(2000, -500, 9000), v(0, 4000, -1000)];
    let faces = vec![IndexTriple { a: 0, b: 1, c: 2 }];
    let raw_aabb = compute_aabb(&verts);
    let m = mesh_from_indexed(verts, &faces).unwrap();
    let derived_aabb = compute_aabb(&m.positions);
    assert_eq!(raw_aabb, derived_aabb);
    let a = derived_aabb.unwrap();
    assert_eq!(a.min, v(-3000, -500, -1000));
    assert_eq!(a.max, v(2000, 4000, 9000));
}

#[test]
fn second_run_skips_existing_output() {
    // whatever the first run saw, a second run without the overwrite
    // flag leaves the produced file untouched
    assert!(should_write_output(false, false));
    assert!(!should_write_output(true, false));
    assert!(should_write_output(true, true));
    assert!(should_write_output(false, true));
}
