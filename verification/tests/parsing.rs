use mesh_thumbnail::error::ErrorKind;
use mesh_thumbnail::facegroup::{assemble_face_objects, FaceGroup, FaceObject, FacePrimitive};
use mesh_thumbnail::format::{detect_format, InputFormat};
use mesh_thumbnail::mesh::{mesh_from_indexed, IndexTriple, Vec3Fix};
use mesh_thumbnail::package::{select_package_mesh, PackageObject};
use mesh_thumbnail::toolpath::parse_toolpath;
use mesh_thumbnail::tube::parse_gcode;

fn v(x: i64, y: i64, z: i64) -> Vec3Fix {
    Vec3Fix { x, y, z }
}

#[test]
fn detects_each_extension() {
    assert_eq!(detect_format(b"a/model.stl").unwrap(), InputFormat::Stl);
    assert_eq!(detect_format(b"a/model.3mf").unwrap(), InputFormat::ThreeMf);
    assert_eq!(detect_format(b"a/model.obj").unwrap(), InputFormat::Obj);
    assert_eq!(detect_format(b"a/model.gcode").unwrap(), InputFormat::Gcode);
    assert_eq!(detect_format(b"a/model.stl.zip").unwrap(), InputFormat::StlZip);
    assert_eq!(detect_format(b"a/model.obj.zip").unwrap(), InputFormat::ObjZip);
    assert_eq!(detect_format(b"a/model.gcode.zip").unwrap(), InputFormat::GcodeZip);
}

#[test]
fn unknown_extension_is_rejected() {
    let err = detect_format(b"a/model.txt").unwrap_err();
    assert_eq!(err.kind, ErrorKind::UnknownFormat);
    let err = detect_format(b"stl").unwrap_err();
    assert_eq!(err.kind, ErrorKind::UnknownFormat);
}

#[test]
fn indexed_minimal_mesh_is_well_formed() {
    let verts = vec![v(0, 0, 0), v(1000, 0, 0), v(0, 1000, 0)];
    let faces = vec![IndexTriple { a: 0, b: 1, c: 2 }];
    let m = mesh_from_indexed(verts, &faces).unwrap();
    assert_eq!(m.positions.len(), 3);
    assert_eq!(m.indices.len() % 3, 0);
    for &i in m.indices.iter() {
        assert!(i < m.positions.len());
    }
    assert_eq!(m.indices, vec![0, 1, 2]);
}

#[test]
fn indexed_rejects_out_of_bounds_face() {
    let verts = vec![v(0, 0, 0), v(1000, 0, 0)];
    let faces = vec![IndexTriple { a: 0, b: 1, c: 2 }];
    let err = mesh_from_indexed(verts, &faces).unwrap_err();
    assert_eq!(err.kind, ErrorKind::MalformedInput);
}

#[test]
fn indexed_rejects_out_of_range_coordinate() {
    let verts = vec![v(2_000_000_000_000, 0, 0)];
    let faces = vec![IndexTriple { a: 0, b: 0, c: 0 }];
    let err = mesh_from_indexed(verts, &faces).unwrap_err();
    assert_eq!(err.kind, ErrorKind::MalformedInput);
}

#[test]
fn face_group_minimal_object() {
    let obj = FaceObject {
        vertices: vec![v(0, 0, 0), v(1000, 0, 0), v(0, 1000, 0)],
        groups: vec![FaceGroup { shapes: vec![FacePrimitive::Triangle(0, 1, 2)] }],
    };
    let m = assemble_face_objects(&vec![obj]).unwrap();
    assert_eq!(m.positions.len(), 3);
    assert_eq!(m.indices, vec![0, 1, 2]);
    assert_eq!(m.indices.len() % 3, 0);
    for &i in m.indices.iter() {
        assert!(i < m.positions.len());
    }
}

#[test]
fn face_group_deduplicates_within_group() {
    // two triangles sharing two vertices: the shared ones appear once
    let obj = FaceObject {
        vertices: vec![v(0, 0, 0), v(1000, 0, 0), v(0, 1000, 0), v(1000, 1000, 0)],
        groups: vec![FaceGroup {
            shapes: vec![FacePrimitive::Triangle(0, 1, 2), FacePrimitive::Triangle(1, 3, 2)],
        }],
    };
    let m = assemble_face_objects(&vec![obj]).unwrap();
    assert_eq!(m.positions.len(), 4);
    assert_eq!(m.indices, vec![0, 1, 2, 1, 3, 2]);
}

#[test]
fn face_group_ignores_unsupported_primitives() {
    let obj = FaceObject {
        vertices: vec![v(0, 0, 0), v(1000, 0, 0), v(0, 1000, 0)],
        groups: vec![FaceGroup {
            shapes: vec![FacePrimitive::Unsupported, FacePrimitive::Triangle(0, 1, 2)],
        }],
    };
    let m = assemble_face_objects(&vec![obj]).unwrap();
    assert_eq!(m.indices.len(), 3);
}

#[test]
fn face_group_larger_object_wins() {
    let small = FaceObject {
        vertices: vec![v(0, 0, 0), v(1000, 0, 0), v(0, 1000, 0)],
        groups: vec![FaceGroup { shapes: vec![FacePrimitive::Triangle(0, 1, 2)] }],
    };
    let big = FaceObject {
        vertices: vec![v(0, 0, 5000), v(1000, 0, 5000), v(0, 1000, 5000), v(7, 7, 5000)],
        groups: vec![FaceGroup {
            shapes: vec![FacePrimitive::Triangle(0, 1, 2), FacePrimitive::Triangle(1, 2, 3)],
        }],
    };
    // the larger candidate wins whichever side it stands on, never a union
    let m1 = assemble_face_objects(&vec![small.clone(), big.clone()]).unwrap();
    assert_eq!(m1.indices.len(), 6);
    assert_eq!(m1.positions[0], v(0, 0, 5000));
    let m2 = assemble_face_objects(&vec![big, small]).unwrap();
    assert_eq!(m2.indices.len(), 6);
    assert_eq!(m2.positions[0], v(0, 0, 5000));
}

#[test]
fn face_group_tie_keeps_first_object() {
    let first = FaceObject {
        vertices: vec![v(1, 1, 1), v(1000, 0, 0), v(0, 1000, 0)],
        groups: vec![FaceGroup { shapes: vec![FacePrimitive::Triangle(0, 1, 2)] }],
    };
    let second = FaceObject {
        vertices: vec![v(2, 2, 2), v(1000, 0, 0), v(0, 1000, 0)],
        groups: vec![FaceGroup { shapes: vec![FacePrimitive::Triangle(0, 1, 2)] }],
    };
    let m = assemble_face_objects(&vec![first, second]).unwrap();
    assert_eq!(m.positions[0], v(1, 1, 1));
}

#[test]
fn face_group_empty_file_has_no_geometry() {
    let err = assemble_face_objects(&vec![]).unwrap_err();
    assert_eq!(err.kind, ErrorKind::NoGeometryFound);
}

#[test]
fn package_minimal_object() {
    let obj = PackageObject {
        vertices: vec![v(0, 0, 0), v(2000, 0, 0), v(0, 2000, 0)],
        triangles: vec![IndexTriple { a: 0, b: 1, c: 2 }],
    };
    let m = select_package_mesh(&vec![obj]).unwrap();
    assert_eq!(m.positions.len(), 3);
    assert_eq!(m.indices, vec![0, 1, 2]);
    assert_eq!(m.indices.len() % 3, 0);
    for &i in m.indices.iter() {
        assert!(i < m.positions.len());
    }
}

#[test]
fn package_larger_object_wins() {
    let small = PackageObject {
        vertices: vec![v(0, 0, 0), v(1000, 0, 0), v(0, 1000, 0)],
        triangles: vec![IndexTriple { a: 0, b: 1, c: 2 }],
    };
    let big = PackageObject {
        vertices: vec![v(9, 9, 9), v(1000, 0, 0), v(0, 1000, 0), v(5, 5, 5)],
        triangles: vec![IndexTriple { a: 0, b: 1, c: 2 }, IndexTriple { a: 1, b: 2, c: 3 }],
    };
    let m1 = select_package_mesh(&vec![small.clone(), big.clone()]).unwrap();
    assert_eq!(m1.indices.len(), 6);
    assert_eq!(m1.positions[0], v(9, 9, 9));
    let m2 = select_package_mesh(&vec![big, small]).unwrap();
    assert_eq!(m2.indices.len(), 6);
    assert_eq!(m2.positions[0], v(9, 9, 9));
}

#[test]
fn package_tie_keeps_first_object() {
    let first = PackageObject {
        vertices: vec![v(1, 1, 1), v(1000, 0, 0), v(0, 1000, 0)],
        triangles: vec![IndexTriple { a: 0, b: 1, c: 2 }],
    };
    let second = PackageObject {
        vertices: vec![v(2, 2, 2), v(1000, 0, 0), v(0, 1000, 0)],
        triangles: vec![IndexTriple { a: 0, b: 1, c: 2 }],
    };
    let m = select_package_mesh(&vec![first, second]).unwrap();
    assert_eq!(m.positions[0], v(1, 1, 1));
}

#[test]
fn package_empty_file_has_no_geometry() {
    let err = select_package_mesh(&vec![]).unwrap_err();
    assert_eq!(err.kind, ErrorKind::NoGeometryFound);
}

#[test]
fn toolpath_travel_then_draws_yields_tube() {
    let g = b"G1 X10 Y10\nG1 X10 Y10 E0.5\nG1 X10 Y20 E0.7\n";
    let m = parse_gcode(g).unwrap();
    // at least one tube: a ring of three vertices at each segment end
    assert!(m.positions.len() >= 6);
    assert_eq!(m.indices.len() % 3, 0);
    for &i in m.indices.iter() {
        assert!(i < m.positions.len());
    }
}

#[test]
fn toolpath_two_points_is_no_geometry() {
    let g = b"G1 X10 Y10 E0.5\nG1 X10 Y20 E0.7\n";
    let err = parse_gcode(g).unwrap_err();
    assert_eq!(err.kind, ErrorKind::NoGeometryFound);
}

#[test]
fn toolpath_axis_remap() {
    // a draw point at format coordinates X=5, Y=0 with running Z=3 maps
    // to render position (-5, 3, 0)
    let g = b"G1 Z3\nG1 X5 Y0 E1\nG1 X6 Y0 E1\nG1 X7 Y0 E1\n";
    let pts = parse_toolpath(g).unwrap();
    assert_eq!(pts[0].pos, v(-5000, 3000, 0));
    assert!(pts[0].draw);
}

#[test]
fn toolpath_travel_inserts_break_point() {
    let g = b"G1 X1 Y1 E1\nG1 X2 Y1 E1\nG1 X8 Y8\nG1 X9 Y8 E1\n";
    let pts = parse_toolpath(g).unwrap();
    // draw, draw, synthetic break at the travel destination, draw
    assert_eq!(pts.len(), 4);
    assert!(pts[0].draw);
    assert!(pts[1].draw);
    assert!(!pts[2].draw);
    assert_eq!(pts[2].pos, v(-8000, 0, 8000));
    assert!(pts[3].draw);
}

#[test]
fn toolpath_handles_carriage_returns() {
    let g = b"G1 X1 Y1 E1\r\nG1 X2 Y1 E1\r\nG1 X3 Y1 E1\r\n";
    let pts = parse_toolpath(g).unwrap();
    assert_eq!(pts.len(), 3);
    assert_eq!(pts[2].pos, v(-3000, 0, 1000));
}

#[test]
fn toolpath_bad_number_is_malformed() {
    let g = b"G1 X1..2 Y3 E1\nG1 X1 Y1 E1\nG1 X2 Y2 E1\nG1 X3 Y3 E1\n";
    let err = parse_gcode(g).unwrap_err();
    assert_eq!(err.kind, ErrorKind::MalformedInput);
}

#[test]
fn toolpath_fractional_coordinates() {
    let g = b"G1 Z0.5\nG1 X1.25 Y0 E1\nG1 X2.5 Y0 E1\nG1 X3 Y0 E1\n";
    let pts = parse_toolpath(g).unwrap();
    assert_eq!(pts[0].pos, v(-1250, 500, 0));
    assert_eq!(pts[1].pos, v(-2500, 500, 0));
}

#[test]
fn toolpath_accepts_g0_moves() {
    let g = b"G0 X1 Y1\nG1 X2 Y1 E1\nG1 X3 Y1 E1\nG1 X4 Y1 E1\n";
    let pts = parse_toolpath(g).unwrap();
    // the G0 travel flags the first draw with a synthetic break point
    assert_eq!(pts.len(), 4);
    assert!(!pts[0].draw);
    assert_eq!(pts[0].pos, v(-1000, 0, 1000));
}

#[test]
fn toolpath_extrusion_before_pair_is_travel() {
    // the draw pattern needs the extrusion after the coordinates; an E
    // ahead of them leaves a travel move
    let g = b"G1 E2 X1 Y1\nG1 X2 Y1 E1\nG1 X3 Y1 E1\nG1 X4 Y1 E1\n";
    let pts = parse_toolpath(g).unwrap();
    assert_eq!(pts.len(), 4);
    assert!(!pts[0].draw);
}

#[test]
fn toolpath_height_on_draw_line_applies_to_it() {
    let g = b"G1 Z2 X1 Y1 E1\nG1 X2 Y1 E1\nG1 X3 Y1 E1\n";
    let pts = parse_toolpath(g).unwrap();
    assert_eq!(pts[0].pos, v(-1000, 2000, 1000));
}

#[test]
fn toolpath_ignores_non_move_lines() {
    let g = b"; comment X1 Y2 E3\nM104 S200 X1 Y1\nG1 X1 Y1 E1\nG1 X2 Y1 E1\nG1 X3 Y1 E1\n";
    let pts = parse_toolpath(g).unwrap();
    assert_eq!(pts.len(), 3);
}
