use vstd::prelude::*;

use crate::error::{ErrorKind, ParseError};
use crate::format::InputFormat;
use crate::mesh::{compute_aabb, is_aabb_of, Aabb, Mesh, Vec3Fix};

verus! {

/// The fixed orientation correction a format family receives before the
/// centering translation.
#[derive(Clone, Copy, Debug, PartialEq, Eq, Structural)]
pub enum Orientation {
    /// Mesh-like formats: a 270-degree rotation about the X axis.
    RotateX270,
    /// Toolpath formats: a 180-degree rotation about the Y axis.
    RotateY180,
}

/// The orientation correction of a format family.
pub open spec fn spec_orientation(f: InputFormat) -> Orientation {
    match f {
        InputFormat::Gcode => Orientation::RotateY180,
        InputFormat::GcodeZip => Orientation::RotateY180,
        _ => Orientation::RotateX270,
    }
}

/// One rendered image's yaw, in millidegrees, as the exact rational
/// `num / den`.
#[derive(Clone, Copy, Debug, PartialEq, Eq, Structural)]
pub struct YawSpec {
    pub num: i64,
    pub den: u32,
}

/// The framing of one input mesh: everything the renderer needs that the
/// library can state exactly. The camera's trigonometry is left to the
/// caller, fed by these values.
#[derive(Clone, Debug)]
pub struct FramingPlan {
    /// Translation that centers the bounding box at the origin.
    pub translation: Vec3Fix,
    /// Per-format orientation correction, applied before the translation.
    pub orientation: Orientation,
    /// Squared camera magnitude: the squared bounding-box diagonal times
    /// the squared zoom scale, in milli^4.
    pub mag_sq: u128,
    /// The caller's pitch, clamped to a quarter turn either way.
    pub pitch_millideg: i64,
    /// One yaw per image to render.
    pub yaws: Vec<YawSpec>,
    /// Whether a caller-supplied yaw was dropped because several images
    /// were requested; a warning, never an error.
    pub yaw_ignored: bool,
}

/// Largest accepted zoom scale, in thousandths.
pub const MAX_ZOOM_MILLIS: u64 = 1_000_000;

/// The translation that moves the box's center to the origin, its
/// half-extent rounded down to whole milli-units.
pub open spec fn spec_centering(a: Aabb) -> Vec3Fix {
    Vec3Fix {
        x: (-(a.min.x + (a.max.x - a.min.x) / 2)) as i64,
        y: (-(a.min.y + (a.max.y - a.min.y) / 2)) as i64,
        z: (-(a.min.z + (a.max.z - a.min.z) / 2)) as i64,
    }
}

/// The squared framing magnitude: the squared extent diagonal scaled by
/// the squared zoom.
pub open spec fn spec_mag_sq(a: Aabb, zoom_millis: u64) -> int {
    let ex = a.max.x - a.min.x;
    let ey = a.max.y - a.min.y;
    let ez = a.max.z - a.min.z;
    (ex * ex + ey * ey + ez * ez) * (zoom_millis * zoom_millis)
}

pub open spec fn spec_clamp_pitch(p: int) -> int {
    if p < -90000 {
        -90000
    } else if p > 90000 {
        90000
    } else {
        p
    }
}

/// Compute the framing of a mesh: bounding box, centering translation,
/// orientation correction, camera magnitude, and the yaw of each of the
/// requested images. A request for zero images is clamped to one. With
/// more than one image the caller's yaw is dropped and the images are
/// spaced evenly around a full turn. Fails with `DegenerateMesh` exactly
/// when the mesh is empty or the magnitude vanishes.
pub fn frame_mesh(
    mesh: &Mesh,
    fmt: InputFormat,
    count: u32,
    pitch_millideg: i64,
    yaw_millideg: i64,
    zoom_millis: u64,
) -> (r: Result<FramingPlan, ParseError>)
    requires
        mesh.wf(),
        zoom_millis <= MAX_ZOOM_MILLIS,
    ensures
        r is Err <==> mesh.positions@.len() == 0 || (exists|a: Aabb|
            is_aabb_of(a, mesh.positions@) && spec_mag_sq(a, zoom_millis) == 0),
        r matches Err(e) ==> e.kind == ErrorKind::DegenerateMesh,
        r matches Ok(plan) ==> {
            let n = if count == 0 {
                1int
            } else {
                count as int
            };
            &&& exists|a: Aabb|
                is_aabb_of(a, mesh.positions@) && plan.translation == spec_centering(a)
                    && plan.mag_sq == spec_mag_sq(a, zoom_millis)
            &&& plan.mag_sq != 0
            &&& plan.orientation == spec_orientation(fmt)
            &&& plan.pitch_millideg == spec_clamp_pitch(pitch_millideg as int)
            &&& plan.yaws@.len() == n
            &&& (n == 1 ==> plan.yaws@[0] == YawSpec { num: yaw_millideg, den: 1u32 })
            &&& (n > 1 ==> forall|i: int|
                0 <= i < n ==> (#[trigger] plan.yaws@[i]).num == i * 360000 && plan.yaws@[i].den
                    == count)
            &&& plan.yaw_ignored == (n > 1 && yaw_millideg != 0)
        },
{
    let a = match compute_aabb(&mesh.positions) {
        Some(a) => a,
        None => {
            return Err(ParseError::with_detail(ErrorKind::DegenerateMesh, "mesh has no vertices"));
        },
    };
    proof {
        assert(aabb_in_range(a, mesh.positions@));
    }
    let ex = a.max.x - a.min.x;
    let ey = a.max.y - a.min.y;
    let ez = a.max.z - a.min.z;
    proof {
        lemma_sq_bound(ex as int);
        lemma_sq_bound(ey as int);
        lemma_sq_bound(ez as int);
    }
    let exq = (ex as u128) * (ex as u128);
    let eyq = (ey as u128) * (ey as u128);
    let ezq = (ez as u128) * (ez as u128);
    proof {
        assert((zoom_millis as int) * (zoom_millis as int) <= 1_000_000_000_000int)
            by (nonlinear_arith)
            requires
                0 <= zoom_millis as int <= 1_000_000int,
        ;
    }
    let zq = (zoom_millis as u128) * (zoom_millis as u128);
    proof {
        assert((exq + eyq + ezq) as int * (zq as int) <= 0x7fff_ffff_ffff_ffff_ffff_ffff_ffff_ffffint)
            by (nonlinear_arith)
            requires
                0 <= exq + eyq + ezq <= 48_000_000_000_000_000_000_000_000u128,
                0 <= zq <= 1_000_000_000_000u128,
        ;
    }
    let mag_sq = (exq + eyq + ezq) * zq;
    if mag_sq == 0 {
        proof {
            assert(spec_mag_sq(a, zoom_millis) == 0);
        }
        return Err(ParseError::with_detail(ErrorKind::DegenerateMesh, "zero bounding extent"));
    }
    let tx = -(a.min.x + ((ex as u64) / 2) as i64);
    let ty = -(a.min.y + ((ey as u64) / 2) as i64);
    let tz = -(a.min.z + ((ez as u64) / 2) as i64);
    let translation = Vec3Fix { x: tx, y: ty, z: tz };
    proof {
        assert(translation == spec_centering(a));
    }
    let orientation = match fmt {
        InputFormat::Gcode => Orientation::RotateY180,
        InputFormat::GcodeZip => Orientation::RotateY180,
        _ => Orientation::RotateX270,
    };
    let pitch = if pitch_millideg < -90000 {
        -90000
    } else if pitch_millideg > 90000 {
        90000
    } else {
        pitch_millideg
    };
    let n: u32 = if count == 0 {
        1
    } else {
        count
    };
    let mut yaws: Vec<YawSpec> = Vec::new();
    if n == 1 {
        yaws.push(YawSpec { num: yaw_millideg, den: 1 });
    } else {
        let mut i: u32 = 0;
        while i < n
            invariant
                0 <= i <= n,
                yaws@.len() == i,
                forall|j: int|
                    0 <= j < i ==> (#[trigger] yaws@[j]).num == j * 360000 && yaws@[j].den == n,
            decreases n - i,
        {
            proof {
                assert((i as int) * 360000 <= 4_294_967_295int * 360000int) by (nonlinear_arith)
                    requires
                        0 <= i as int <= 4_294_967_295int,
                ;
            }
            yaws.push(YawSpec { num: (i as i64) * 360000, den: n });
            i = i + 1;
        }
    }
    let yaw_ignored = n > 1 && yaw_millideg != 0;
    proof {
        assert forall|a2: Aabb| is_aabb_of(a2, mesh.positions@) implies spec_mag_sq(
            a2,
            zoom_millis,
        ) != 0 by {
            crate::mesh::lemma_aabb_unique(a2, a, mesh.positions@);
        }
    }
    Ok(
        FramingPlan {
            translation,
            orientation,
            mag_sq,
            pitch_millideg: pitch,
            yaws,
            yaw_ignored,
        },
    )
}

/// The bounds of a well-formed mesh's box lie within the coordinate
/// range.
pub open spec fn aabb_in_range(a: Aabb, s: Seq<Vec3Fix>) -> bool {
    is_aabb_of(a, s) && crate::mesh::coord_in_range(a.min) && crate::mesh::coord_in_range(a.max)
        && a.min.x <= a.max.x && a.min.y <= a.max.y && a.min.z <= a.max.z
}

/// The square of an extent stays within the bound the magnitude
/// computation needs.
proof fn lemma_sq_bound(e: int)
    requires
        0 <= e <= 2_000_000_000_000,
    ensures
        e * e <= 4_000_000_000_000_000_000_000_000int,
{
    assert(e * e <= 4_000_000_000_000_000_000_000_000int) by (nonlinear_arith)
        requires
            0 <= e <= 2_000_000_000_000int,
    ;
}

/// Centering moves the bounding box's center to the origin: after the
/// translation, the box's minimum and maximum sum to the extent's
/// remainder by two on each axis — exactly zero for even extents, one
/// milli-unit otherwise.
pub proof fn lemma_centering_centers(a: Aabb)
    requires
        a.min.x <= a.max.x,
        a.min.y <= a.max.y,
        a.min.z <= a.max.z,
        crate::mesh::coord_in_range(a.min),
        crate::mesh::coord_in_range(a.max),
    ensures
        (a.min.x + spec_centering(a).x) + (a.max.x + spec_centering(a).x) == (a.max.x - a.min.x)
            % 2,
        (a.min.y + spec_centering(a).y) + (a.max.y + spec_centering(a).y) == (a.max.y - a.min.y)
            % 2,
        (a.min.z + spec_centering(a).z) + (a.max.z + spec_centering(a).z) == (a.max.z - a.min.z)
            % 2,
{
    vstd::arithmetic::div_mod::lemma_fundamental_div_mod(a.max.x - a.min.x, 2);
    vstd::arithmetic::div_mod::lemma_fundamental_div_mod(a.max.y - a.min.y, 2);
    vstd::arithmetic::div_mod::lemma_fundamental_div_mod(a.max.z - a.min.z, 2);
}

/// Four requested images stand at yaw 0, 90, 180 and 270 degrees,
/// whatever yaw the caller supplied.
pub proof fn lemma_four_image_yaws(yaws: Seq<YawSpec>)
    requires
        yaws.len() == 4,
        forall|i: int| 0 <= i < 4 ==> (#[trigger] yaws[i]).num == i * 360000 && yaws[i].den == 4,
    ensures
        (yaws[0].num as int) / (yaws[0].den as int) == 0,
        (yaws[1].num as int) / (yaws[1].den as int) == 90000,
        (yaws[2].num as int) / (yaws[2].den as int) == 180000,
        (yaws[3].num as int) / (yaws[3].den as int) == 270000,
{
    assert(yaws[0].num == 0 * 360000);
    assert(yaws[1].num == 1 * 360000);
    assert(yaws[2].num == 2 * 360000);
    assert(yaws[3].num == 3 * 360000);
}

} // verus!
