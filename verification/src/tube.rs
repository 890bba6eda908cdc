use vstd::prelude::*;

use crate::archive::{
    entries_readable_upto, extract_entry, first_match_at, lemma_first_match_unique,
    no_entry_matches, zip_entry_data, zip_entry_names, zip_opens,
};
use crate::bytestr::ends_with;
use crate::error::{ErrorKind, ParseError};
use crate::format::{gcode_suffix, gcode_suffix_bytes};
use crate::mesh::{coord_in_range, Mesh, Vec3Fix};
use crate::toolpath::{
    initial_state, parse_toolpath, point_in_gcode_range, run_toolpath, ToolpathPoint,
    GCODE_COORD_LIMIT,
};

verus! {

/// The fixed tube radius, in milli-units: small and independent of the
/// segment length.
pub const TUBE_RADIUS: i64 = 200;

/// The largest integer whose square does not exceed `n`.
pub open spec fn int_sqrt(n: int) -> int
    decreases n,
{
    if n <= 0 {
        0
    } else {
        let r = int_sqrt(n - 1);
        if (r + 1) * (r + 1) <= n {
            r + 1
        } else {
            r
        }
    }
}

pub proof fn lemma_int_sqrt_bounds(n: int)
    requires
        n >= 0,
    ensures
        0 <= int_sqrt(n),
        int_sqrt(n) * int_sqrt(n) <= n,
        (int_sqrt(n) + 1) * (int_sqrt(n) + 1) > n,
    decreases n,
{
    if n > 0 {
        lemma_int_sqrt_bounds(n - 1);
        let r = int_sqrt(n - 1);
        if (r + 1) * (r + 1) <= n {
            assert((r + 2) * (r + 2) > n) by (nonlinear_arith)
                requires
                    r >= 0,
                    (r + 1) * (r + 1) > n - 1,
                    (r + 1) * (r + 1) <= n,
            ;
        }
    }
}

/// Any integer with the square-root bracketing property is the integer
/// square root.
pub proof fn lemma_int_sqrt_unique(n: int, r: int)
    requires
        n >= 0,
        r >= 0,
        r * r <= n,
        (r + 1) * (r + 1) > n,
    ensures
        r == int_sqrt(n),
{
    lemma_int_sqrt_bounds(n);
    let s = int_sqrt(n);
    if r < s {
        assert((r + 1) * (r + 1) <= s * s) by (nonlinear_arith)
            requires
                0 <= r,
                r + 1 <= s,
        ;
    }
    if s < r {
        assert((s + 1) * (s + 1) <= r * r) by (nonlinear_arith)
            requires
                0 <= s,
                s + 1 <= r,
        ;
    }
}

/// Integer square root by binary search.
fn isqrt64(n: u64) -> (r: u64)
    ensures
        r as int == int_sqrt(n as int),
        r * r <= n,
{
    let mut lo: u64 = 0;
    let mut hi: u64 = 4294967295;
    proof {
        assert((hi + 1) * (hi + 1) > n as int) by (nonlinear_arith)
            requires
                hi == 4294967295u64,
                n <= u64::MAX,
        ;
    }
    while lo < hi
        invariant
            0 <= lo <= hi <= 4294967295,
            (lo as int) * (lo as int) <= n as int,
            ((hi as int) + 1) * ((hi as int) + 1) > n as int,
        decreases hi - lo,
    {
        let mid = lo + (hi - lo + 1) / 2;
        proof {
            assert((mid as int) * (mid as int) < 18446744073709551616int) by (nonlinear_arith)
                requires
                    0 <= mid <= 4294967295int,
            ;
        }
        if mid * mid <= n {
            lo = mid;
        } else {
            hi = mid - 1;
        }
    }
    proof {
        lemma_int_sqrt_unique(n as int, lo as int);
    }
    lo
}

/// Sign-aware scaling: `a * num / den`, rounding the magnitude down.
pub open spec fn sdiv(a: int, num: int, den: int) -> int {
    if a >= 0 {
        (a * num) / den
    } else {
        -((-a * num) / den)
    }
}

pub open spec fn clamp(v: int, b: int) -> int {
    if v < -b {
        -b
    } else if v > b {
        b
    } else {
        v
    }
}

/// Sign-aware scaling of a bounded value; the result's magnitude never
/// exceeds the scaled magnitude of the input.
fn sdiv_i64(a: i64, num: i64, den: i64) -> (r: i64)
    requires
        1 <= den,
        0 <= num <= 1000,
        -2_000_000_000 <= a <= 2_000_000_000,
    ensures
        r as int == sdiv(a as int, num as int, den as int),
        a >= 0 ==> 0 <= r <= (a as int) * (num as int),
        a < 0 ==> (a as int) * (num as int) <= r <= 0,
        -2_000_000_000_000 <= r <= 2_000_000_000_000,
{
    let m: i64 = if a >= 0 {
        a
    } else {
        -a
    };
    proof {
        assert((m as int) * (num as int) <= 2_000_000_000_000int) by (nonlinear_arith)
            requires
                0 <= m <= 2_000_000_000int,
                0 <= num <= 1000int,
        ;
        assert((m as int) * (num as int) >= 0) by (nonlinear_arith)
            requires
                0 <= m,
                0 <= num,
        ;
    }
    let p = (m as u64) * (num as u64);
    let q = p / (den as u64);
    proof {
        vstd::arithmetic::div_mod::lemma_div_nonincreasing(p as int, den as int);
        if a < 0 {
            assert(-((-(a as int)) * (num as int)) == (a as int) * (num as int))
                by (nonlinear_arith);
        }
    }
    if a >= 0 {
        q as i64
    } else {
        -(q as i64)
    }
}

pub open spec fn clamp3(x: int, y: int, z: int, b: int) -> Vec3Fix {
    Vec3Fix { x: clamp(x, b) as i64, y: clamp(y, b) as i64, z: clamp(z, b) as i64 }
}

/// The radial frame of a segment: two vectors of roughly the tube radius,
/// both roughly perpendicular to the segment and to each other, computed
/// in fixed point. A degenerate direction falls back to the coordinate
/// axes.
pub open spec fn tube_frame(p1: Vec3Fix, p2: Vec3Fix) -> (Vec3Fix, Vec3Fix) {
    let dx = p2.x - p1.x;
    let dy = p2.y - p1.y;
    let dz = p2.z - p1.z;
    let n = int_sqrt(dx * dx + dy * dy + dz * dz);
    if n == 0 {
        (
            Vec3Fix { x: TUBE_RADIUS, y: 0, z: 0 },
            Vec3Fix { x: 0, y: TUBE_RADIUS, z: 0 },
        )
    } else {
        let du = clamp3(sdiv(dx, 1000, n), sdiv(dy, 1000, n), sdiv(dz, 1000, n), 1000);
        let (ux, uy, uz): (int, int, int) = if du.x == 0 && du.y == 0 {
            (0, du.z as int, -(du.y as int))
        } else {
            (du.y as int, -(du.x as int), 0)
        };
        let nu = int_sqrt(ux * ux + uy * uy + uz * uz);
        if nu == 0 {
            (
                Vec3Fix { x: TUBE_RADIUS, y: 0, z: 0 },
                Vec3Fix { x: 0, y: TUBE_RADIUS, z: 0 },
            )
        } else {
            let ur = clamp3(
                sdiv(ux, TUBE_RADIUS as int, nu),
                sdiv(uy, TUBE_RADIUS as int, nu),
                sdiv(uz, TUBE_RADIUS as int, nu),
                TUBE_RADIUS as int,
            );
            let vx = sdiv(du.y * ur.z - du.z * ur.y, 1, 1000);
            let vy = sdiv(du.z * ur.x - du.x * ur.z, 1, 1000);
            let vz = sdiv(du.x * ur.y - du.y * ur.x, 1, 1000);
            let nv = int_sqrt(vx * vx + vy * vy + vz * vz);
            if nv == 0 {
                (ur, Vec3Fix { x: 0, y: TUBE_RADIUS, z: 0 })
            } else {
                let vr = clamp3(
                    sdiv(vx, TUBE_RADIUS as int, nv),
                    sdiv(vy, TUBE_RADIUS as int, nv),
                    sdiv(vz, TUBE_RADIUS as int, nv),
                    TUBE_RADIUS as int,
                );
                (ur, vr)
            }
        }
    }
}

/// The radial offsets of one tube ring: the frame vector, and its
/// rotations by a third of a turn for three subdivisions, or its negation
/// for two.
pub open spec fn tube_offsets(p1: Vec3Fix, p2: Vec3Fix, k: int) -> Seq<Vec3Fix> {
    let uv = tube_frame(p1, p2);
    let u = uv.0;
    let v = uv.1;
    if k == 2 {
        seq![u, clamp3(-(u.x as int), -(u.y as int), -(u.z as int), 400)]
    } else {
        let hx = sdiv(-(u.x as int), 1, 2);
        let hy = sdiv(-(u.y as int), 1, 2);
        let hz = sdiv(-(u.z as int), 1, 2);
        let sx = sdiv(v.x as int, 866, 1000);
        let sy = sdiv(v.y as int, 866, 1000);
        let sz = sdiv(v.z as int, 866, 1000);
        seq![
            u,
            clamp3(hx + sx, hy + sy, hz + sz, 400),
            clamp3(hx - sx, hy - sy, hz - sz, 400),
        ]
    }
}

/// The tube's vertex ring at each endpoint: first the ring around the
/// segment's start, then the ring around its end.
pub open spec fn tube_positions(p1: Vec3Fix, p2: Vec3Fix, k: int) -> Seq<Vec3Fix> {
    let offs = tube_offsets(p1, p2, k);
    Seq::new(k as nat, |j: int| Vec3Fix {
        x: (p1.x + offs[j].x) as i64,
        y: (p1.y + offs[j].y) as i64,
        z: (p1.z + offs[j].z) as i64,
    }) + Seq::new(k as nat, |j: int| Vec3Fix {
        x: (p2.x + offs[j].x) as i64,
        y: (p2.y + offs[j].y) as i64,
        z: (p2.z + offs[j].z) as i64,
    })
}

/// The tube's side triangles: two per radial subdivision, as indices into
/// the mesh whose first ring vertex sits at `base`.
pub open spec fn tube_indices(base: int, k: int) -> Seq<usize> {
    Seq::new((6 * k) as nat, |t: int| {
        let q = t / 6;
        let r = t % 6;
        let a = q;
        let b = if q + 1 == k {
            0int
        } else {
            q + 1
        };
        let v = if r == 0 {
            base + a
        } else if r == 1 {
            base + b
        } else if r == 2 {
            base + k + a
        } else if r == 3 {
            base + b
        } else if r == 4 {
            base + k + b
        } else {
            base + k + a
        };
        v as usize
    })
}

/// A growing tessellation buffer is well-formed: indices reference
/// existing positions in triples, and coordinates are in range.
pub open spec fn buf_wf(pos: Seq<Vec3Fix>, ix: Seq<usize>) -> bool {
    &&& ix.len() % 3 == 0
    &&& forall|i: int| 0 <= i < ix.len() ==> #[trigger] ix[i] < pos.len()
    &&& forall|i: int| 0 <= i < pos.len() ==> coord_in_range(#[trigger] pos[i])
}

/// Compute the radial frame of a segment.
fn tube_frame_exec(p1: Vec3Fix, p2: Vec3Fix) -> (uv: (Vec3Fix, Vec3Fix))
    requires
        point_in_gcode_range(ToolpathPoint { pos: p1, draw: true }),
        point_in_gcode_range(ToolpathPoint { pos: p2, draw: true }),
    ensures
        (uv.0, uv.1) == tube_frame(p1, p2),
        -200 <= uv.0.x <= 200 && -200 <= uv.0.y <= 200 && -200 <= uv.0.z <= 200,
        -200 <= uv.1.x <= 200 && -200 <= uv.1.y <= 200 && -200 <= uv.1.z <= 200,
{
    let dx = p2.x - p1.x;
    let dy = p2.y - p1.y;
    let dz = p2.z - p1.z;
    let axs = square_u64(dx);
    let ays = square_u64(dy);
    let azs = square_u64(dz);
    let n64 = isqrt64(axs + ays + azs);
    if n64 == 0 {
        return (Vec3Fix { x: TUBE_RADIUS, y: 0, z: 0 }, Vec3Fix { x: 0, y: TUBE_RADIUS, z: 0 });
    }
    proof {
        assert(n64 * n64 <= axs + ays + azs);
        assert(n64 <= 4_000_000_000u64) by (nonlinear_arith)
            requires
                n64 * n64 <= axs + ays + azs,
                axs + ays + azs <= 12_000_000_000_000_000_000u64,
        ;
    }
    let n = n64 as i64;
    let dux = clamp_i64(sdiv_i64(dx, 1000, n), 1000);
    let duy = clamp_i64(sdiv_i64(dy, 1000, n), 1000);
    let duz = clamp_i64(sdiv_i64(dz, 1000, n), 1000);
    let (ux, uy, uz): (i64, i64, i64) = if dux == 0 && duy == 0 {
        (0, duz, -duy)
    } else {
        (duy, -dux, 0)
    };
    let uxs = square_u64(ux);
    let uys = square_u64(uy);
    let uzs = square_u64(uz);
    let nu64 = isqrt64(uxs + uys + uzs);
    if nu64 == 0 {
        return (Vec3Fix { x: TUBE_RADIUS, y: 0, z: 0 }, Vec3Fix { x: 0, y: TUBE_RADIUS, z: 0 });
    }
    proof {
        assert(nu64 * nu64 <= uxs + uys + uzs);
        assert(nu64 <= 4_000_000_000u64) by (nonlinear_arith)
            requires
                nu64 * nu64 <= uxs + uys + uzs,
                uxs + uys + uzs <= 12_000_000_000_000_000_000u64,
        ;
    }
    let nu = nu64 as i64;
    let urx = clamp_i64(sdiv_i64(ux, TUBE_RADIUS, nu), TUBE_RADIUS);
    let ury = clamp_i64(sdiv_i64(uy, TUBE_RADIUS, nu), TUBE_RADIUS);
    let urz = clamp_i64(sdiv_i64(uz, TUBE_RADIUS, nu), TUBE_RADIUS);
    let ur = Vec3Fix { x: urx, y: ury, z: urz };
    proof {
        mul_bound(duy as int, urz as int);
        mul_bound(duz as int, ury as int);
        mul_bound(duz as int, urx as int);
        mul_bound(dux as int, urz as int);
        mul_bound(dux as int, ury as int);
        mul_bound(duy as int, urx as int);
    }
    let vx = sdiv_i64(duy * ur.z - duz * ur.y, 1, 1000);
    let vy = sdiv_i64(duz * ur.x - dux * ur.z, 1, 1000);
    let vz = sdiv_i64(dux * ur.y - duy * ur.x, 1, 1000);
    let vxs = square_u64(vx);
    let vys = square_u64(vy);
    let vzs = square_u64(vz);
    let nv64 = isqrt64(vxs + vys + vzs);
    if nv64 == 0 {
        return (ur, Vec3Fix { x: 0, y: TUBE_RADIUS, z: 0 });
    }
    proof {
        assert(nv64 * nv64 <= vxs + vys + vzs);
        assert(nv64 <= 4_000_000_000u64) by (nonlinear_arith)
            requires
                nv64 * nv64 <= vxs + vys + vzs,
                vxs + vys + vzs <= 12_000_000_000_000_000_000u64,
        ;
    }
    let nv = nv64 as i64;
    let vrx = clamp_i64(sdiv_i64(vx, TUBE_RADIUS, nv), TUBE_RADIUS);
    let vry = clamp_i64(sdiv_i64(vy, TUBE_RADIUS, nv), TUBE_RADIUS);
    let vrz = clamp_i64(sdiv_i64(vz, TUBE_RADIUS, nv), TUBE_RADIUS);
    (ur, Vec3Fix { x: vrx, y: vry, z: vrz })
}

/// The square of a difference-sized value, as an unsigned 64-bit number.
fn square_u64(a: i64) -> (r: u64)
    requires
        -2_000_000_000 <= a <= 2_000_000_000,
    ensures
        r as int == (a as int) * (a as int),
        r <= 4_000_000_000_000_000_000u64,
{
    let m: u64 = if a >= 0 {
        a as u64
    } else {
        (-a) as u64
    };
    proof {
        assert((m as int) * (m as int) == (a as int) * (a as int)) by (nonlinear_arith)
            requires
                m as int == a as int || m as int == -(a as int),
        ;
        assert((m as int) * (m as int) <= 4_000_000_000_000_000_000int) by (nonlinear_arith)
            requires
                0 <= m as int <= 2_000_000_000int,
        ;
    }
    m * m
}

/// The product of a unit-scaled and a radius-scaled component stays
/// small.
proof fn mul_bound(a: int, b: int)
    requires
        -1000 <= a <= 1000,
        -200 <= b <= 200,
    ensures
        -200_000 <= a * b <= 200_000,
{
    assert(-200_000 <= a * b <= 200_000) by (nonlinear_arith)
        requires
            -1000 <= a <= 1000,
            -200 <= b <= 200,
    ;
}

/// Clamp a value into `[-b, b]`.
fn clamp_i64(v: i64, b: i64) -> (r: i64)
    requires
        0 <= b,
        i64::MIN < v,
    ensures
        r as int == clamp(v as int, b as int),
        -b <= r <= b,
{
    if v < -b {
        -b
    } else if v > b {
        b
    } else {
        v
    }
}

/// Append one tube spanning `p1` to `p2` to the tessellation buffer.
#[verifier::rlimit(30)]
fn add_tube(pos: &mut Vec<Vec3Fix>, ix: &mut Vec<usize>, p1: Vec3Fix, p2: Vec3Fix, k: usize)
    requires
        k == 2 || k == 3,
        point_in_gcode_range(ToolpathPoint { pos: p1, draw: true }),
        point_in_gcode_range(ToolpathPoint { pos: p2, draw: true }),
        buf_wf(old(pos)@, old(ix)@),
    ensures
        buf_wf(final(pos)@, final(ix)@),
        final(pos)@ == old(pos)@ + tube_positions(p1, p2, k as int),
        final(ix)@ == old(ix)@ + tube_indices(old(pos)@.len() as int, k as int),
{
    let uv = tube_frame_exec(p1, p2);
    let u = uv.0;
    let v = uv.1;
    let mut offs: Vec<Vec3Fix> = Vec::new();
    offs.push(u);
    if k == 2 {
        offs.push(Vec3Fix { x: clamp_i64(-u.x, 400), y: clamp_i64(-u.y, 400), z: clamp_i64(-u.z, 400) });
    } else {
        let hx = sdiv_i64(-u.x, 1, 2);
        let hy = sdiv_i64(-u.y, 1, 2);
        let hz = sdiv_i64(-u.z, 1, 2);
        let sx = sdiv_i64(v.x, 866, 1000);
        let sy = sdiv_i64(v.y, 866, 1000);
        let sz = sdiv_i64(v.z, 866, 1000);
        offs.push(Vec3Fix {
            x: clamp_i64(hx + sx, 400),
            y: clamp_i64(hy + sy, 400),
            z: clamp_i64(hz + sz, 400),
        });
        offs.push(Vec3Fix {
            x: clamp_i64(hx - sx, 400),
            y: clamp_i64(hy - sy, 400),
            z: clamp_i64(hz - sz, 400),
        });
    }
    proof {
        assert(offs@ =~= tube_offsets(p1, p2, k as int));
        assert(forall|j: int|
            0 <= j < offs@.len() ==> -400 <= (#[trigger] offs@[j]).x <= 400 && -400 <= offs@[j].y
                <= 400 && -400 <= offs@[j].z <= 400);
    }
    let base = pos.len();
    let ghost pos0 = pos@;
    let ghost ix0 = ix@;
    let mut j: usize = 0;
    while j < k
        invariant
            0 <= j <= k,
            k == 2 || k == 3,
            offs@ == tube_offsets(p1, p2, k as int),
            offs@.len() == k,
            forall|t: int|
                0 <= t < offs@.len() ==> -400 <= (#[trigger] offs@[t]).x <= 400 && -400
                    <= offs@[t].y <= 400 && -400 <= offs@[t].z <= 400,
            point_in_gcode_range(ToolpathPoint { pos: p1, draw: true }),
            pos@ == pos0 + Seq::new(j as nat, |t: int| Vec3Fix {
                x: (p1.x + offs@[t].x) as i64,
                y: (p1.y + offs@[t].y) as i64,
                z: (p1.z + offs@[t].z) as i64,
            }),
        decreases k - j,
    {
        let o = offs[j];
        pos.push(Vec3Fix { x: p1.x + o.x, y: p1.y + o.y, z: p1.z + o.z });
        proof {
            assert(pos@ =~= pos0 + Seq::new((j + 1) as nat, |t: int| Vec3Fix {
                x: (p1.x + offs@[t].x) as i64,
                y: (p1.y + offs@[t].y) as i64,
                z: (p1.z + offs@[t].z) as i64,
            }));
        }
        j = j + 1;
    }
    let ghost pos1 = pos@;
    let mut j2: usize = 0;
    while j2 < k
        invariant
            0 <= j2 <= k,
            k == 2 || k == 3,
            offs@ == tube_offsets(p1, p2, k as int),
            offs@.len() == k,
            forall|t: int|
                0 <= t < offs@.len() ==> -400 <= (#[trigger] offs@[t]).x <= 400 && -400
                    <= offs@[t].y <= 400 && -400 <= offs@[t].z <= 400,
            point_in_gcode_range(ToolpathPoint { pos: p2, draw: true }),
            pos@ == pos1 + Seq::new(j2 as nat, |t: int| Vec3Fix {
                x: (p2.x + offs@[t].x) as i64,
                y: (p2.y + offs@[t].y) as i64,
                z: (p2.z + offs@[t].z) as i64,
            }),
        decreases k - j2,
    {
        let o = offs[j2];
        pos.push(Vec3Fix { x: p2.x + o.x, y: p2.y + o.y, z: p2.z + o.z });
        proof {
            assert(pos@ =~= pos1 + Seq::new((j2 + 1) as nat, |t: int| Vec3Fix {
                x: (p2.x + offs@[t].x) as i64,
                y: (p2.y + offs@[t].y) as i64,
                z: (p2.z + offs@[t].z) as i64,
            }));
        }
        j2 = j2 + 1;
    }
    proof {
        assert(pos@ =~= pos0 + tube_positions(p1, p2, k as int));
        assert(ix@ =~= ix0 + tube_indices(base as int, k as int).subrange(0, 0));
        assert(pos.len() == pos@.len());
        assert(tube_positions(p1, p2, k as int).len() == 2 * k);
    }
    let mut q: usize = 0;
    while q < k
        invariant
            0 <= q <= k,
            k == 2 || k == 3,
            base + 2 * k <= pos@.len(),
            pos@.len() <= usize::MAX,
            base == pos0.len(),
            ix@ == ix0 + tube_indices(base as int, k as int).subrange(0, 6 * q as int),
        decreases k - q,
    {
        let b: usize = if q + 1 == k {
            0
        } else {
            q + 1
        };
        ix.push(base + q);
        ix.push(base + b);
        ix.push(base + k + q);
        ix.push(base + b);
        ix.push(base + k + b);
        ix.push(base + k + q);
        proof {
            let full = tube_indices(base as int, k as int);
            assert forall|t: int| 6 * q <= t < 6 * (q + 1) implies full[t] == ix@[ix0.len() + t] by {
                assert(t / 6 == q && 0 <= t % 6 < 6) by (nonlinear_arith)
                    requires
                        6 * q <= t < 6 * (q + 1),
                        0 <= q,
                ;
            }
            assert(ix@ =~= ix0 + full.subrange(0, 6 * (q + 1) as int));
        }
        q = q + 1;
    }
    proof {
        assert(tube_indices(base as int, k as int).subrange(0, 6 * k as int) =~= tube_indices(
            base as int,
            k as int,
        ));
        assert forall|i: int| 0 <= i < ix@.len() implies #[trigger] ix@[i] < pos@.len() by {
            if i < ix0.len() {
                assert(ix0[i] < pos0.len());
            } else {
                assert(ix@[i] == tube_indices(base as int, k as int)[i - ix0.len()]);
            }
        }
        assert(buf_wf(pos@, ix@));
    }
}

/// The radial subdivision count: finer for ordinary toolpaths, coarser
/// for very large ones.
pub open spec fn spec_subdivisions(n: int) -> int {
    if n < 1000000 {
        3
    } else {
        2
    }
}

/// The tessellation of the first `i` points: one independent tube per
/// consecutive pair whose second point draws; segments are not welded.
pub open spec fn tubes_upto(pts: Seq<ToolpathPoint>, k: int, i: int) -> (Seq<Vec3Fix>, Seq<usize>)
    decreases i,
{
    if i <= 1 {
        (Seq::empty(), Seq::empty())
    } else {
        let prev = tubes_upto(pts, k, i - 1);
        if pts[i - 1].draw {
            (
                prev.0 + tube_positions(pts[i - 2].pos, pts[i - 1].pos, k),
                prev.1 + tube_indices(prev.0.len() as int, k),
            )
        } else {
            prev
        }
    }
}

/// Tessellate a toolpath into the canonical mesh: one tube per drawn
/// segment, each indexed relative to the vertices accumulated so far.
pub fn tessellate_toolpath(pts: &Vec<ToolpathPoint>) -> (m: Mesh)
    requires
        forall|i: int| 0 <= i < pts@.len() ==> point_in_gcode_range(#[trigger] pts@[i]),
    ensures
        m.wf(),
        ({
            let k = spec_subdivisions(pts@.len() as int);
            &&& m.positions@ == tubes_upto(pts@, k, pts@.len() as int).0
            &&& m.indices@ == tubes_upto(pts@, k, pts@.len() as int).1
        }),
{
    let k: usize = if pts.len() < 1000000 {
        3
    } else {
        2
    };
    let mut pos: Vec<Vec3Fix> = Vec::new();
    let mut ix: Vec<usize> = Vec::new();
    if pts.len() == 0 {
        let m = Mesh { positions: pos, indices: ix };
        return m;
    }
    let mut i: usize = 1;
    while i < pts.len()
        invariant
            1 <= i <= pts@.len(),
            k == spec_subdivisions(pts@.len() as int),
            k == 2 || k == 3,
            forall|t: int| 0 <= t < pts@.len() ==> point_in_gcode_range(#[trigger] pts@[t]),
            buf_wf(pos@, ix@),
            (pos@, ix@) == tubes_upto(pts@, k as int, i as int),
        decreases pts@.len() - i,
    {
        if pts[i].draw {
            add_tube(&mut pos, &mut ix, pts[i - 1].pos, pts[i].pos, k);
        }
        i = i + 1;
    }
    let m = Mesh { positions: pos, indices: ix };
    proof {
        assert(m.wf());
    }
    m
}

/// What the toolpath pipeline returns for given input bytes: malformed
/// input is rejected, fewer than three collected points hold no
/// geometry, and otherwise the tessellated mesh comes back exactly.
pub open spec fn spec_gcode_result(bytes: Seq<u8>, r: Result<Mesh, ParseError>) -> bool {
    match run_toolpath(bytes, 0, initial_state()) {
        None => r matches Err(e) && e.kind == ErrorKind::MalformedInput,
        Some(st) => if st.pts.len() <= 2 {
            r matches Err(e) && e.kind == ErrorKind::NoGeometryFound
        } else {
            r matches Ok(m) && m.wf() && ({
                let k = spec_subdivisions(st.pts.len() as int);
                m.positions@ == tubes_upto(st.pts, k, st.pts.len() as int).0 && m.indices@
                    == tubes_upto(st.pts, k, st.pts.len() as int).1
            })
        },
    }
}

/// Parse a toolpath file and tessellate it: the complete toolpath
/// pipeline on raw bytes.
pub fn parse_gcode(data: &[u8]) -> (r: Result<Mesh, ParseError>)
    ensures
        spec_gcode_result(data@, r),
{
    let pts = match parse_toolpath(data) {
        Ok(pts) => pts,
        Err(e) => {
            return Err(e);
        },
    };
    Ok(tessellate_toolpath(&pts))
}

/// Extract the toolpath entry from a zip container and parse it: the
/// archived variant of the toolpath pipeline. When the container opens
/// and the entries up to the first matching one are retrievable, the
/// result is exactly the parse of that entry's bytes; when it opens, all
/// entries are retrievable and none matches, the result is
/// `ArchiveEntryNotFound`.
pub fn parse_gcode_zip(data: &[u8]) -> (r: Result<Mesh, ParseError>)
    ensures
        r matches Ok(m) ==> exists|i: int|
            #[trigger] first_match_at(data@, gcode_suffix(), i) && spec_gcode_result(
                zip_entry_data(data@, i),
                r,
            ),
        forall|i: int|
            zip_opens(data@) && #[trigger] first_match_at(data@, gcode_suffix(), i)
                && entries_readable_upto(data@, i) ==> spec_gcode_result(
                zip_entry_data(data@, i),
                r,
            ),
        zip_opens(data@) && entries_readable_upto(data@, zip_entry_names(data@).len() - 1)
            && no_entry_matches(data@, gcode_suffix()) ==> (r matches Err(e) && e.kind
            == ErrorKind::ArchiveEntryNotFound),
        r matches Err(e) ==> e.kind == ErrorKind::ReadError || e.kind
            == ErrorKind::ArchiveEntryNotFound || e.kind == ErrorKind::MalformedInput || e.kind
            == ErrorKind::NoGeometryFound,
        r matches Err(e) && e.kind == ErrorKind::ArchiveEntryNotFound ==> no_entry_matches(
            data@,
            gcode_suffix(),
        ),
{
    let suffix = gcode_suffix_bytes();
    proof {
        assert(suffix@ == gcode_suffix());
    }
    let inner = match extract_entry(data, suffix.as_slice()) {
        Ok(content) => content,
        Err(e) => {
            proof {
                assert forall|i0: int|
                    !(zip_opens(data@) && #[trigger] first_match_at(data@, gcode_suffix(), i0)
                        && entries_readable_upto(data@, i0)) by {
                    if zip_opens(data@) && first_match_at(data@, gcode_suffix(), i0)
                        && entries_readable_upto(data@, i0) {
                        assert(first_match_at(data@, suffix@, i0));
                    }
                }
            }
            return Err(e);
        },
    };
    let ghost iw = choose|i: int|
        #[trigger] first_match_at(data@, suffix@, i) && inner@ == zip_entry_data(data@, i);
    let r = parse_gcode(inner.as_slice());
    proof {
        assert(spec_gcode_result(zip_entry_data(data@, iw), r));
        assert(first_match_at(data@, gcode_suffix(), iw));
        assert forall|i0: int|
            zip_opens(data@) && #[trigger] first_match_at(data@, gcode_suffix(), i0)
                && entries_readable_upto(data@, i0) implies spec_gcode_result(
            zip_entry_data(data@, i0),
            r,
        ) by {
            lemma_first_match_unique(data@, gcode_suffix(), i0, iw);
        }
        assert(ends_with(zip_entry_names(data@)[iw], gcode_suffix()));
    }
    r
}

} // verus!
