use vstd::prelude::*;

use crate::error::{ErrorKind, ParseError};

verus! {

/// Coordinates are fixed-point: one unit of the source model is 1000 of
/// these. Every coordinate a mesh may hold stays within this bound, so that
/// bounding-box and framing arithmetic cannot overflow.
pub const COORD_LIMIT: i64 = 1_000_000_000_000;

/// A 3D position in fixed-point milli-units.
#[derive(Clone, Copy, Debug, PartialEq, Eq, Structural)]
pub struct Vec3Fix {
    pub x: i64,
    pub y: i64,
    pub z: i64,
}

pub open spec fn coord_in_range(v: Vec3Fix) -> bool {
    &&& -COORD_LIMIT <= v.x <= COORD_LIMIT
    &&& -COORD_LIMIT <= v.y <= COORD_LIMIT
    &&& -COORD_LIMIT <= v.z <= COORD_LIMIT
}

/// One triangle's three vertex indices into a position list.
#[derive(Clone, Copy, Debug, PartialEq, Eq, Structural)]
pub struct IndexTriple {
    pub a: usize,
    pub b: usize,
    pub c: usize,
}

/// The canonical triangle mesh: an ordered position list and an ordered
/// index list, three consecutive indices per triangle.
#[derive(Clone, Debug)]
pub struct Mesh {
    pub positions: Vec<Vec3Fix>,
    pub indices: Vec<usize>,
}

impl Mesh {
    /// The mesh invariant: the index count is a multiple of three, every
    /// index references an existing position, and every coordinate is in
    /// range.
    pub open spec fn wf(self) -> bool {
        &&& self.indices@.len() % 3 == 0
        &&& forall|i: int|
            0 <= i < self.indices@.len() ==> self.indices@[i] < self.positions@.len()
        &&& forall|i: int| 0 <= i < self.positions@.len() ==> coord_in_range(self.positions@[i])
    }
}

/// An axis-aligned bounding box.
#[derive(Clone, Copy, Debug, PartialEq, Eq, Structural)]
pub struct Aabb {
    pub min: Vec3Fix,
    pub max: Vec3Fix,
}

pub open spec fn aabb_contains(a: Aabb, v: Vec3Fix) -> bool {
    &&& a.min.x <= v.x <= a.max.x
    &&& a.min.y <= v.y <= a.max.y
    &&& a.min.z <= v.z <= a.max.z
}

/// `a` is the bounding box of `s`: it contains every point and each of its
/// six bounds is attained by some point.
pub open spec fn is_aabb_of(a: Aabb, s: Seq<Vec3Fix>) -> bool {
    &&& forall|i: int| 0 <= i < s.len() ==> aabb_contains(a, s[i])
    &&& exists|i: int| 0 <= i < s.len() && s[i].x == a.min.x
    &&& exists|i: int| 0 <= i < s.len() && s[i].y == a.min.y
    &&& exists|i: int| 0 <= i < s.len() && s[i].z == a.min.z
    &&& exists|i: int| 0 <= i < s.len() && s[i].x == a.max.x
    &&& exists|i: int| 0 <= i < s.len() && s[i].y == a.max.y
    &&& exists|i: int| 0 <= i < s.len() && s[i].z == a.max.z
}

/// Compute the bounding box of a position list; `None` exactly when the
/// list is empty.
pub fn compute_aabb(positions: &Vec<Vec3Fix>) -> (r: Option<Aabb>)
    ensures
        r is None <==> positions@.len() == 0,
        r matches Some(a) ==> is_aabb_of(a, positions@),
{
    if positions.len() == 0 {
        return None;
    }
    let first = positions[0];
    let mut a = Aabb { min: first, max: first };
    let mut i: usize = 1;
    proof {
        assert(positions@.subrange(0, 1)[0] == first);
    }
    while i < positions.len()
        invariant
            1 <= i <= positions@.len(),
            is_aabb_of(a, positions@.subrange(0, i as int)),
        decreases positions@.len() - i,
    {
        let p = positions[i];
        let ghost prev = a;
        if p.x < a.min.x {
            a.min.x = p.x;
        }
        if p.y < a.min.y {
            a.min.y = p.y;
        }
        if p.z < a.min.z {
            a.min.z = p.z;
        }
        if p.x > a.max.x {
            a.max.x = p.x;
        }
        if p.y > a.max.y {
            a.max.y = p.y;
        }
        if p.z > a.max.z {
            a.max.z = p.z;
        }
        proof {
            let s0 = positions@.subrange(0, i as int);
            let s1 = positions@.subrange(0, i + 1 as int);
            assert(s1 =~= s0.push(p));
            assert forall|j: int| 0 <= j < s1.len() implies aabb_contains(a, s1[j]) by {
                if j < i {
                    assert(aabb_contains(prev, s0[j]));
                }
            }
            if p.x < prev.min.x {
                assert(s1[i as int].x == a.min.x);
            } else {
                let j = choose|j: int| 0 <= j < s0.len() && s0[j].x == prev.min.x;
                assert(s1[j].x == a.min.x);
            }
            if p.y < prev.min.y {
                assert(s1[i as int].y == a.min.y);
            } else {
                let j = choose|j: int| 0 <= j < s0.len() && s0[j].y == prev.min.y;
                assert(s1[j].y == a.min.y);
            }
            if p.z < prev.min.z {
                assert(s1[i as int].z == a.min.z);
            } else {
                let j = choose|j: int| 0 <= j < s0.len() && s0[j].z == prev.min.z;
                assert(s1[j].z == a.min.z);
            }
            if p.x > prev.max.x {
                assert(s1[i as int].x == a.max.x);
            } else {
                let j = choose|j: int| 0 <= j < s0.len() && s0[j].x == prev.max.x;
                assert(s1[j].x == a.max.x);
            }
            if p.y > prev.max.y {
                assert(s1[i as int].y == a.max.y);
            } else {
                let j = choose|j: int| 0 <= j < s0.len() && s0[j].y == prev.max.y;
                assert(s1[j].y == a.max.y);
            }
            if p.z > prev.max.z {
                assert(s1[i as int].z == a.max.z);
            } else {
                let j = choose|j: int| 0 <= j < s0.len() && s0[j].z == prev.max.z;
                assert(s1[j].z == a.max.z);
            }
        }
        i = i + 1;
    }
    proof {
        assert(positions@.subrange(0, positions@.len() as int) =~= positions@);
    }
    Some(a)
}

/// A position list has at most one bounding box.
pub proof fn lemma_aabb_unique(a1: Aabb, a2: Aabb, s: Seq<Vec3Fix>)
    requires
        is_aabb_of(a1, s),
        is_aabb_of(a2, s),
    ensures
        a1 == a2,
{
}

/// Round trip of the indexed-triangle format: the bounding box derived
/// from the parsed mesh equals the bounding box computed independently
/// from the raw vertex list the parser consumed.
pub proof fn lemma_indexed_aabb_round_trip(verts: Seq<Vec3Fix>, m: Mesh, raw: Aabb, derived: Aabb)
    requires
        m.positions@ == verts,
        is_aabb_of(raw, verts),
        is_aabb_of(derived, m.positions@),
    ensures
        raw == derived,
{
    lemma_aabb_unique(raw, derived, verts);
}

/// Build the canonical mesh of the indexed-triangle format: the positions
/// are the source vertex list unchanged and the indices are the face
/// triples flattened in order. Fails with `MalformedInput` exactly when a
/// face references a missing vertex or a coordinate is out of range.
pub fn mesh_from_indexed(vertices: Vec<Vec3Fix>, faces: &Vec<IndexTriple>) -> (r: Result<
    Mesh,
    ParseError,
>)
    ensures
        r matches Ok(m) ==> {
            &&& m.wf()
            &&& m.positions@ == vertices@
            &&& m.indices@ == flatten_triples(faces@)
        },
        r is Ok <==> faces_in_bounds(faces@, vertices@.len() as int) && all_coords_in_range(
            vertices@,
        ),
        r matches Err(e) ==> e.kind == ErrorKind::MalformedInput,
{
    if !coords_in_range(&vertices) {
        return Err(ParseError::with_detail(
            ErrorKind::MalformedInput,
            "vertex coordinate out of range",
        ));
    }
    let mut indices: Vec<usize> = Vec::new();
    let mut i: usize = 0;
    while i < faces.len()
        invariant
            0 <= i <= faces@.len(),
            faces_in_bounds(faces@.subrange(0, i as int), vertices@.len() as int),
            indices@ == flatten_triples(faces@.subrange(0, i as int)),
        decreases faces@.len() - i,
    {
        let f = faces[i];
        if f.a >= vertices.len() || f.b >= vertices.len() || f.c >= vertices.len() {
            proof {
                assert(faces@[i as int] == f);
            }
            return Err(ParseError::with_detail(
                ErrorKind::MalformedInput,
                "face index out of bounds",
            ));
        }
        indices.push(f.a);
        indices.push(f.b);
        indices.push(f.c);
        proof {
            assert(faces@.subrange(0, i + 1 as int) =~= faces@.subrange(0, i as int).push(
                faces@[i as int],
            ));
            lemma_flatten_push(faces@.subrange(0, i as int), faces@[i as int]);
        }
        i = i + 1;
    }
    proof {
        assert(faces@.subrange(0, faces@.len() as int) =~= faces@);
        lemma_flatten_wf(faces@, vertices@.len() as int);
    }
    Ok(Mesh { positions: vertices, indices })
}

/// Every face references only existing vertices.
pub open spec fn faces_in_bounds(faces: Seq<IndexTriple>, n: int) -> bool {
    forall|i: int| 0 <= i < faces.len() ==> faces[i].a < n && faces[i].b < n && faces[i].c < n
}

pub open spec fn all_coords_in_range(s: Seq<Vec3Fix>) -> bool {
    forall|i: int| 0 <= i < s.len() ==> coord_in_range(s[i])
}

/// The face triples laid out flat, three indices per triangle.
pub open spec fn flatten_triples(faces: Seq<IndexTriple>) -> Seq<usize>
    decreases faces.len(),
{
    if faces.len() == 0 {
        Seq::empty()
    } else {
        flatten_triples(faces.drop_last()) + seq![
            faces.last().a,
            faces.last().b,
            faces.last().c,
        ]
    }
}

proof fn lemma_flatten_push(faces: Seq<IndexTriple>, f: IndexTriple)
    ensures
        flatten_triples(faces.push(f)) == flatten_triples(faces) + seq![f.a, f.b, f.c],
{
    assert(faces.push(f).drop_last() =~= faces);
    assert(faces.push(f).last() == f);
}

proof fn lemma_flatten_wf(faces: Seq<IndexTriple>, n: int)
    requires
        faces_in_bounds(faces, n),
    ensures
        flatten_triples(faces).len() == 3 * faces.len(),
        flatten_triples(faces).len() % 3 == 0,
        forall|i: int|
            0 <= i < flatten_triples(faces).len() ==> (#[trigger] flatten_triples(faces)[i]) < n,
    decreases faces.len(),
{
    if faces.len() > 0 {
        lemma_flatten_wf(faces.drop_last(), n);
        assert(faces.last() == faces[faces.len() - 1]);
    }
}

/// Check that every coordinate of every position is within `COORD_LIMIT`.
pub fn coords_in_range(s: &Vec<Vec3Fix>) -> (r: bool)
    ensures
        r == all_coords_in_range(s@),
{
    let mut i: usize = 0;
    while i < s.len()
        invariant
            0 <= i <= s@.len(),
            forall|j: int| 0 <= j < i ==> coord_in_range(s@[j]),
        decreases s@.len() - i,
    {
        let p = s[i];
        if p.x < -COORD_LIMIT || p.x > COORD_LIMIT || p.y < -COORD_LIMIT || p.y > COORD_LIMIT
            || p.z < -COORD_LIMIT || p.z > COORD_LIMIT {
            return false;
        }
        i = i + 1;
    }
    true
}

} // verus!
