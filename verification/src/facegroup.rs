use vstd::prelude::*;

use crate::error::{ErrorKind, ParseError};
use crate::mesh::{all_coords_in_range, coords_in_range, Mesh, Vec3Fix};

verus! {

/// One face-group shape: only triangles carry geometry, every other
/// primitive of the format is ignored.
#[derive(Clone, Copy, Debug, PartialEq, Eq, Structural)]
pub enum FacePrimitive {
    Triangle(usize, usize, usize),
    Unsupported,
}

/// One geometry group of a face-group object; each group deduplicates its
/// vertex references independently.
#[derive(Clone, Debug)]
pub struct FaceGroup {
    pub shapes: Vec<FacePrimitive>,
}

/// One object of a face-group file: a shared vertex list and its geometry
/// groups. Each object is a sub-mesh candidate.
#[derive(Clone, Debug)]
pub struct FaceObject {
    pub vertices: Vec<Vec3Fix>,
    pub groups: Vec<FaceGroup>,
}

/// The assembly state: output positions and indices so far, and the
/// current group's mapping from source vertex index to output index.
pub ghost struct DedupState {
    pub pos: Seq<Vec3Fix>,
    pub idx: Seq<usize>,
    pub table: Seq<Option<usize>>,
}

/// Consume one vertex reference: a first occurrence within the group
/// appends a new output vertex, every reference reuses the mapped index.
pub open spec fn ref_step(st: DedupState, verts: Seq<Vec3Fix>, v: int) -> DedupState {
    match st.table[v] {
        Some(k) => DedupState { idx: st.idx.push(k), ..st },
        None => DedupState {
            pos: st.pos.push(verts[v]),
            idx: st.idx.push(st.pos.len() as usize),
            table: st.table.update(v, Some(st.pos.len() as usize)),
        },
    }
}

/// Consume one shape: a triangle contributes its three vertex references,
/// anything else is ignored.
pub open spec fn shape_step(st: DedupState, verts: Seq<Vec3Fix>, s: FacePrimitive) -> DedupState {
    match s {
        FacePrimitive::Triangle(a, b, c) => ref_step(
            ref_step(ref_step(st, verts, a as int), verts, b as int),
            verts,
            c as int,
        ),
        FacePrimitive::Unsupported => st,
    }
}

/// Consume a group's shapes in order.
pub open spec fn run_shapes(st: DedupState, verts: Seq<Vec3Fix>, shapes: Seq<FacePrimitive>) -> DedupState
    decreases shapes.len(),
{
    if shapes.len() == 0 {
        st
    } else {
        run_shapes(shape_step(st, verts, shapes.first()), verts, shapes.drop_first())
    }
}

/// An empty per-group mapping.
pub open spec fn fresh_table(n: nat) -> Seq<Option<usize>> {
    Seq::new(n, |i: int| None)
}

/// Consume an object's groups in order; each group starts with a fresh
/// mapping, so vertices shared across groups are duplicated in the output.
pub open spec fn run_groups(
    pos: Seq<Vec3Fix>,
    idx: Seq<usize>,
    verts: Seq<Vec3Fix>,
    groups: Seq<FaceGroup>,
) -> (Seq<Vec3Fix>, Seq<usize>)
    decreases groups.len(),
{
    if groups.len() == 0 {
        (pos, idx)
    } else {
        let st = run_shapes(
            DedupState { pos, idx, table: fresh_table(verts.len()) },
            verts,
            groups.first().shapes@,
        );
        run_groups(st.pos, st.idx, verts, groups.drop_first())
    }
}

/// The sub-mesh candidate one object assembles to.
pub open spec fn object_mesh(obj: FaceObject) -> (Seq<Vec3Fix>, Seq<usize>) {
    run_groups(Seq::empty(), Seq::empty(), obj.vertices@, obj.groups@)
}

pub open spec fn shape_refs_valid(s: FacePrimitive, n: int) -> bool {
    s matches FacePrimitive::Triangle(a, b, c) ==> a < n && b < n && c < n
}

pub open spec fn group_refs_valid(g: FaceGroup, n: int) -> bool {
    forall|i: int| 0 <= i < g.shapes@.len() ==> shape_refs_valid(#[trigger] g.shapes@[i], n)
}

/// Every triangle of the object references an existing vertex.
pub open spec fn object_refs_valid(obj: FaceObject) -> bool {
    forall|g: int|
        0 <= g < obj.groups@.len() ==> group_refs_valid(
            #[trigger] obj.groups@[g],
            obj.vertices@.len() as int,
        )
}

/// An object is assemblable: its references are valid and its coordinates
/// are in range.
pub open spec fn object_ok(obj: FaceObject) -> bool {
    object_refs_valid(obj) && all_coords_in_range(obj.vertices@)
}

/// The assembly state invariant: the mapping points into the output
/// positions, the indices reference existing positions, and the output
/// coordinates are in range.
pub open spec fn st_inv(st: DedupState, verts: Seq<Vec3Fix>) -> bool {
    &&& st.table.len() == verts.len()
    &&& forall|v: int|
        0 <= v < st.table.len() ==> (#[trigger] st.table[v] matches Some(k) ==> k < st.pos.len())
    &&& forall|i: int| 0 <= i < st.idx.len() ==> #[trigger] st.idx[i] < st.pos.len()
    &&& all_coords_in_range(st.pos)
}

proof fn lemma_ref_step_inv(st: DedupState, verts: Seq<Vec3Fix>, v: int)
    requires
        st_inv(st, verts),
        0 <= v < verts.len(),
        all_coords_in_range(verts),
    ensures
        st_inv(ref_step(st, verts, v), verts),
        ref_step(st, verts, v).pos.len() >= st.pos.len(),
        ref_step(st, verts, v).pos.len() <= st.pos.len() + 1,
        ref_step(st, verts, v).idx.len() == st.idx.len() + 1,
{
    let st1 = ref_step(st, verts, v);
    match st.table[v] {
        Some(k) => {},
        None => {
            assert forall|i: int| 0 <= i < st1.pos.len() implies crate::mesh::coord_in_range(
                st1.pos[i],
            ) by {
                if i < st.pos.len() {
                    assert(crate::mesh::coord_in_range(st.pos[i]));
                } else {
                    assert(st1.pos[i] == verts[v]);
                }
            }
        },
    }
}

proof fn lemma_shape_step_inv(st: DedupState, verts: Seq<Vec3Fix>, s: FacePrimitive)
    requires
        st_inv(st, verts),
        shape_refs_valid(s, verts.len() as int),
        all_coords_in_range(verts),
    ensures
        st_inv(shape_step(st, verts, s), verts),
        shape_step(st, verts, s).pos.len() >= st.pos.len(),
        shape_step(st, verts, s).pos.len() <= st.pos.len() + 3,
        shape_step(st, verts, s).idx.len() == st.idx.len() + if s matches FacePrimitive::Triangle(
            _,
            _,
            _,
        ) {
            3int
        } else {
            0int
        },
{
    match s {
        FacePrimitive::Triangle(a, b, c) => {
            lemma_ref_step_inv(st, verts, a as int);
            let st1 = ref_step(st, verts, a as int);
            lemma_ref_step_inv(st1, verts, b as int);
            let st2 = ref_step(st1, verts, b as int);
            lemma_ref_step_inv(st2, verts, c as int);
        },
        FacePrimitive::Unsupported => {},
    }
}

/// Processing one more shape extends the fold.
proof fn lemma_run_shapes_snoc(
    st: DedupState,
    verts: Seq<Vec3Fix>,
    shapes: Seq<FacePrimitive>,
    s: FacePrimitive,
)
    ensures
        run_shapes(st, verts, shapes.push(s)) == shape_step(
            run_shapes(st, verts, shapes),
            verts,
            s,
        ),
    decreases shapes.len(),
{
    reveal_with_fuel(run_shapes, 3);
    if shapes.len() == 0 {
        assert(shapes.push(s).drop_first() =~= shapes);
        assert(shapes.push(s).first() == s);
    } else {
        assert(shapes.push(s).first() == shapes.first());
        assert(shapes.push(s).drop_first() =~= shapes.drop_first().push(s));
        lemma_run_shapes_snoc(shape_step(st, verts, shapes.first()), verts, shapes.drop_first(), s);
    }
}

proof fn lemma_run_groups_snoc(
    pos: Seq<Vec3Fix>,
    idx: Seq<usize>,
    verts: Seq<Vec3Fix>,
    groups: Seq<FaceGroup>,
    g: FaceGroup,
)
    ensures
        run_groups(pos, idx, verts, groups.push(g)) == ({
            let prev = run_groups(pos, idx, verts, groups);
            let st = run_shapes(
                DedupState { pos: prev.0, idx: prev.1, table: fresh_table(verts.len()) },
                verts,
                g.shapes@,
            );
            (st.pos, st.idx)
        }),
    decreases groups.len(),
{
    reveal_with_fuel(run_groups, 3);
    if groups.len() == 0 {
        assert(groups.push(g).drop_first() =~= groups);
        assert(groups.push(g).first() == g);
    } else {
        assert(groups.push(g).first() == groups.first());
        assert(groups.push(g).drop_first() =~= groups.drop_first().push(g));
        let st = run_shapes(
            DedupState { pos, idx, table: fresh_table(verts.len()) },
            verts,
            groups.first().shapes@,
        );
        lemma_run_groups_snoc(st.pos, st.idx, verts, groups.drop_first(), g);
    }
}

/// Assemble one object into its candidate positions and indices.
fn assemble_object(obj: &FaceObject) -> (r: Result<(Vec<Vec3Fix>, Vec<usize>), ParseError>)
    ensures
        r is Ok <==> object_ok(*obj),
        r matches Ok((p, ix)) ==> {
            &&& p@ == object_mesh(*obj).0
            &&& ix@ == object_mesh(*obj).1
            &&& st_inv(DedupState { pos: p@, idx: ix@, table: fresh_table(obj.vertices@.len()) }, obj.vertices@)
            &&& ix@.len() % 3 == 0
        },
        r matches Err(e) ==> e.kind == ErrorKind::MalformedInput,
{
    if !coords_in_range(&obj.vertices) {
        return Err(ParseError::with_detail(
            ErrorKind::MalformedInput,
            "vertex coordinate out of range",
        ));
    }
    // validate all references first
    let mut g: usize = 0;
    while g < obj.groups.len()
        invariant
            0 <= g <= obj.groups@.len(),
            forall|k: int|
                0 <= k < g ==> group_refs_valid(
                    #[trigger] obj.groups@[k],
                    obj.vertices@.len() as int,
                ),
        decreases obj.groups@.len() - g,
    {
        let shapes = &obj.groups[g].shapes;
        let mut s: usize = 0;
        while s < shapes.len()
            invariant
                0 <= s <= shapes@.len(),
                0 <= g < obj.groups@.len(),
                shapes@ == obj.groups@[g as int].shapes@,
                forall|k: int|
                    0 <= k < s ==> shape_refs_valid(#[trigger] shapes@[k], obj.vertices@.len() as int),
            decreases shapes@.len() - s,
        {
            match shapes[s] {
                FacePrimitive::Triangle(a, b, c) => {
                    if a >= obj.vertices.len() || b >= obj.vertices.len() || c
                        >= obj.vertices.len() {
                        proof {
                            assert(!shape_refs_valid(shapes@[s as int], obj.vertices@.len() as int));
                            assert(!group_refs_valid(
                                obj.groups@[g as int],
                                obj.vertices@.len() as int,
                            ));
                        }
                        return Err(ParseError::with_detail(
                            ErrorKind::MalformedInput,
                            "face index out of bounds",
                        ));
                    }
                },
                FacePrimitive::Unsupported => {},
            }
            s = s + 1;
        }
        g = g + 1;
    }
    let ghost verts = obj.vertices@;
    let mut pos: Vec<Vec3Fix> = Vec::new();
    let mut ix: Vec<usize> = Vec::new();
    let mut gi: usize = 0;
    while gi < obj.groups.len()
        invariant
            0 <= gi <= obj.groups@.len(),
            verts == obj.vertices@,
            object_ok(*obj),
            (pos@, ix@) == run_groups(
                Seq::<Vec3Fix>::empty(),
                Seq::<usize>::empty(),
                verts,
                obj.groups@.subrange(0, gi as int),
            ),
            st_inv(DedupState { pos: pos@, idx: ix@, table: fresh_table(verts.len()) }, verts),
            ix@.len() % 3 == 0,
        decreases obj.groups@.len() - gi,
    {
        let mut table: Vec<Option<usize>> = Vec::new();
        let mut t: usize = 0;
        while t < obj.vertices.len()
            invariant
                0 <= t <= obj.vertices@.len(),
                table@ =~= fresh_table(t as nat),
            decreases obj.vertices@.len() - t,
        {
            table.push(None);
            proof {
                assert(table@ =~= fresh_table((t + 1) as nat));
            }
            t = t + 1;
        }
        let ghost pos0 = pos@;
        let ghost ix0 = ix@;
        let shapes = &obj.groups[gi].shapes;
        let ghost st0 = DedupState { pos: pos0, idx: ix0, table: fresh_table(verts.len()) };
        let mut si: usize = 0;
        while si < shapes.len()
            invariant
                0 <= si <= shapes@.len(),
                verts == obj.vertices@,
                shapes@ == obj.groups@[gi as int].shapes@,
                0 <= gi < obj.groups@.len(),
                object_ok(*obj),
                st0 == (DedupState { pos: pos0, idx: ix0, table: fresh_table(verts.len()) }),
                ix0.len() % 3 == 0,
                (DedupState { pos: pos@, idx: ix@, table: table@ }) == run_shapes(
                    st0,
                    verts,
                    shapes@.subrange(0, si as int),
                ),
                st_inv(DedupState { pos: pos@, idx: ix@, table: table@ }, verts),
                ix@.len() % 3 == 0,
            decreases shapes@.len() - si,
        {
            let ghost st_before = DedupState { pos: pos@, idx: ix@, table: table@ };
            proof {
                assert(group_refs_valid(obj.groups@[gi as int], verts.len() as int));
                assert(shape_refs_valid(shapes@[si as int], verts.len() as int));
                lemma_shape_step_inv(st_before, verts, shapes@[si as int]);
            }
            match shapes[si] {
                FacePrimitive::Triangle(a, b, c) => {
                    proof {
                        lemma_ref_step_inv(st_before, verts, a as int);
                        lemma_ref_step_inv(ref_step(st_before, verts, a as int), verts, b as int);
                    }
                    match table[a] {
                        Some(k) => ix.push(k),
                        None => {
                            let k = pos.len();
                            table.set(a, Some(k));
                            pos.push(obj.vertices[a]);
                            ix.push(k);
                        },
                    }
                    match table[b] {
                        Some(k) => ix.push(k),
                        None => {
                            let k = pos.len();
                            table.set(b, Some(k));
                            pos.push(obj.vertices[b]);
                            ix.push(k);
                        },
                    }
                    match table[c] {
                        Some(k) => ix.push(k),
                        None => {
                            let k = pos.len();
                            table.set(c, Some(k));
                            pos.push(obj.vertices[c]);
                            ix.push(k);
                        },
                    }
                },
                FacePrimitive::Unsupported => {},
            }
            proof {
                assert(shapes@.subrange(0, si + 1 as int) =~= shapes@.subrange(0, si as int).push(
                    shapes@[si as int],
                ));
                lemma_run_shapes_snoc(st0, verts, shapes@.subrange(0, si as int), shapes@[si as int]);
            }
            si = si + 1;
        }
        proof {
            assert(shapes@.subrange(0, shapes@.len() as int) =~= shapes@);
            assert(obj.groups@.subrange(0, gi + 1 as int) =~= obj.groups@.subrange(
                0,
                gi as int,
            ).push(obj.groups@[gi as int]));
            lemma_run_groups_snoc(
                Seq::<Vec3Fix>::empty(),
                Seq::<usize>::empty(),
                verts,
                obj.groups@.subrange(0, gi as int),
                obj.groups@[gi as int],
            );
        }
        gi = gi + 1;
    }
    proof {
        assert(obj.groups@.subrange(0, obj.groups@.len() as int) =~= obj.groups@);
    }
    Ok((pos, ix))
}

/// The leftmost index of the largest count among the first `k`.
pub open spec fn best_upto(counts: Seq<int>, k: int) -> int
    decreases k,
{
    if k <= 1 {
        0
    } else {
        let b = best_upto(counts, k - 1);
        if counts[k - 1] > counts[b] {
            k - 1
        } else {
            b
        }
    }
}

/// The selected candidate has the highest count, and every candidate
/// before it is strictly smaller: the leftmost largest wins.
pub proof fn lemma_best_upto(counts: Seq<int>, k: int)
    requires
        1 <= k <= counts.len(),
    ensures
        0 <= best_upto(counts, k) < k,
        forall|j: int| 0 <= j < k ==> #[trigger] counts[j] <= counts[best_upto(counts, k)],
        forall|j: int|
            0 <= j < best_upto(counts, k) ==> #[trigger] counts[j] < counts[best_upto(counts, k)],
    decreases k,
{
    if k > 1 {
        lemma_best_upto(counts, k - 1);
    }
}

/// The index counts of the candidates the objects assemble to.
pub open spec fn candidate_counts(objects: Seq<FaceObject>) -> Seq<int> {
    Seq::new(objects.len(), |o: int| object_mesh(objects[o]).1.len() as int)
}

/// Assemble all face-group objects and return the candidate with the most
/// triangle indices; the leftmost wins a tie. Fails with `NoGeometryFound`
/// when the file holds no object at all, and with `MalformedInput` when an
/// object references a missing vertex or a coordinate is out of range.
pub fn assemble_face_objects(objects: &Vec<FaceObject>) -> (r: Result<Mesh, ParseError>)
    ensures
        r is Ok <==> objects@.len() > 0 && (forall|o: int|
            0 <= o < objects@.len() ==> object_ok(#[trigger] objects@[o])),
        r matches Ok(m) ==> {
            let counts = candidate_counts(objects@);
            let b = best_upto(counts, counts.len() as int);
            &&& m.wf()
            &&& m.positions@ == object_mesh(objects@[b]).0
            &&& m.indices@ == object_mesh(objects@[b]).1
        },
        r matches Err(e) ==> e.kind == ErrorKind::NoGeometryFound || e.kind
            == ErrorKind::MalformedInput,
        r matches Err(e) && e.kind == ErrorKind::NoGeometryFound <==> objects@.len() == 0,
{
    if objects.len() == 0 {
        return Err(ParseError::with_detail(ErrorKind::NoGeometryFound, "no objects in file"));
    }
    let ghost counts = candidate_counts(objects@);
    let first = match assemble_object(&objects[0]) {
        Ok(pair) => pair,
        Err(e) => {
            return Err(e);
        },
    };
    let (mut best_pos, mut best_ix) = first;
    let mut best: usize = 0;
    let mut o: usize = 1;
    while o < objects.len()
        invariant
            1 <= o <= objects@.len(),
            counts == candidate_counts(objects@),
            forall|j: int| 0 <= j < o ==> object_ok(#[trigger] objects@[j]),
            0 <= best < o,
            best == best_upto(counts, o as int),
            best_pos@ == object_mesh(objects@[best as int]).0,
            best_ix@ == object_mesh(objects@[best as int]).1,
            st_inv(
                DedupState {
                    pos: best_pos@,
                    idx: best_ix@,
                    table: fresh_table(objects@[best as int].vertices@.len()),
                },
                objects@[best as int].vertices@,
            ),
            best_ix@.len() % 3 == 0,
        decreases objects@.len() - o,
    {
        let cand = match assemble_object(&objects[o]) {
            Ok(pair) => pair,
            Err(e) => {
                return Err(e);
            },
        };
        let (cand_pos, cand_ix) = cand;
        if cand_ix.len() > best_ix.len() {
            best_pos = cand_pos;
            best_ix = cand_ix;
            best = o;
        }
        o = o + 1;
    }
    let m = Mesh { positions: best_pos, indices: best_ix };
    proof {
        let ghost st = DedupState {
            pos: best_pos@,
            idx: best_ix@,
            table: fresh_table(objects@[best as int].vertices@.len()),
        };
        assert(st_inv(st, objects@[best as int].vertices@));
        assert(forall|i: int| 0 <= i < st.idx.len() ==> #[trigger] st.idx[i] < st.pos.len());
        assert(st.idx == m.indices@);
        assert(st.pos == m.positions@);
        assert(m.wf());
    }
    Ok(m)
}

/// With exactly two candidates of strictly different sizes, the larger one
/// is selected, never a union of both.
pub proof fn lemma_larger_candidate_wins(counts: Seq<int>)
    requires
        counts.len() == 2,
        counts[0] > counts[1],
    ensures
        best_upto(counts, 2) == 0,
{
    reveal_with_fuel(best_upto, 3);
    assert(best_upto(counts, 1) == 0);
}

} // verus!
