use vstd::prelude::*;

use crate::error::{ErrorKind, ParseError};
use crate::facegroup::best_upto;
use crate::mesh::{
    all_coords_in_range, faces_in_bounds, flatten_triples, mesh_from_indexed, IndexTriple, Mesh,
    Vec3Fix,
};

verus! {

/// One mesh object declared by a package manifest: a vertex list and its
/// triangles. Each object is a sub-mesh candidate.
#[derive(Clone, Debug)]
pub struct PackageObject {
    pub vertices: Vec<Vec3Fix>,
    pub triangles: Vec<IndexTriple>,
}

/// The triangle counts of the candidates.
pub open spec fn package_counts(objects: Seq<PackageObject>) -> Seq<int> {
    Seq::new(objects.len(), |o: int| objects[o].triangles@.len() as int)
}

/// Select the candidate with the most triangles — the leftmost wins a
/// tie — and assemble it into the canonical mesh. Fails with
/// `NoGeometryFound` when the package declares no mesh object, and with
/// `MalformedInput` when the selected candidate references a missing
/// vertex or a coordinate is out of range.
pub fn select_package_mesh(objects: &Vec<PackageObject>) -> (r: Result<Mesh, ParseError>)
    ensures
        r is Ok <==> objects@.len() > 0 && ({
            let b = best_upto(package_counts(objects@), objects@.len() as int);
            faces_in_bounds(objects@[b].triangles@, objects@[b].vertices@.len() as int)
                && all_coords_in_range(objects@[b].vertices@)
        }),
        r matches Ok(m) ==> {
            let b = best_upto(package_counts(objects@), objects@.len() as int);
            &&& m.wf()
            &&& m.positions@ == objects@[b].vertices@
            &&& m.indices@ == flatten_triples(objects@[b].triangles@)
        },
        r matches Err(e) ==> e.kind == ErrorKind::NoGeometryFound || e.kind
            == ErrorKind::MalformedInput,
        r matches Err(e) && e.kind == ErrorKind::NoGeometryFound <==> objects@.len() == 0,
{
    if objects.len() == 0 {
        return Err(ParseError::with_detail(ErrorKind::NoGeometryFound, "no objects in package"));
    }
    let ghost counts = package_counts(objects@);
    let mut best: usize = 0;
    let mut o: usize = 1;
    while o < objects.len()
        invariant
            1 <= o <= objects@.len(),
            0 <= best < o,
            counts == package_counts(objects@),
            best == best_upto(counts, o as int),
        decreases objects@.len() - o,
    {
        if objects[o].triangles.len() > objects[best].triangles.len() {
            best = o;
        }
        o = o + 1;
    }
    let winner = &objects[best];
    let mut verts: Vec<Vec3Fix> = Vec::new();
    let mut j: usize = 0;
    while j < winner.vertices.len()
        invariant
            0 <= j <= winner.vertices@.len(),
            verts@ == winner.vertices@.subrange(0, j as int),
        decreases winner.vertices@.len() - j,
    {
        verts.push(winner.vertices[j]);
        proof {
            assert(winner.vertices@.subrange(0, j + 1 as int) =~= winner.vertices@.subrange(
                0,
                j as int,
            ).push(winner.vertices@[j as int]));
        }
        j = j + 1;
    }
    proof {
        assert(winner.vertices@.subrange(0, winner.vertices@.len() as int) =~= winner.vertices@);
    }
    match mesh_from_indexed(verts, &winner.triangles) {
        Ok(m) => Ok(m),
        Err(e) => Err(e),
    }
}

} // verus!
