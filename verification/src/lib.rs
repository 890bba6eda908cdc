//! Converts heterogeneous 3D-model files — indexed-triangle, face-group,
//! package and toolpath formats, plus their zip-archived variants — into
//! one normalized triangle mesh, and computes the camera framing for a
//! thumbnail render. Geometry is held in fixed-point milli-units, so the
//! parsing, selection, tessellation and framing rules are stated and
//! proved exactly; the renderer itself consumes the resulting mesh and
//! framing outside this crate.

pub mod archive;
pub mod bytestr;
pub mod color;
pub mod error;
pub mod facegroup;
pub mod format;
pub mod framing;
pub mod mesh;
pub mod naming;
pub mod package;
pub mod toolpath;
pub mod tube;

use vstd::prelude::*;

verus! {

/// The output of a file is written when overwriting is allowed or no file
/// with that name exists yet; otherwise the input is skipped.
pub open spec fn writes_output(already_exists: bool, overwrite: bool) -> bool {
    overwrite || !already_exists
}

/// Decide whether an output image is produced for an input whose output
/// path does or does not already exist.
pub fn should_write_output(already_exists: bool, overwrite: bool) -> (r: bool)
    ensures
        r == writes_output(already_exists, overwrite),
{
    overwrite || !already_exists
}

/// Once a first run has produced the output file, it exists; a second run
/// without the overwrite flag then skips that input, and the file on disk
/// is left untouched.
pub proof fn lemma_second_run_skips()
    ensures
        !writes_output(true, false),
{
}

} // verus!
