use vstd::prelude::*;

verus! {

/// Machine-readable classification of a failure, one variant per condition
/// that the pipeline distinguishes.
#[derive(Clone, Copy, Debug, PartialEq, Eq, Structural)]
pub enum ErrorKind {
    /// An input container could not be opened or read.
    ReadError,
    /// The content violates the format's structural expectations.
    MalformedInput,
    /// A structurally valid file with zero usable triangles or points.
    NoGeometryFound,
    /// The file name carries no recognized extension.
    UnknownFormat,
    /// The mesh has a zero bounding-box extent and cannot be framed.
    DegenerateMesh,
    /// No archive entry matches the requested name suffix.
    ArchiveEntryNotFound,
}

/// A failure: a required kind for programmatic dispatch, and an optional
/// human-readable detail for diagnostics.
#[derive(Clone, Copy, Debug)]
pub struct ParseError {
    pub kind: ErrorKind,
    pub detail: Option<&'static str>,
}

impl ParseError {
    pub fn new(kind: ErrorKind) -> (r: ParseError)
        ensures
            r.kind == kind,
            r.detail is None,
    {
        ParseError { kind, detail: None }
    }

    pub fn with_detail(kind: ErrorKind, detail: &'static str) -> (r: ParseError)
        ensures
            r.kind == kind,
            r.detail == Some(detail),
    {
        ParseError { kind, detail: Some(detail) }
    }
}

} // verus!
