use vstd::prelude::*;

use crate::bytestr::{bytes_end_with, ends_with};
use crate::error::{ErrorKind, ParseError};

verus! {

/// The parser variant a file name resolves to: one per supported format,
/// including the zip-archived variants.
#[derive(Clone, Copy, Debug, PartialEq, Eq, Structural)]
pub enum InputFormat {
    Stl,
    StlZip,
    ThreeMf,
    Obj,
    ObjZip,
    Gcode,
    GcodeZip,
}

pub open spec fn stl_suffix() -> Seq<u8> {
    seq![46, 115, 116, 108]
}

pub open spec fn threemf_suffix() -> Seq<u8> {
    seq![46, 51, 109, 102]
}

pub open spec fn obj_suffix() -> Seq<u8> {
    seq![46, 111, 98, 106]
}

pub open spec fn gcode_suffix() -> Seq<u8> {
    seq![46, 103, 99, 111, 100, 101]
}

pub open spec fn zip_suffix() -> Seq<u8> {
    seq![46, 122, 105, 112]
}

/// The format a file name maps to: compound archive suffixes take
/// precedence over the simple extensions.
pub open spec fn spec_detect(name: Seq<u8>) -> Option<InputFormat> {
    if ends_with(name, stl_suffix() + zip_suffix()) {
        Some(InputFormat::StlZip)
    } else if ends_with(name, obj_suffix() + zip_suffix()) {
        Some(InputFormat::ObjZip)
    } else if ends_with(name, gcode_suffix() + zip_suffix()) {
        Some(InputFormat::GcodeZip)
    } else if ends_with(name, stl_suffix()) {
        Some(InputFormat::Stl)
    } else if ends_with(name, threemf_suffix()) {
        Some(InputFormat::ThreeMf)
    } else if ends_with(name, obj_suffix()) {
        Some(InputFormat::Obj)
    } else if ends_with(name, gcode_suffix()) {
        Some(InputFormat::Gcode)
    } else {
        None
    }
}

/// Build the ".stl" suffix.
pub fn stl_suffix_bytes() -> (r: Vec<u8>)
    ensures
        r@ == stl_suffix(),
{
    let r: Vec<u8> = vec![46, 115, 116, 108];
    proof {
        assert(r@ =~= stl_suffix());
    }
    r
}

/// Build the ".3mf" suffix.
pub fn threemf_suffix_bytes() -> (r: Vec<u8>)
    ensures
        r@ == threemf_suffix(),
{
    let r: Vec<u8> = vec![46, 51, 109, 102];
    proof {
        assert(r@ =~= threemf_suffix());
    }
    r
}

/// Build the ".obj" suffix.
pub fn obj_suffix_bytes() -> (r: Vec<u8>)
    ensures
        r@ == obj_suffix(),
{
    let r: Vec<u8> = vec![46, 111, 98, 106];
    proof {
        assert(r@ =~= obj_suffix());
    }
    r
}

/// Build the ".gcode" suffix.
pub fn gcode_suffix_bytes() -> (r: Vec<u8>)
    ensures
        r@ == gcode_suffix(),
{
    let r: Vec<u8> = vec![46, 103, 99, 111, 100, 101];
    proof {
        assert(r@ =~= gcode_suffix());
    }
    r
}

/// Build a compound "<inner>.zip" suffix from an inner suffix.
fn append_zip(mut inner: Vec<u8>) -> (r: Vec<u8>)
    ensures
        r@ == inner@ + zip_suffix(),
{
    let ghost orig = inner@;
    inner.push(46);
    inner.push(122);
    inner.push(105);
    inner.push(112);
    proof {
        assert(inner@ =~= orig + zip_suffix());
    }
    inner
}

/// Map a file name to its parser variant, compound archive suffixes
/// first; fails with `UnknownFormat` when no suffix matches.
pub fn detect_format(name: &[u8]) -> (r: Result<InputFormat, ParseError>)
    ensures
        r matches Ok(f) ==> spec_detect(name@) == Some(f),
        r is Err <==> spec_detect(name@) is None,
        r matches Err(e) ==> e.kind == ErrorKind::UnknownFormat,
{
    let stl_zip = append_zip(stl_suffix_bytes());
    if bytes_end_with(name, stl_zip.as_slice()) {
        return Ok(InputFormat::StlZip);
    }
    let obj_zip = append_zip(obj_suffix_bytes());
    if bytes_end_with(name, obj_zip.as_slice()) {
        return Ok(InputFormat::ObjZip);
    }
    let gcode_zip = append_zip(gcode_suffix_bytes());
    if bytes_end_with(name, gcode_zip.as_slice()) {
        return Ok(InputFormat::GcodeZip);
    }
    let stl = stl_suffix_bytes();
    if bytes_end_with(name, stl.as_slice()) {
        return Ok(InputFormat::Stl);
    }
    let threemf = threemf_suffix_bytes();
    if bytes_end_with(name, threemf.as_slice()) {
        return Ok(InputFormat::ThreeMf);
    }
    let obj = obj_suffix_bytes();
    if bytes_end_with(name, obj.as_slice()) {
        return Ok(InputFormat::Obj);
    }
    let gcode = gcode_suffix_bytes();
    if bytes_end_with(name, gcode.as_slice()) {
        return Ok(InputFormat::Gcode);
    }
    Err(ParseError::with_detail(ErrorKind::UnknownFormat, "unknown file type"))
}

/// The extension that detection matched, without its leading dot: what the
/// output name replaces.
pub open spec fn spec_detected_ext(f: InputFormat) -> Seq<u8> {
    match f {
        InputFormat::Stl => stl_suffix().skip(1),
        InputFormat::StlZip => (stl_suffix() + zip_suffix()).skip(1),
        InputFormat::ThreeMf => threemf_suffix().skip(1),
        InputFormat::Obj => obj_suffix().skip(1),
        InputFormat::ObjZip => (obj_suffix() + zip_suffix()).skip(1),
        InputFormat::Gcode => gcode_suffix().skip(1),
        InputFormat::GcodeZip => (gcode_suffix() + zip_suffix()).skip(1),
    }
}

/// Build the matched extension, without its leading dot.
pub fn detected_ext(f: InputFormat) -> (r: Vec<u8>)
    ensures
        r@ == spec_detected_ext(f),
{
    let with_dot: Vec<u8> = match f {
        InputFormat::Stl => stl_suffix_bytes(),
        InputFormat::StlZip => append_zip(stl_suffix_bytes()),
        InputFormat::ThreeMf => threemf_suffix_bytes(),
        InputFormat::Obj => obj_suffix_bytes(),
        InputFormat::ObjZip => append_zip(obj_suffix_bytes()),
        InputFormat::Gcode => gcode_suffix_bytes(),
        InputFormat::GcodeZip => append_zip(gcode_suffix_bytes()),
    };
    let mut r: Vec<u8> = Vec::new();
    let mut i: usize = 1;
    while i < with_dot.len()
        invariant
            1 <= i <= with_dot@.len(),
            1 <= with_dot@.len(),
            r@ == with_dot@.subrange(1, i as int),
        decreases with_dot@.len() - i,
    {
        r.push(with_dot[i]);
        proof {
            assert(with_dot@.subrange(1, i + 1 as int) =~= with_dot@.subrange(1, i as int).push(
                with_dot@[i as int],
            ));
        }
        i = i + 1;
    }
    proof {
        assert(with_dot@.subrange(1, with_dot@.len() as int) =~= with_dot@.skip(1));
    }
    r
}

/// The zip-archived variants carry the entry's own suffix inside the
/// archive: the member to extract ends with this.
pub open spec fn spec_entry_suffix(f: InputFormat) -> Option<Seq<u8>> {
    match f {
        InputFormat::StlZip => Some(stl_suffix()),
        InputFormat::ObjZip => Some(obj_suffix()),
        InputFormat::GcodeZip => Some(gcode_suffix()),
        _ => None,
    }
}

/// For an archived variant, the suffix of the archive entry holding the
/// model.
pub fn entry_suffix(f: InputFormat) -> (r: Option<Vec<u8>>)
    ensures
        r matches Some(v) ==> spec_entry_suffix(f) == Some(v@),
        r is None <==> spec_entry_suffix(f) is None,
{
    match f {
        InputFormat::StlZip => Some(stl_suffix_bytes()),
        InputFormat::ObjZip => Some(obj_suffix_bytes()),
        InputFormat::GcodeZip => Some(gcode_suffix_bytes()),
        _ => None,
    }
}

} // verus!
