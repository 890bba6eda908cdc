use vstd::prelude::*;

use crate::format::{spec_detect, spec_detected_ext, detected_ext, InputFormat};

verus! {

/// The output image format.
#[derive(Clone, Copy, Debug, PartialEq, Eq, Structural)]
pub enum Format {
    Jpg,
    Png,
}

/// The output format's file extension, without a dot.
pub open spec fn spec_format_ext(f: Format) -> Seq<u8> {
    match f {
        Format::Jpg => seq![106u8, 112, 103],  // "jpg"
        Format::Png => seq![112u8, 110, 103],  // "png"
    }
}

/// Build the output format's extension bytes.
pub fn format_ext(f: Format) -> (r: Vec<u8>)
    ensures
        r@ == spec_format_ext(f),
{
    let r: Vec<u8> = match f {
        Format::Jpg => vec![106, 112, 103],
        Format::Png => vec![112, 110, 103],
    };
    proof {
        assert(r@ =~= spec_format_ext(f));
    }
    r
}

/// The decimal digits of `n`, most significant first.
pub open spec fn dec_digits(n: int) -> Seq<u8>
    decreases n,
{
    if n < 10 {
        seq![(48 + if n >= 0 { n } else { 0 }) as u8]
    } else {
        dec_digits(n / 10) + seq![(48 + n % 10) as u8]
    }
}

/// The decimal digits of `n`, zero-padded on the left to at least two.
pub open spec fn spec_two_digit(n: int) -> Seq<u8> {
    if n < 10 {
        seq![48u8] + dec_digits(n)
    } else {
        dec_digits(n)
    }
}

/// Append the decimal digits of `n`.
fn push_digits(n: u32, out: &mut Vec<u8>)
    ensures
        final(out)@ == old(out)@ + dec_digits(n as int),
    decreases n,
{
    if n >= 10 {
        push_digits(n / 10, out);
    }
    out.push(48 + (n % 10) as u8);
    proof {
        assert(out@ =~= old(out)@ + dec_digits(n as int));
    }
}

/// The index suffix digits: two-digit zero-padded decimal.
pub fn two_digit(n: u32) -> (r: Vec<u8>)
    ensures
        r@ == spec_two_digit(n as int),
{
    let mut out: Vec<u8> = Vec::new();
    if n < 10 {
        out.push(48);
    }
    push_digits(n, &mut out);
    proof {
        assert(out@ =~= spec_two_digit(n as int));
    }
    out
}

/// The output image name derived from an input file name: the detected
/// extension is replaced by the output format's extension, and for a
/// multi-image run a zero-padded index suffix is inserted before it.
pub open spec fn spec_output_name(
    name: Seq<u8>,
    fmt: InputFormat,
    out: Format,
    index: int,
    count: int,
) -> Seq<u8> {
    let keep = name.len() - spec_detected_ext(fmt).len();
    if count > 1 {
        name.take(keep - 1) + seq![45u8] + spec_two_digit(index) + seq![46u8] + spec_format_ext(
            out,
        )
    } else {
        name.take(keep as int) + spec_format_ext(out)
    }
}

/// Derive the output image name for one rendered image of an input file.
pub fn output_file_name(
    name: &[u8],
    fmt: InputFormat,
    out: Format,
    index: u32,
    count: u32,
) -> (r: Vec<u8>)
    requires
        spec_detect(name@) == Some(fmt),
    ensures
        r@ == spec_output_name(name@, fmt, out, index as int, count as int),
{
    let ext = detected_ext(fmt);
    proof {
        lemma_detect_gives_room(name@, fmt);
    }
    let keep = name.len() - ext.len();
    let mut r: Vec<u8> = Vec::new();
    let stem_len: usize = if count > 1 {
        keep - 1
    } else {
        keep
    };
    let mut i: usize = 0;
    while i < stem_len
        invariant
            0 <= i <= stem_len <= name@.len(),
            r@ == name@.subrange(0, i as int),
        decreases stem_len - i,
    {
        r.push(name[i]);
        proof {
            assert(name@.subrange(0, i + 1 as int) =~= name@.subrange(0, i as int).push(
                name@[i as int],
            ));
        }
        i = i + 1;
    }
    if count > 1 {
        r.push(45);
        let digits = two_digit(index);
        let mut j: usize = 0;
        let ghost before = r@;
        while j < digits.len()
            invariant
                0 <= j <= digits@.len(),
                r@ == before + digits@.subrange(0, j as int),
            decreases digits@.len() - j,
        {
            r.push(digits[j]);
            proof {
                assert(digits@.subrange(0, j + 1 as int) =~= digits@.subrange(0, j as int).push(
                    digits@[j as int],
                ));
            }
            j = j + 1;
        }
        proof {
            assert(digits@.subrange(0, digits@.len() as int) =~= digits@);
        }
        r.push(46);
    }
    let fext = format_ext(out);
    let mut k: usize = 0;
    let ghost before_ext = r@;
    while k < fext.len()
        invariant
            0 <= k <= fext@.len(),
            r@ == before_ext + fext@.subrange(0, k as int),
        decreases fext@.len() - k,
    {
        r.push(fext[k]);
        proof {
            assert(fext@.subrange(0, k + 1 as int) =~= fext@.subrange(0, k as int).push(fext@[
                k as int
            ]));
        }
        k = k + 1;
    }
    proof {
        assert(fext@.subrange(0, fext@.len() as int) =~= fext@);
        assert(r@ =~= spec_output_name(name@, fmt, out, index as int, count as int));
    }
    r
}

/// A name that detection matched is at least one byte longer than the
/// matched extension: the dot before it is part of the name.
proof fn lemma_detect_gives_room(name: Seq<u8>, fmt: InputFormat)
    requires
        spec_detect(name) == Some(fmt),
    ensures
        spec_detected_ext(fmt).len() < name.len(),
{
}

} // verus!
