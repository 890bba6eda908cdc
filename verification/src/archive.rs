use vstd::prelude::*;

use crate::bytestr::{bytes_end_with, ends_with};
use crate::error::{ErrorKind, ParseError};
use std::io::Cursor;
use std::io::Read;
use zip::ZipArchive;

verus! {

/// The names of the entries of a zip container, in stored order: what
/// `zip::read::ZipArchive` enumerates for these bytes. Reading a container
/// is a function of its bytes alone.
pub uninterp spec fn zip_entry_names(data: Seq<u8>) -> Seq<Seq<u8>>;

/// The decompressed bytes of the entry at `index` of a zip container, as
/// `zip::read::ZipArchive` returns them for these bytes.
pub uninterp spec fn zip_entry_data(data: Seq<u8>, index: int) -> Seq<u8>;

/// Whether these bytes open as a zip container: `ZipArchive::new` parses
/// their central directory successfully. A function of the bytes alone.
pub uninterp spec fn zip_opens(data: Seq<u8>) -> bool;

/// Whether the entry at `index` can be retrieved whole from these bytes:
/// `ZipArchive::by_index` succeeds on it and the returned entry
/// decompresses to the end. A function of the bytes alone.
pub uninterp spec fn zip_entry_readable(data: Seq<u8>, index: int) -> bool;

/// A container entry whose name ends with `suffix` stands at `i`, and
/// none earlier.
pub open spec fn first_match_at(data: Seq<u8>, suffix: Seq<u8>, i: int) -> bool {
    &&& 0 <= i < zip_entry_names(data).len()
    &&& ends_with(zip_entry_names(data)[i], suffix)
    &&& forall|j: int| 0 <= j < i ==> !ends_with(#[trigger] zip_entry_names(data)[j], suffix)
}

/// Every entry up to and including `i` can be retrieved.
pub open spec fn entries_readable_upto(data: Seq<u8>, i: int) -> bool {
    forall|j: int| 0 <= j <= i ==> #[trigger] zip_entry_readable(data, j)
}

/// No entry of the container has a name ending with `suffix`.
pub open spec fn no_entry_matches(data: Seq<u8>, suffix: Seq<u8>) -> bool {
    forall|j: int|
        0 <= j < zip_entry_names(data).len() ==> !ends_with(
            #[trigger] zip_entry_names(data)[j],
            suffix,
        )
}

/// The first match is unique.
pub proof fn lemma_first_match_unique(data: Seq<u8>, suffix: Seq<u8>, i1: int, i2: int)
    requires
        first_match_at(data, suffix, i1),
        first_match_at(data, suffix, i2),
    ensures
        i1 == i2,
{
    if i1 < i2 {
        assert(!ends_with(zip_entry_names(data)[i1], suffix));
    }
    if i2 < i1 {
        assert(!ends_with(zip_entry_names(data)[i2], suffix));
    }
}

/// Relies on zip's `ZipArchive::new` and `ZipArchive::len`: opening
/// succeeds exactly when the bytes parse as a container, and `len` then
/// counts its entries.
#[verifier::external_body]
fn zip_len(data: &[u8]) -> (r: Result<usize, ParseError>)
    ensures
        r is Ok <==> zip_opens(data@),
        r matches Ok(n) ==> n == zip_entry_names(data@).len(),
        r matches Err(e) ==> e.kind == ErrorKind::ReadError,
{
    match ZipArchive::new(Cursor::new(data)) {
        Ok(archive) => Ok(archive.len()),
        Err(_) => Err(ParseError::with_detail(ErrorKind::ReadError, "cannot open archive")),
    }
}

/// Relies on zip's `ZipArchive::by_index` and `ZipFile::name`: the stored
/// name of the entry at `index`. An out-of-range index is reported as an
/// error by the crate, and a retrievable entry of an open container
/// always yields its name.
#[verifier::external_body]
fn zip_name(data: &[u8], index: usize) -> (r: Result<Vec<u8>, ParseError>)
    ensures
        r matches Ok(name) ==> zip_opens(data@) && index < zip_entry_names(data@).len() && name@ == zip_entry_names(data@)[index as int],
        r is Err ==> !(zip_opens(data@) && index < zip_entry_names(data@).len() && zip_entry_readable(data@, index as int)),
        r matches Err(e) ==> e.kind == ErrorKind::ReadError,
{
    let err = ParseError::with_detail(ErrorKind::ReadError, "cannot read archive entry name");
    match ZipArchive::new(Cursor::new(data)) {
        Ok(mut archive) => match archive.by_index(index) {
            Ok(file) => Ok(file.name().as_bytes().to_vec()),
            Err(_) => Err(err),
        },
        Err(_) => Err(err),
    }
}

/// Relies on zip's `ZipArchive::by_index` and `Read::read_to_end` on the
/// returned entry: the decompressed bytes of the entry at `index`,
/// succeeding exactly when the container opens and the entry is
/// retrievable whole.
#[verifier::external_body]
fn zip_entry(data: &[u8], index: usize) -> (r: Result<Vec<u8>, ParseError>)
    ensures
        r matches Ok(content) ==> zip_opens(data@) && index < zip_entry_names(data@).len() && zip_entry_readable(data@, index as int) && content@ == zip_entry_data(data@, index as int),
        r is Err ==> !(zip_opens(data@) && index < zip_entry_names(data@).len() && zip_entry_readable(data@, index as int)),
        r matches Err(e) ==> e.kind == ErrorKind::ReadError,
{
    let err = ParseError::with_detail(ErrorKind::ReadError, "cannot read archive entry");
    match ZipArchive::new(Cursor::new(data)) {
        Ok(mut archive) => match archive.by_index(index) {
            Ok(mut file) => {
                let mut buffer = Vec::with_capacity(file.size() as usize);
                match file.read_to_end(&mut buffer) {
                    Ok(_) => Ok(buffer),
                    Err(_) => Err(err),
                }
            },
            Err(_) => Err(err),
        },
        Err(_) => Err(err),
    }
}

/// Scan a container's entries in stored order and return the bytes of the
/// first entry whose name ends with `suffix`. Success is owed: when the
/// container opens and the entries up to the first match are retrievable,
/// the result is that entry's bytes; when it opens, all entries are
/// retrievable and none matches, the result is `ArchiveEntryNotFound`.
/// `ReadError` is confined to containers or entries the zip reader
/// cannot deliver.
pub fn extract_entry(data: &[u8], suffix: &[u8]) -> (r: Result<Vec<u8>, ParseError>)
    ensures
        r matches Ok(content) ==> exists|i: int|
            #[trigger] first_match_at(data@, suffix@, i) && content@ == zip_entry_data(data@, i),
        forall|i: int|
            zip_opens(data@) && #[trigger] first_match_at(data@, suffix@, i)
                && entries_readable_upto(data@, i) ==> r is Ok,
        zip_opens(data@) && entries_readable_upto(data@, zip_entry_names(data@).len() - 1)
            && no_entry_matches(data@, suffix@) ==> (r matches Err(e) && e.kind
            == ErrorKind::ArchiveEntryNotFound),
        r matches Err(e) ==> e.kind == ErrorKind::ReadError || e.kind
            == ErrorKind::ArchiveEntryNotFound,
        r matches Err(e) && e.kind == ErrorKind::ArchiveEntryNotFound ==> no_entry_matches(
            data@,
            suffix@,
        ),
{
    let n = match zip_len(data) {
        Ok(n) => n,
        Err(e) => {
            return Err(e);
        },
    };
    let mut i: usize = 0;
    while i < n
        invariant
            0 <= i <= n,
            zip_opens(data@),
            n == zip_entry_names(data@).len(),
            forall|j: int| 0 <= j < i ==> !ends_with(#[trigger] zip_entry_names(data@)[j], suffix@),
        decreases n - i,
    {
        let name = match zip_name(data, i) {
            Ok(name) => name,
            Err(e) => {
                proof {
                    // entry i is not retrievable, so no success is owed
                    assert(!zip_entry_readable(data@, i as int));
                    assert forall|i0: int|
                        !(zip_opens(data@) && #[trigger] first_match_at(data@, suffix@, i0)
                            && entries_readable_upto(data@, i0)) by {
                        if first_match_at(data@, suffix@, i0) && entries_readable_upto(data@, i0) {
                            if i0 < i {
                                assert(!ends_with(zip_entry_names(data@)[i0], suffix@));
                            }
                            assert(zip_entry_readable(data@, i as int));
                        }
                    }
                    assert(!entries_readable_upto(data@, n - 1));
                }
                return Err(e);
            },
        };
        if bytes_end_with(name.as_slice(), suffix) {
            proof {
                assert(first_match_at(data@, suffix@, i as int));
            }
            let content = match zip_entry(data, i) {
                Ok(content) => content,
                Err(e) => {
                    proof {
                        assert(!zip_entry_readable(data@, i as int));
                        assert forall|i0: int|
                            !(zip_opens(data@) && #[trigger] first_match_at(data@, suffix@, i0)
                                && entries_readable_upto(data@, i0)) by {
                            if first_match_at(data@, suffix@, i0) && entries_readable_upto(
                                data@,
                                i0,
                            ) {
                                lemma_first_match_unique(data@, suffix@, i0, i as int);
                                assert(zip_entry_readable(data@, i as int));
                            }
                        }
                        assert(!entries_readable_upto(data@, n - 1));
                    }
                    return Err(e);
                },
            };
            return Ok(content);
        }
        i = i + 1;
    }
    proof {
        assert forall|i0: int|
            !(zip_opens(data@) && #[trigger] first_match_at(data@, suffix@, i0)
                && entries_readable_upto(data@, i0)) by {
            if first_match_at(data@, suffix@, i0) {
                assert(!ends_with(zip_entry_names(data@)[i0], suffix@));
            }
        }
    }
    Err(ParseError::with_detail(ErrorKind::ArchiveEntryNotFound, "no archive entry matches"))
}

} // verus!
