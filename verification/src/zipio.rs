//! The archive accessor: the zip container opened over an in-memory byte
//! source, reached through trusted declarations. The archive is opaque here;
//! `archive_data` names its underlying bytes, and `zip_entry` names what
//! reading an entry of an archive with those bytes returns, so that every
//! read of the same archive is a function of the bytes and the entry name.

use vstd::prelude::*;
use std::io::Read;
use crate::error::EpubError;

verus! {

/// The archive type this library works over: a zip archive opened on a fully
/// buffered byte source.
pub type Archive = zip::read::ZipArchive<std::io::Cursor<Vec<u8>>>;

#[verifier::external_type_specification]
#[verifier::external_body]
#[verifier::reject_recursive_types(T)]
pub struct ExCursor<T>(std::io::Cursor<T>);

#[verifier::external_type_specification]
#[verifier::external_body]
#[verifier::reject_recursive_types(R)]
pub struct ExZipArchive<R>(zip::read::ZipArchive<R>);

/// The bytes that an open archive reads from.
pub uninterp spec fn archive_data(a: Archive) -> Seq<u8>;

/// Whether the bytes parse as a zip archive.
pub uninterp spec fn zip_opens(b: Seq<u8>) -> bool;

/// What reading the named entry out of an archive over the given bytes
/// returns: the entry's decompressed contents, or `None` when the name is
/// absent or the entry's bytes cannot be read back.
pub uninterp spec fn zip_entry(b: Seq<u8>, name: Seq<char>) -> Option<Seq<u8>>;

/// Whether an archive over the given bytes has an entry of the given name.
pub uninterp spec fn zip_entry_found(b: Seq<u8>, name: Seq<char>) -> bool;

/// Relies on `zip::ZipArchive::new`: it parses the central directory of the
/// byte source and reads nothing else, so success and the resulting archive
/// are functions of the bytes.
#[verifier::external_body]
pub(crate) fn open_archive(bytes: &Vec<u8>) -> (r: Result<Archive, EpubError>)
    ensures
        r is Ok <==> zip_opens(bytes@),
        r is Ok ==> archive_data(r->Ok_0) == bytes@,
        r is Err ==> r->Err_0 == EpubError::ArchiveInvalid,
{
    match zip::ZipArchive::new(std::io::Cursor::new(bytes.clone())) {
        Ok(a) => Ok(a),
        Err(_) => Err(EpubError::ArchiveInvalid),
    }
}

/// Relies on `zip::ZipArchive::by_name` and `Read::read_to_end`: `by_name`
/// fails with `FileNotFound` exactly when no entry has the name, and
/// otherwise hands back a reader over the entry's decompressed bytes; both
/// look only at the underlying bytes and the name, and leave them unchanged.
#[verifier::external_body]
pub(crate) fn read_entry(a: &mut Archive, name: &str) -> (r: Result<Vec<u8>, EpubError>)
    ensures
        archive_data(*final(a)) == archive_data(*old(a)),
        r is Ok <==> zip_entry(archive_data(*old(a)), name@) is Some,
        r is Ok ==> r->Ok_0@ == zip_entry(archive_data(*old(a)), name@)->0
            && zip_entry_found(archive_data(*old(a)), name@),
        r is Err ==> (r->Err_0 == EpubError::EntryNotFound <==> !zip_entry_found(
            archive_data(*old(a)),
            name@,
        )),
        r is Err ==> r->Err_0 == EpubError::EntryNotFound || r->Err_0 == EpubError::EntryCorrupt,
{
    match a.by_name(name) {
        Ok(mut f) => {
            let mut buf = Vec::new();
            match f.read_to_end(&mut buf) {
                Ok(_) => Ok(buf),
                Err(_) => Err(EpubError::EntryCorrupt),
            }
        },
        Err(zip::result::ZipError::FileNotFound) => Err(EpubError::EntryNotFound),
        Err(_) => Err(EpubError::EntryCorrupt),
    }
}

/// The error that a failed entry read reports: a missing name is
/// distinguished from an entry whose bytes cannot be read back.
pub open spec fn read_error_spec(b: Seq<u8>, name: Seq<char>) -> EpubError {
    if zip_entry_found(b, name) {
        EpubError::EntryCorrupt
    } else {
        EpubError::EntryNotFound
    }
}

} // verus!
