//! Archive codec: extracts a member from a zip container by name match, and
//! wraps a single file into a fresh single-entry zip container. Containers
//! and extracted files live in disk-spillover buffers (`SpooledTempFile`),
//! modeled by the byte sequence they hold. What the zip reader computes from
//! container bytes is modeled by two named functions: whether the bytes parse
//! as a container, and the sequence of (entry name, decompressed bytes) pairs
//! in directory order.

use vstd::prelude::*;
use vstd::string::StringExecFns;

use std::io::Read;
use std::io::Seek;
use std::io::Write;

use tempfile::SpooledTempFile;

use crate::text::contains_seq;
use crate::text::contains_str;
use crate::text::eq_str;
use crate::text::lower_of;
use crate::text::to_lower;

verus! {

/// Buffers below this size stay memory-resident; larger ones spill to disk.
pub const SPOOL_LIMIT: usize = 5 * 1024 * 1024;

#[verifier::external_type_specification]
#[verifier::external_body]
pub struct ExSpooledTempFile(SpooledTempFile);

#[verifier::external_type_specification]
#[verifier::external_body]
#[verifier::reject_recursive_types(R)]
pub struct ExZipArchive<R>(zip::read::ZipArchive<R>);

/// The bytes a spillover buffer holds, independent of its read position.
pub uninterp spec fn buffer_bytes(f: SpooledTempFile) -> Seq<u8>;

/// Whether the zip reader accepts these bytes as a container.
pub uninterp spec fn zip_parses(bytes: Seq<u8>) -> bool;

/// What the zip reader parses out of container bytes: the (entry name,
/// decompressed entry bytes) pairs of its entry table, in table order (the
/// reader keeps one entry per name).
pub uninterp spec fn zip_entries(bytes: Seq<u8>) -> Seq<(Seq<char>, Seq<u8>)>;

/// The container bytes an open archive reads from.
pub uninterp spec fn archive_bytes(a: zip::read::ZipArchive<SpooledTempFile>) -> Seq<u8>;

/// The names of a container's entries, in directory order.
pub open spec fn spec_entry_names(entries: Seq<(Seq<char>, Seq<u8>)>) -> Seq<Seq<char>> {
    entries.map_values(|e: (Seq<char>, Seq<u8>)| e.0)
}

/// Relies on tempfile's `spooled_tempfile` and the std Write and Seek impls
/// of `SpooledTempFile`: a fresh buffer holding exactly the given bytes.
#[verifier::external_body]
fn buffer_from_vec(v: &Vec<u8>) -> (r: Option<SpooledTempFile>)
    ensures
        match r {
            Some(f) => buffer_bytes(f) == v@,
            None => true,
        },
{
    let mut f = tempfile::spooled_tempfile(SPOOL_LIMIT);
    f.write_all(v).ok()?;
    f.rewind().ok()?;
    Some(f)
}

/// Relies on the std Read and Seek impls of tempfile's `SpooledTempFile`:
/// reading from the start yields exactly the bytes the buffer holds.
#[verifier::external_body]
fn buffer_read_all(f: &mut SpooledTempFile) -> (r: Option<Vec<u8>>)
    ensures
        buffer_bytes(*final(f)) == buffer_bytes(*old(f)),
        match r {
            Some(v) => v@ == buffer_bytes(*old(f)),
            None => true,
        },
{
    f.rewind().ok()?;
    let mut v = Vec::new();
    f.read_to_end(&mut v).ok()?;
    f.rewind().ok()?;
    Some(v)
}

/// A fresh spillover buffer holding exactly `v`'s bytes, or nothing when the
/// buffer cannot be created.
pub fn buffer_from_bytes(v: &Vec<u8>) -> (r: Option<SpooledTempFile>)
    ensures
        match r {
            Some(f) => buffer_bytes(f) == v@,
            None => true,
        },
{
    buffer_from_vec(v)
}

/// The full contents of a spillover buffer; the buffer's bytes are unchanged.
pub fn buffer_contents(f: &mut SpooledTempFile) -> (r: Option<Vec<u8>>)
    ensures
        buffer_bytes(*final(f)) == buffer_bytes(*old(f)),
        match r {
            Some(v) => v@ == buffer_bytes(*old(f)),
            None => true,
        },
{
    buffer_read_all(f)
}

/// Relies on zip's `ZipArchive::new`: opens the container's central
/// directory; success implies the buffer's bytes are ones the reader
/// accepts (`zip_parses`).
#[verifier::external_body]
fn zip_open(f: SpooledTempFile) -> (r: Option<zip::read::ZipArchive<SpooledTempFile>>)
    ensures
        match r {
            Some(a) => zip_parses(buffer_bytes(f)) && archive_bytes(a) == buffer_bytes(f),
            None => true,
        },
{
    zip::ZipArchive::new(f).ok()
}

/// Relies on zip's `ZipArchive::file_names`: the entry names of the open
/// container, in the same central-directory order that indexing uses.
#[verifier::external_body]
fn zip_entry_names(a: &zip::read::ZipArchive<SpooledTempFile>) -> (r: Vec<String>)
    ensures
        r.deep_view() == spec_entry_names(zip_entries(archive_bytes(*a))),
{
    a.file_names().map(|n| n.to_string()).collect()
}

/// Relies on zip's `ZipArchive::by_index` and std's `io::copy`: decompresses
/// entry `i` into a fresh spillover buffer and reports its exact byte count.
#[verifier::external_body]
fn zip_entry_data(a: &mut zip::read::ZipArchive<SpooledTempFile>, i: usize) -> (r: Option<
    (SpooledTempFile, usize),
>)
    requires
        i < zip_entries(archive_bytes(*old(a))).len(),
    ensures
        archive_bytes(*final(a)) == archive_bytes(*old(a)),
        match r {
            Some((out, sz)) => {
                &&& buffer_bytes(out) == zip_entries(archive_bytes(*old(a)))[i as int].1
                &&& sz == zip_entries(archive_bytes(*old(a)))[i as int].1.len()
            },
            None => true,
        },
{
    let mut entry = a.by_index(i).ok()?;
    let mut out = tempfile::spooled_tempfile(SPOOL_LIMIT);
    let n = std::io::copy(&mut entry, &mut out).ok()?;
    drop(entry);
    out.rewind().ok()?;
    Some((out, usize::try_from(n).ok()?))
}

/// Relies on zip's `ZipWriter` (`start_file` with deflate at maximum level
/// and Unix mode 0755, then `finish`): the produced container parses and
/// holds exactly one entry with the given name and the input buffer's bytes;
/// the reported size is the container's exact byte count.
#[verifier::external_body]
fn zip_write(f: &mut SpooledTempFile, name: &str) -> (r: Option<(SpooledTempFile, usize)>)
    ensures
        buffer_bytes(*final(f)) == buffer_bytes(*old(f)),
        match r {
            Some((out, sz)) => {
                &&& zip_parses(buffer_bytes(out))
                &&& zip_entries(buffer_bytes(out)) == seq![(name@, buffer_bytes(*old(f)))]
                &&& sz == buffer_bytes(out).len()
            },
            None => true,
        },
{
    f.rewind().ok()?;
    let mut w = zip::ZipWriter::new(tempfile::spooled_tempfile(SPOOL_LIMIT));
    let opts = zip::write::SimpleFileOptions::default().compression_method(
        zip::CompressionMethod::Deflated,
    ).compression_level(Some(9)).unix_permissions(0o755);
    w.start_file(name, opts).ok()?;
    std::io::copy(f, &mut w).ok()?;
    let mut out = w.finish().ok()?;
    let size = out.stream_position().ok()?;
    out.rewind().ok()?;
    Some((out, usize::try_from(size).ok()?))
}

/// An entry name matches a token when its lowercased form contains the
/// token, or when it is the alternate marker `elector` some mirrors use for
/// a book's primary content entry.
pub open spec fn spec_entry_matches(name: Seq<char>, token_lower: Seq<char>) -> bool {
    contains_seq(lower_of(name), token_lower) || lower_of(name) == "elector"@
}

/// `i` is the first position in `names` whose entry matches the token.
pub open spec fn spec_found_at(names: Seq<Seq<char>>, token_lower: Seq<char>, i: int) -> bool {
    &&& 0 <= i < names.len()
    &&& spec_entry_matches(names[i], token_lower)
    &&& forall|j: int| 0 <= j < i ==> !spec_entry_matches(#[trigger] names[j], token_lower)
}

/// Some entry in `names` matches the token.
pub open spec fn spec_has_match(names: Seq<Seq<char>>, token_lower: Seq<char>) -> bool {
    exists|i: int| #[trigger] spec_found_at(names, token_lower, i)
}

/// Whether one entry name matches an already-lowercased token.
fn entry_name_matches(name: &str, token_lower: &str) -> (r: bool)
    ensures
        r == spec_entry_matches(name@, token_lower@),
{
    let lower = to_lower(name);
    contains_str(lower.as_str(), token_lower) || eq_str(lower.as_str(), "elector")
}

/// Picks the entry to extract: the first name that matches the token, if any.
pub fn select_entry(names: &Vec<String>, token_lower: &str) -> (r: Option<usize>)
    ensures
        match r {
            Some(i) => i < names@.len() && spec_found_at(names.deep_view(), token_lower@, i as int),
            None => !spec_has_match(names.deep_view(), token_lower@),
        },
{
    let mut i: usize = 0;
    while i < names.len()
        invariant
            i <= names@.len(),
            forall|j: int| 0 <= j < i ==> !spec_entry_matches(
                #[trigger] names.deep_view()[j],
                token_lower@,
            ),
        decreases names@.len() - i,
    {
        if entry_name_matches(names[i].as_str(), token_lower) {
            proof {
                assert(names.deep_view()[i as int] == names@[i as int]@);
            }
            return Some(i);
        }
        proof {
            assert(names.deep_view()[i as int] == names@[i as int]@);
        }
        i += 1;
    }
    proof {
        assert forall|i: int| !spec_found_at(names.deep_view(), token_lower@, i) by {
            if 0 <= i < names.deep_view().len() {
                assert(!spec_entry_matches(names.deep_view()[i], token_lower@));
            }
        }
    }
    None
}

/// Extracts from the container in `tmp_file` the first entry whose
/// lowercased name contains the lowercased `file_type`, or whose name is the
/// alternate marker. Returns the entry's decompressed bytes in a fresh
/// buffer with their exact count; nothing when the container does not parse,
/// no entry matches, or the extraction itself fails.
pub fn unzip(tmp_file: SpooledTempFile, file_type: &str) -> (r: Option<(SpooledTempFile, usize)>)
    ensures
        ({
            let bytes = buffer_bytes(tmp_file);
            let entries = zip_entries(bytes);
            let names = spec_entry_names(entries);
            let tok = lower_of(file_type@);
            &&& (!zip_parses(bytes) || !spec_has_match(names, tok)) ==> r is None
            &&& match r {
                Some((out, sz)) => {
                    &&& zip_parses(bytes)
                    &&& exists|i: int|
                        #[trigger] spec_found_at(names, tok, i) && buffer_bytes(out)
                            == entries[i].1 && sz == entries[i].1.len()
                },
                None => true,
            }
        }),
{
    let ghost bytes = buffer_bytes(tmp_file);
    let file_type_lower = to_lower(file_type);
    let mut archive = match zip_open(tmp_file) {
        Some(a) => a,
        None => {
            return None;
        },
    };
    let names = zip_entry_names(&archive);
    let idx = match select_entry(&names, file_type_lower.as_str()) {
        Some(i) => i,
        None => {
            return None;
        },
    };
    match zip_entry_data(&mut archive, idx) {
        Some((out, sz)) => Some((out, sz)),
        None => None,
    }
}

/// Wraps the file in `tmp_file` into a fresh single-entry zip container with
/// the given entry name, deflate at maximum compression and Unix mode 0755.
/// On success the container parses, holds exactly that one entry with the
/// input's bytes, and the reported size is the container's exact byte count.
pub fn zip(tmp_file: &mut SpooledTempFile, filename: &str) -> (r: Option<
    (SpooledTempFile, usize),
>)
    ensures
        buffer_bytes(*final(tmp_file)) == buffer_bytes(*old(tmp_file)),
        match r {
            Some((out, sz)) => {
                &&& zip_parses(buffer_bytes(out))
                &&& zip_entries(buffer_bytes(out)) == seq![
                    (filename@, buffer_bytes(*old(tmp_file))),
                ]
                &&& sz == buffer_bytes(out).len()
            },
            None => true,
        },
{
    zip_write(tmp_file, filename)
}

/// Law: the archive codec round trip is lossless. A container whose entries
/// are exactly one pair of a matching name and some bytes has a match, and
/// whatever position the extraction rule picks holds exactly those bytes.
pub proof fn lemma_wrap_extract_roundtrip(
    name: Seq<char>,
    data: Seq<u8>,
    token_lower: Seq<char>,
    container: Seq<u8>,
)
    requires
        zip_entries(container) == seq![(name, data)],
        spec_entry_matches(name, token_lower),
    ensures
        spec_has_match(spec_entry_names(zip_entries(container)), token_lower),
        forall|i: int|
            #[trigger] spec_found_at(spec_entry_names(zip_entries(container)), token_lower, i)
                ==> zip_entries(container)[i].1 == data,
{
    let names = spec_entry_names(zip_entries(container));
    assert(names.len() == 1);
    assert(names[0] == name);
    assert(spec_found_at(names, token_lower, 0));
}

} // verus!
