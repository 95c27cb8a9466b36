//! Reading a bundle: an in-memory zip archive, opened and searched by entry name.
//!
//! Parsing and decompression are the `zip` crate's work. What it answers for given
//! archive bytes is named here by uninterpreted functions, and the contracts of this
//! module are stated over those names.

use std::io::Cursor;
use std::io::Read;
use vstd::prelude::*;
use zip::result::ZipError;
use zip::ZipArchive;

verus! {

/// `zip::ZipArchive`, an opened archive over a reader `R`. Opaque to the verifier.
#[verifier::external_type_specification]
#[verifier::external_body]
#[verifier::reject_recursive_types(R)]
pub struct ExZipArchive<R>(ZipArchive<R>);

/// `std::io::Cursor`, the in-memory reader the archive bytes are wrapped in.
#[verifier::external_type_specification]
#[verifier::external_body]
#[verifier::reject_recursive_types(T)]
pub struct ExCursor<T>(Cursor<T>);

/// `zip::result::ZipError`, the error of the archive operations.
#[verifier::external_type_specification]
#[verifier::external_body]
pub struct ExZipError(ZipError);

/// `std::io::Error`, the error of reading an entry's contents.
#[verifier::external_type_specification]
#[verifier::external_body]
pub struct ExIoError(std::io::Error);

/// No byte sequence shorter than an end-of-central-directory record is an archive.
pub const MIN_ARCHIVE_LEN: usize = 22;

/// The length of a header of the archive's directory, up to the entry's name.
pub const DIRECTORY_HEADER_LEN: usize = 46;

/// The value of a 32-bit field of a directory header that stands for "see the
/// 64-bit record in the extra field".
pub const WIDE: u64 = 0xFFFF_FFFF;

/// What may yet be added to the offset of an entry once the directory is read: the
/// length of the entry's own header, its name and its extra field.
pub const OFFSET_MARGIN: u64 = 0x4_0000;

/// The 16-bit number that stands at `at`, low byte first.
pub open spec fn le16(bytes: Seq<u8>, at: int) -> int {
    bytes[at] + 256 * bytes[at + 1]
}

/// The 32-bit number that stands at `at`, low byte first.
pub open spec fn le32(bytes: Seq<u8>, at: int) -> int {
    le16(bytes, at) + 0x1_0000 * le16(bytes, at + 2)
}

/// The 64-bit number that stands at `at`, low byte first.
pub open spec fn le64(bytes: Seq<u8>, at: int) -> int {
    le32(bytes, at) + 0x1_0000_0000 * le32(bytes, at + 4)
}

/// Whether a directory header that stands at `at` gives its entry's offset as all
/// ones: the mark that the offset proper is a 64-bit number in the header's extra
/// field, as archives beyond 4 GiB have it.
pub open spec fn wide_offset_at(bytes: Seq<u8>, at: int) -> bool {
    &&& 0 <= at
    &&& at + DIRECTORY_HEADER_LEN <= bytes.len()
    &&& bytes[at] == 0x50
    &&& bytes[at + 1] == 0x4b
    &&& bytes[at + 2] == 0x01
    &&& bytes[at + 3] == 0x02
    &&& bytes[at + 42] == 0xff
    &&& bytes[at + 43] == 0xff
    &&& bytes[at + 44] == 0xff
    &&& bytes[at + 45] == 0xff
}

/// The three fields of a directory header that a 64-bit record may replace.
#[derive(Clone, Copy, Debug)]
pub struct WideFields {
    /// The size of the entry's contents.
    pub uncompressed: u64,
    /// The size of the entry's contents as stored.
    pub compressed: u64,
    /// The offset of the entry in the archive.
    pub offset: u64,
}

/// Reading one field of a 64-bit record at `at`, in an extra field that ends at
/// `end`: a field that is not marked wide stays and takes no bytes; one that is
/// takes the next eight, if there are eight; else the reading ends.
pub open spec fn take_wide(bytes: Seq<u8>, end: int, at: int, field: u64) -> Option<(u64, int)> {
    if field != WIDE {
        Some((field, at))
    } else if at + 8 > end {
        None
    } else {
        Some((le64(bytes, at) as u64, at + 8))
    }
}

/// The offset of an entry after the records of its header's extra field, from
/// `pos` up to `end`, were read with the fields as they stand. Each record is a
/// kind, a length and its data. A record of kind 1 replaces, in this order and from
/// its data, size, stored size and offset, each only while it is marked wide;
/// other records are passed over. The reading ends where the bytes do.
pub open spec fn offset_after_records(bytes: Seq<u8>, end: int, pos: int, fields: WideFields) -> u64
    decreases end - pos,
{
    if pos < 0 || pos + 4 > end {
        fields.offset
    } else {
        let kind = le16(bytes, pos);
        let len = le16(bytes, pos + 2);
        let data = pos + 4;
        if kind != 1 {
            if data + len + 4 > end {
                fields.offset
            } else {
                offset_after_records(bytes, end, data + len, fields)
            }
        } else {
            match take_wide(bytes, end, data, fields.uncompressed) {
                None => fields.offset,
                Some((uncompressed, second)) => match take_wide(
                    bytes,
                    end,
                    second,
                    fields.compressed,
                ) {
                    None => fields.offset,
                    Some((compressed, third)) => match take_wide(bytes, end, third, fields.offset) {
                        None => fields.offset,
                        Some((offset, rest)) => {
                            let next = if data + len > rest {
                                data + len
                            } else {
                                rest
                            };
                            if next + 4 > end {
                                offset
                            } else {
                                offset_after_records(
                                    bytes,
                                    end,
                                    next,
                                    WideFields { uncompressed, compressed, offset },
                                )
                            }
                        },
                    },
                },
            }
        }
    }
}

/// Whether a directory header that stands at `at` gives its entry an offset out of
/// range: the offset is marked wide, the header's extra field lies within the
/// bytes, and the 64-bit offset read from it is so large that what is yet added to
/// it, at most the length of the archive and the margin, leaves the 64-bit range.
/// No archive has an entry there.
pub open spec fn unsafe_offset_at(bytes: Seq<u8>, at: int) -> bool {
    &&& wide_offset_at(bytes, at)
    &&& {
        let start = at + DIRECTORY_HEADER_LEN + le16(bytes, at + 28);
        let end = start + le16(bytes, at + 30);
        &&& end <= bytes.len()
        &&& offset_after_records(
            bytes,
            end,
            start,
            WideFields {
                uncompressed: le32(bytes, at + 24) as u64,
                compressed: le32(bytes, at + 20) as u64,
                offset: WIDE,
            },
        ) + bytes.len() + OFFSET_MARGIN > u64::MAX
    }
}

/// Whether anywhere in `bytes` a directory header may stand that gives its entry an
/// offset out of range. Such bytes are never opened.
pub open spec fn has_unsafe_offset(bytes: Seq<u8>) -> bool {
    exists|at: int| unsafe_offset_at(bytes, at)
}

/// Whether `bytes` are opened as an archive: no directory header in them gives an
/// offset out of range, and the `zip` crate accepts them.
pub open spec fn archive_opens(bytes: Seq<u8>) -> bool {
    !has_unsafe_offset(bytes) && zip_archive_opens(bytes)
}

/// Whether `zip::ZipArchive::new` accepts `bytes` as a well-formed archive.
pub uninterp spec fn zip_archive_opens(bytes: Seq<u8>) -> bool;

/// The bytes that an opened archive reads from.
pub uninterp spec fn archive_source(archive: ZipArchive<Cursor<Vec<u8>>>) -> Seq<u8>;

/// Whether `zip::ZipArchive::by_name` hands out an entry called `name` from the
/// archive made of `bytes`.
pub uninterp spec fn zip_entry_found(bytes: Seq<u8>, name: Seq<char>) -> bool;

/// What reading the entry called `name` to its end yields from the archive made of
/// `bytes`: the decompressed contents, or `None` where the read fails.
pub uninterp spec fn zip_entry_bytes(bytes: Seq<u8>, name: Seq<char>) -> Option<Seq<u8>>;

/// Calls `zip::ZipArchive::new` on a cursor over `bytes`.
///
/// Trusted: it succeeds exactly where the crate accepts the bytes, never on fewer
/// bytes than the end record takes, and the archive it returns reads from `bytes`.
/// Bytes in which a directory header gives an offset out of range are kept from
/// it: the crate adds to the offset it reads without a check.
#[verifier::external_body]
fn zip_open(bytes: Vec<u8>) -> (r: Result<ZipArchive<Cursor<Vec<u8>>>, ZipError>)
    requires
        !has_unsafe_offset(bytes@),
    ensures
        r is Ok <==> zip_archive_opens(bytes@),
        bytes@.len() < MIN_ARCHIVE_LEN ==> r is Err,
        r matches Ok(archive) ==> archive_source(archive) == bytes@,
{
    ZipArchive::new(Cursor::new(bytes))
}

/// Calls `zip::ZipArchive::by_name` and, where it hands out an entry, reads the
/// entry to its end through the entry's `std::io::Read` implementation.
///
/// Trusted: whether the entry is handed out, and what reading it yields, depend on
/// the archive's bytes and the name alone; the outer result is that of `by_name`,
/// the inner one that of the read; and the archive goes on reading from the same
/// bytes.
#[verifier::external_body]
fn zip_entry(archive: &mut ZipArchive<Cursor<Vec<u8>>>, name: &str) -> (r: Result<
    Result<Vec<u8>, std::io::Error>,
    ZipError,
>)
    ensures
        archive_source(*final(archive)) == archive_source(*old(archive)),
        r is Ok <==> zip_entry_found(archive_source(*old(archive)), name@),
        r matches Ok(read) ==> match read {
            Ok(data) => zip_entry_bytes(archive_source(*old(archive)), name@) == Some(data@),
            Err(_) => zip_entry_bytes(archive_source(*old(archive)), name@) is None,
        },
{
    let mut entry = archive.by_name(name)?;
    let mut data = Vec::new();
    Ok(entry.read_to_end(&mut data).map(|_count| data))
}

/// Why a bundle could not serve an entry.
#[derive(Clone, Copy, Debug, PartialEq, Eq, Structural)]
pub enum ArchiveError {
    /// The bundle's bytes are not a well-formed archive.
    Open,
    /// The entry is in the archive, but its contents could not be read.
    Read,
}

impl ArchiveError {
    /// A message for the error, for hosts that report errors as text.
    pub fn message(&self) -> (text: &'static str)
        ensures
            text@ == match *self {
                ArchiveError::Open => "asset bundle is not a well-formed archive"@,
                ArchiveError::Read => "asset bundle entry could not be read"@,
            },
    {
        match self {
            ArchiveError::Open => "asset bundle is not a well-formed archive",
            ArchiveError::Read => "asset bundle entry could not be read",
        }
    }
}

/// What a lookup yields, with byte vectors seen as sequences.
pub open spec fn lookup_view(r: Result<Option<Vec<u8>>, ArchiveError>) -> Result<
    Option<Seq<u8>>,
    ArchiveError,
> {
    match r {
        Ok(Some(data)) => Ok(Some(data@)),
        Ok(None) => Ok(None),
        Err(e) => Err(e),
    }
}

/// The lookup of `name` in the opened archive made of `bytes`: nothing where the
/// archive has no such entry, the entry's contents where it has one, and a read
/// error where the entry is there and cannot be read.
pub open spec fn entry_lookup(bytes: Seq<u8>, name: Seq<char>) -> Result<
    Option<Seq<u8>>,
    ArchiveError,
> {
    if !zip_entry_found(bytes, name) {
        Ok(None)
    } else {
        match zip_entry_bytes(bytes, name) {
            Some(data) => Ok(Some(data)),
            None => Err(ArchiveError::Read),
        }
    }
}

/// The lookup of `name` in archive bytes that are yet to be opened: an open error
/// where the bytes are no archive, else the lookup in the opened archive.
pub open spec fn archive_lookup(bytes: Seq<u8>, name: Seq<char>) -> Result<
    Option<Seq<u8>>,
    ArchiveError,
> {
    if !archive_opens(bytes) {
        Err(ArchiveError::Open)
    } else {
        entry_lookup(bytes, name)
    }
}

/// Reads the 16-bit number at `at`.
fn read16(bytes: &[u8], at: usize) -> (value: u16)
    requires
        at + 2 <= bytes@.len(),
    ensures
        value == le16(bytes@, at as int),
{
    let low: u16 = bytes[at] as u16;
    let high: u16 = bytes[at + 1] as u16;
    low + 256 * high
}

/// Reads the 32-bit number at `at`.
fn read32(bytes: &[u8], at: usize) -> (value: u32)
    requires
        at + 4 <= bytes@.len(),
    ensures
        value == le32(bytes@, at as int),
{
    let len = bytes.len();
    assert(at + 4 <= len);
    let low: u32 = read16(bytes, at) as u32;
    let high: u32 = read16(bytes, at + 2) as u32;
    low + 0x1_0000 * high
}

/// Reads the 64-bit number at `at`.
fn read64(bytes: &[u8], at: usize) -> (value: u64)
    requires
        at + 8 <= bytes@.len(),
    ensures
        value == le64(bytes@, at as int),
{
    let len = bytes.len();
    assert(at + 8 <= len);
    let low: u64 = read32(bytes, at) as u64;
    let high: u64 = read32(bytes, at + 4) as u64;
    low + 0x1_0000_0000 * high
}

/// Reads one field of a 64-bit record, as `take_wide` says.
fn read_wide(bytes: &[u8], end: usize, at: usize, field: u64) -> (taken: Option<(u64, usize)>)
    requires
        at <= end <= bytes@.len(),
    ensures
        match taken {
            Some((value, next)) => take_wide(bytes@, end as int, at as int, field) == Some(
                (value, next as int),
            ) && at <= next <= end,
            None => take_wide(bytes@, end as int, at as int, field) is None,
        },
{
    if field != WIDE {
        Some((field, at))
    } else if end - at < 8 {
        None
    } else {
        Some((read64(bytes, at), at + 8))
    }
}

/// Reads the records of an extra field that lies from `start` up to `end`, and
/// returns the offset of the entry as it stands afterwards.
fn read_offset(bytes: &[u8], start: usize, end: usize, fields: WideFields) -> (offset: u64)
    requires
        start <= end <= bytes@.len(),
    ensures
        offset == offset_after_records(bytes@, end as int, start as int, fields),
{
    let mut pos = start;
    let mut now = fields;
    while end - pos >= 4
        invariant
            start <= pos <= end <= bytes@.len(),
            offset_after_records(bytes@, end as int, start as int, fields) == offset_after_records(
                bytes@,
                end as int,
                pos as int,
                now,
            ),
        decreases end - pos,
    {
        let kind = read16(bytes, pos);
        let len = read16(bytes, pos + 2) as usize;
        let data = pos + 4;
        let mut rest = data;
        if kind == 1 {
            match read_wide(bytes, end, data, now.uncompressed) {
                None => {
                    return now.offset;
                },
                Some((uncompressed, second)) => match read_wide(
                    bytes,
                    end,
                    second,
                    now.compressed,
                ) {
                    None => {
                        return now.offset;
                    },
                    Some((compressed, third)) => match read_wide(bytes, end, third, now.offset) {
                        None => {
                            return now.offset;
                        },
                        Some((offset, behind)) => {
                            now = WideFields { uncompressed, compressed, offset };
                            rest = behind;
                        },
                    },
                },
            }
        }
        if len > end - data {
            return now.offset;
        }
        pos = if data + len > rest {
            data + len
        } else {
            rest
        };
    }
    now.offset
}

/// Whether a directory header that may stand at `at` gives its entry an offset out
/// of range.
fn is_unsafe_offset_at(bytes: &[u8], at: usize) -> (found: bool)
    requires
        at + DIRECTORY_HEADER_LEN <= bytes@.len(),
    ensures
        found == unsafe_offset_at(bytes@, at as int),
{
    if !(bytes[at] == 0x50 && bytes[at + 1] == 0x4b && bytes[at + 2] == 0x01 && bytes[at + 3]
        == 0x02 && bytes[at + 42] == 0xff && bytes[at + 43] == 0xff && bytes[at + 44] == 0xff
        && bytes[at + 45] == 0xff) {
        return false;
    }
    let name_len = read16(bytes, at + 28) as usize;
    let extra_len = read16(bytes, at + 30) as usize;
    let behind_header = bytes.len() - (at + DIRECTORY_HEADER_LEN);
    if name_len + extra_len > behind_header {
        return false;
    }
    let start = at + DIRECTORY_HEADER_LEN + name_len;
    let fields = WideFields {
        uncompressed: read32(bytes, at + 24) as u64,
        compressed: read32(bytes, at + 20) as u64,
        offset: WIDE,
    };
    let offset = read_offset(bytes, start, start + extra_len, fields);
    offset as u128 + bytes.len() as u128 + OFFSET_MARGIN as u128 > u64::MAX as u128
}

/// Looks through `bytes` for a directory header that gives its entry an offset out
/// of range.
pub fn find_unsafe_offset(bytes: &[u8]) -> (found: bool)
    ensures
        found == has_unsafe_offset(bytes@),
{
    let len = bytes.len();
    if len < DIRECTORY_HEADER_LEN {
        return false;
    }
    let last = len - DIRECTORY_HEADER_LEN;
    let mut at: usize = 0;
    while at <= last
        invariant
            len == bytes@.len(),
            last + DIRECTORY_HEADER_LEN == len,
            at <= last + 1,
            forall|p: int| 0 <= p < at ==> !#[trigger] unsafe_offset_at(bytes@, p),
        decreases last + 1 - at,
    {
        if is_unsafe_offset_at(bytes, at) {
            return true;
        }
        at += 1;
    }
    false
}

/// An opened bundle: an indexed view over the archive's bytes.
pub struct Archive {
    inner: ZipArchive<Cursor<Vec<u8>>>,
}

impl Archive {
    /// The bytes the archive was opened from.
    pub closed spec fn source(&self) -> Seq<u8> {
        archive_source(self.inner)
    }

    /// Opens `bytes` as an archive. Bytes that are no well-formed archive give
    /// `ArchiveError::Open`; so does every input of fewer than `MIN_ARCHIVE_LEN`
    /// bytes, and every input in which a directory header gives an offset out of
    /// the 64-bit range.
    pub fn open(bytes: Vec<u8>) -> (r: Result<Archive, ArchiveError>)
        ensures
            match r {
                Ok(archive) => archive_opens(bytes@) && archive.source() == bytes@,
                Err(e) => !archive_opens(bytes@) && e == ArchiveError::Open,
            },
            bytes@.len() < MIN_ARCHIVE_LEN ==> r is Err,
    {
        if find_unsafe_offset(bytes.as_slice()) {
            return Err(ArchiveError::Open);
        }
        match zip_open(bytes) {
            Ok(inner) => Ok(Archive { inner }),
            Err(_) => Err(ArchiveError::Open),
        }
    }

    /// Looks `name` up: `Ok(None)` where the archive hands out no such entry, the
    /// full decompressed contents where it has one, and `ArchiveError::Read` where
    /// the entry is there and reading it fails.
    pub fn entry(&mut self, name: &str) -> (r: Result<Option<Vec<u8>>, ArchiveError>)
        ensures
            final(self).source() == old(self).source(),
            lookup_view(r) == entry_lookup(old(self).source(), name@),
    {
        match zip_entry(&mut self.inner, name) {
            Err(_) => Ok(None),
            Ok(Ok(data)) => Ok(Some(data)),
            Ok(Err(_)) => Err(ArchiveError::Read),
        }
    }
}

/// Opens `bytes` as an archive and looks `name` up in it.
pub fn read_archive(bytes: Vec<u8>, name: &str) -> (r: Result<Option<Vec<u8>>, ArchiveError>)
    ensures
        lookup_view(r) == archive_lookup(bytes@, name@),
        bytes@.len() < MIN_ARCHIVE_LEN ==> r == Err::<Option<Vec<u8>>, ArchiveError>(
            ArchiveError::Open,
        ),
{
    match Archive::open(bytes) {
        Ok(mut archive) => archive.entry(name),
        Err(e) => Err(e),
    }
}

} // verus!
