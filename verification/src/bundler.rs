//! The directory bundler: a walked source tree becomes the bytes of a bundle file.
//!
//! The bundler does no I/O of its own. Its host walks the source directory and
//! hands over what it found, one `SourceEntry` for each file and directory; the
//! bundler checks the paths, decides what goes into the archive and under which
//! name, has the `zip` crate write it, and returns the bytes of the bundle file,
//! obfuscated where that is asked for. The host writes them to disk only when the
//! whole bundle succeeded, so no half-written bundle is ever left behind.
//!
//! The archive is written into memory, with a fixed timestamp on every entry. What
//! the writer answers therefore depends on what was handed to it and on nothing
//! else; its answers are named here by uninterpreted functions, and the contracts
//! of this module are stated over those names.

use crate::bundler_config::{should_bundle, AssetBundlerConfig};
use crate::config::{is_separator, Compression};
use crate::resolver::bundle_path;
use crate::xor::{lemma_masked_round_trip, mask, masked};
use std::io::Cursor;
use std::io::Write;
use vstd::prelude::*;
use vstd::string::*;
use zip::result::ZipError;
use zip::write::FileOptions;
use zip::CompressionMethod;
use zip::DateTime;
use zip::ZipWriter;

verus! {

/// A `zip::ZipWriter` that writes an archive into memory. Opaque to the verifier:
/// all that is known of it is what the trusted functions below state.
#[verifier::external_body]
pub struct ArchiveWriter {
    inner: ZipWriter<Cursor<Vec<u8>>>,
}

/// One entry as it was handed to the archive writer.
pub struct StagedEntry {
    /// The name the entry is stored under.
    pub name: Seq<char>,
    /// Whether it is a directory marker.
    pub directory: bool,
    /// The compression its contents are stored with.
    pub compression: Compression,
    /// Its contents before compression.
    pub data: Seq<u8>,
}

/// The entries that were handed to an archive writer so far, in order.
pub uninterp spec fn staged_entries(writer: ArchiveWriter) -> Seq<StagedEntry>;

/// Whether `zip::ZipWriter::start_file` succeeds in the call that leaves the writer
/// with the entries `staged`, the last of them the file just started.
pub uninterp spec fn zip_starts_file(staged: Seq<StagedEntry>) -> bool;

/// Whether writing the contents of the last entry succeeds, in the call that leaves
/// the writer with the entries `staged`.
pub uninterp spec fn zip_writes(staged: Seq<StagedEntry>) -> bool;

/// Whether `zip::ZipWriter::add_directory` succeeds in the call that leaves the
/// writer with the entries `staged`, the last of them the marker just added.
pub uninterp spec fn zip_adds_directory(staged: Seq<StagedEntry>) -> bool;

/// The bytes of the archive that `zip::ZipWriter::finish` returns for a writer that
/// was handed the entries `staged`, or `None` where finishing fails.
pub uninterp spec fn zip_image(staged: Seq<StagedEntry>) -> Option<Seq<u8>>;

/// The name a directory marker is stored under: the given name, with a slash
/// appended unless it ends in a separator already.
pub open spec fn directory_name(name: Seq<char>) -> Seq<char> {
    if name.len() > 0 && is_separator(name.last()) {
        name
    } else {
        name + "/"@
    }
}

/// A file entry that was started and has no contents yet.
pub open spec fn started_file(name: Seq<char>, compression: Compression) -> StagedEntry {
    StagedEntry { name, directory: false, compression, data: Seq::empty() }
}

/// A directory marker. Markers are always stored uncompressed and have no contents.
pub open spec fn directory_marker(name: Seq<char>) -> StagedEntry {
    StagedEntry {
        name: directory_name(name),
        directory: true,
        compression: Compression::Stored,
        data: Seq::empty(),
    }
}

/// The entries of a writer after the contents `data` were written for the last one.
pub open spec fn with_contents(staged: Seq<StagedEntry>, data: Seq<u8>) -> Seq<StagedEntry> {
    staged.drop_last().push(StagedEntry { data, ..staged.last() })
}

/// Calls `zip::ZipWriter::new` on an empty in-memory cursor.
///
/// Trusted: nothing has been handed to the new writer.
#[verifier::external_body]
fn writer_new() -> (writer: ArchiveWriter)
    ensures
        staged_entries(writer) == Seq::<StagedEntry>::empty(),
{
    ArchiveWriter { inner: ZipWriter::new(Cursor::new(Vec::new())) }
}

/// Calls `zip::ZipWriter::start_file` with the compression asked for, the fixed
/// timestamp and default options otherwise.
///
/// Trusted: whether it succeeds depends on what the writer was handed and on the
/// new entry alone; on success the writer holds one more entry, a file of that name
/// and compression without contents.
#[verifier::external_body]
fn writer_start_file(writer: &mut ArchiveWriter, name: &str, compression: Compression) -> (r:
    Result<(), ZipError>)
    ensures
        r is Ok <==> zip_starts_file(
            staged_entries(*old(writer)).push(started_file(name@, compression)),
        ),
        r is Ok ==> staged_entries(*final(writer)) == staged_entries(*old(writer)).push(
            started_file(name@, compression),
        ),
{
    let method = match compression {
        Compression::Stored => CompressionMethod::Stored,
        Compression::Deflate => CompressionMethod::Deflated,
        Compression::Bzip2 => CompressionMethod::Bzip2,
    };
    let options = FileOptions::default().last_modified_time(DateTime::default());
    writer.inner.start_file(name, options.compression_method(method))
}

/// Calls `write_all` of the writer's `std::io::Write` implementation, once for the
/// entry that was started last.
///
/// Trusted: whether it succeeds depends on what the writer was handed and on the
/// contents alone; on success `data` is the contents of the last entry.
#[verifier::external_body]
fn writer_write_all(writer: &mut ArchiveWriter, data: &[u8]) -> (r: Result<(), std::io::Error>)
    requires
        staged_entries(*old(writer)).len() > 0,
        staged_entries(*old(writer)).last().data.len() == 0,
    ensures
        r is Ok <==> zip_writes(with_contents(staged_entries(*old(writer)), data@)),
        r is Ok ==> staged_entries(*final(writer)) == with_contents(
            staged_entries(*old(writer)),
            data@,
        ),
{
    writer.inner.write_all(data)
}

/// Calls `zip::ZipWriter::add_directory` with the fixed timestamp and default
/// options otherwise.
///
/// Trusted: whether it succeeds depends on what the writer was handed and on the
/// new entry alone; on success the writer holds one more entry, a directory marker
/// whose name ends in a separator.
#[verifier::external_body]
fn writer_add_directory(writer: &mut ArchiveWriter, name: &str) -> (r: Result<(), ZipError>)
    ensures
        r is Ok <==> zip_adds_directory(
            staged_entries(*old(writer)).push(directory_marker(name@)),
        ),
        r is Ok ==> staged_entries(*final(writer)) == staged_entries(*old(writer)).push(
            directory_marker(name@),
        ),
{
    let options = FileOptions::default().last_modified_time(DateTime::default());
    writer.inner.add_directory(name, options)
}

/// Calls `zip::ZipWriter::finish` and takes the bytes out of the cursor it returns.
///
/// Trusted: whether it succeeds, and the bytes it returns, depend on what the
/// writer was handed alone.
#[verifier::external_body]
fn writer_finish(writer: ArchiveWriter) -> (r: Result<Vec<u8>, ZipError>)
    ensures
        match r {
            Ok(bytes) => zip_image(staged_entries(writer)) == Some(bytes@),
            Err(_) => zip_image(staged_entries(writer)) is None,
        },
{
    let mut inner = writer.inner;
    inner.finish().map(|cursor| cursor.into_inner())
}

/// What the host found at one place of the source tree.
#[derive(Debug)]
pub enum EntryKind {
    /// A regular file, with its full contents.
    File(Vec<u8>),
    /// Anything that is no regular file: for the bundle, a directory.
    Directory,
}

/// One visited place of the source tree.
#[derive(Debug)]
pub struct SourceEntry {
    /// The path relative to the root of the tree, one string for each component.
    /// The root itself has no components.
    pub path: Vec<String>,
    /// What lies there.
    pub kind: EntryKind,
}

/// A kind of entry with its contents as a sequence.
pub enum EntryKindView {
    File(Seq<u8>),
    Directory,
}

/// A source entry with its path and contents as sequences.
pub struct SourceEntryView {
    pub path: Seq<Seq<char>>,
    pub kind: EntryKindView,
}

impl View for EntryKind {
    type V = EntryKindView;

    open spec fn view(&self) -> EntryKindView {
        match *self {
            EntryKind::File(data) => EntryKindView::File(data@),
            EntryKind::Directory => EntryKindView::Directory,
        }
    }
}

/// The components of a path as character sequences.
pub open spec fn path_view(path: Seq<String>) -> Seq<Seq<char>> {
    Seq::new(path.len(), |i: int| path[i]@)
}

impl View for SourceEntry {
    type V = SourceEntryView;

    open spec fn view(&self) -> SourceEntryView {
        SourceEntryView { path: path_view(self.path@), kind: self.kind@ }
    }
}

/// A list of source entries, each by its view.
pub open spec fn entries_view(entries: Seq<SourceEntry>) -> Seq<SourceEntryView> {
    Seq::new(entries.len(), |i: int| entries[i]@)
}

/// A component of a path is valid when it is the name of one file or directory:
/// not empty, without a slash, and neither `.` nor `..`.
pub open spec fn valid_component(part: Seq<char>) -> bool {
    &&& part.len() > 0
    &&& forall|i: int| 0 <= i < part.len() ==> #[trigger] part[i] != '/'
    &&& !(part.len() == 1 && part[0] == '.')
    &&& !(part.len() == 2 && part[0] == '.' && part[1] == '.')
}

/// A path is valid when each of its components is.
pub open spec fn valid_path(path: Seq<Seq<char>>) -> bool {
    forall|i: int| 0 <= i < path.len() ==> valid_component(#[trigger] path[i])
}

/// A source entry is valid when its path is, and when it is the root of the tree
/// only as a directory: a file has a name.
pub open spec fn valid_entry(entry: SourceEntryView) -> bool {
    valid_path(entry.path) && (entry.kind is File ==> entry.path.len() > 0)
}

/// The name of an entry in the archive: the components of its relative path,
/// joined by slashes. The root of the tree has the empty name.
pub open spec fn entry_name(path: Seq<Seq<char>>) -> Seq<char>
    decreases path.len(),
{
    if path.len() == 0 {
        Seq::empty()
    } else if path.len() == 1 {
        path[0]
    } else {
        entry_name(path.drop_last()) + "/"@ + path.last()
    }
}

/// What the bundler hands to the archive writer for one source entry: a file goes
/// in under its name with its full contents; a directory gets a marker, unless it
/// is the root of the tree, which gets nothing.
pub open spec fn planned_entry(entry: SourceEntryView, compression: Compression) -> Option<
    StagedEntry,
> {
    match entry.kind {
        EntryKindView::File(data) => Some(
            StagedEntry { data, ..started_file(entry_name(entry.path), compression) },
        ),
        EntryKindView::Directory => if entry_name(entry.path).len() == 0 {
            None
        } else {
            Some(directory_marker(entry_name(entry.path)))
        },
    }
}

/// What the bundler hands to the archive writer for a walked tree: the planned
/// entry of each source entry, in the order of the walk.
pub open spec fn planned_entries(entries: Seq<SourceEntryView>, compression: Compression) -> Seq<
    StagedEntry,
>
    decreases entries.len(),
{
    if entries.len() == 0 {
        Seq::empty()
    } else {
        let before = planned_entries(entries.drop_last(), compression);
        match planned_entry(entries.last(), compression) {
            Some(staged) => before.push(staged),
            None => before,
        }
    }
}

/// Why bundling failed. The number is the index of the source entry at which it did.
#[derive(Clone, Copy, Debug, PartialEq, Eq, Structural)]
pub enum BundleError {
    /// The entry's path has a component that is not the name of one file or
    /// directory, or the entry is a file without a name.
    InvalidPath(usize),
    /// The archive writer refused to start the file entry.
    StartFile(usize),
    /// The archive writer failed to take the file's contents.
    WriteFile(usize),
    /// The archive writer refused the directory marker.
    AddDirectory(usize),
    /// The archive writer failed to finish the archive.
    Finish,
}

/// What handing one source entry to a writer that holds `staged` comes to: the
/// entries the writer holds afterwards, or the first thing that goes wrong. The
/// path is checked first; then a file is started and its contents are written,
/// and a directory other than the root gets its marker.
pub open spec fn entry_outcome(
    staged: Seq<StagedEntry>,
    entry: SourceEntryView,
    index: usize,
    compression: Compression,
) -> Result<Seq<StagedEntry>, BundleError> {
    if !valid_entry(entry) {
        Err(BundleError::InvalidPath(index))
    } else {
        match planned_entry(entry, compression) {
            None => Ok(staged),
            Some(planned) => if planned.directory {
                if zip_adds_directory(staged.push(planned)) {
                    Ok(staged.push(planned))
                } else {
                    Err(BundleError::AddDirectory(index))
                }
            } else if !zip_starts_file(staged.push(started_file(planned.name, compression))) {
                Err(BundleError::StartFile(index))
            } else if !zip_writes(staged.push(planned)) {
                Err(BundleError::WriteFile(index))
            } else {
                Ok(staged.push(planned))
            },
        }
    }
}

/// What handing a walked tree to a fresh writer comes to, entry by entry in the
/// order of the walk: the entries the writer holds at the end, or the first thing
/// that goes wrong, with the index of the source entry at which it does.
pub open spec fn staging_outcome(entries: Seq<SourceEntryView>, compression: Compression) -> Result<
    Seq<StagedEntry>,
    BundleError,
>
    decreases entries.len(),
{
    if entries.len() == 0 {
        Ok(Seq::empty())
    } else {
        match staging_outcome(entries.drop_last(), compression) {
            Ok(staged) => entry_outcome(
                staged,
                entries.last(),
                (entries.len() - 1) as usize,
                compression,
            ),
            Err(e) => Err(e),
        }
    }
}

/// What bundling a walked tree comes to: the bytes of the bundle file, which are
/// the archive of the staged entries, taken through the byte transform where the
/// bundle is obfuscated; or the first thing that goes wrong.
pub open spec fn bundle_outcome(
    entries: Seq<SourceEntryView>,
    compression: Compression,
    obfuscate: bool,
) -> Result<Seq<u8>, BundleError> {
    match staging_outcome(entries, compression) {
        Err(e) => Err(e),
        Ok(staged) => match zip_image(staged) {
            Some(image) => Ok(masked(obfuscate, image)),
            None => Err(BundleError::Finish),
        },
    }
}

/// The result of bundling with its bytes as a sequence.
pub open spec fn bundle_result_view(r: Result<Vec<u8>, BundleError>) -> Result<
    Seq<u8>,
    BundleError,
> {
    match r {
        Ok(bytes) => Ok(bytes@),
        Err(e) => Err(e),
    }
}

/// The name of a valid path that has components is not empty.
pub proof fn lemma_entry_name_of_valid_path(path: Seq<Seq<char>>)
    requires
        valid_path(path),
        path.len() > 0,
    ensures
        entry_name(path).len() > 0,
{
    assert(valid_component(path.last()));
}

/// What a valid source entry leaves in the bundle, wherever it stands in the walk:
/// a file leaves one entry under its name, which is not empty, with its contents
/// and the compression asked for; a directory other than the root leaves one
/// marker without contents, named by its path with a slash behind it, or as the
/// path is where that ends in a backslash; the root leaves nothing.
pub proof fn lemma_planned_entry_of_valid(entry: SourceEntryView, compression: Compression)
    requires
        valid_entry(entry),
    ensures
        match entry.kind {
            EntryKindView::File(data) => planned_entry(entry, compression) == Some(
                StagedEntry {
                    name: entry_name(entry.path),
                    directory: false,
                    compression,
                    data,
                },
            ) && entry_name(entry.path).len() > 0,
            EntryKindView::Directory => if entry.path.len() == 0 {
                planned_entry(entry, compression) is None
            } else {
                planned_entry(entry, compression) == Some(
                    StagedEntry {
                        name: directory_name(entry_name(entry.path)),
                        directory: true,
                        compression: Compression::Stored,
                        data: Seq::empty(),
                    },
                )
            },
        },
{
    if entry.path.len() > 0 {
        lemma_entry_name_of_valid_path(entry.path);
    }
}

/// The planned entries of a tree are those of its source entries and no others, in
/// whatever order the tree was walked.
pub proof fn lemma_planned_entries_members(
    entries: Seq<SourceEntryView>,
    compression: Compression,
)
    ensures
        forall|i: int|
            0 <= i < entries.len() ==> (#[trigger] planned_entry(entries[i], compression)
                matches Some(planned) ==> planned_entries(entries, compression).contains(planned)),
        forall|k: int|
            0 <= k < planned_entries(entries, compression).len() ==> exists|i: int|
                0 <= i < entries.len() && planned_entry(entries[i], compression) == Some(
                    #[trigger] planned_entries(entries, compression)[k],
                ),
        planned_entries(entries, compression).len() <= entries.len(),
    decreases entries.len(),
{
    if entries.len() > 0 {
        let front = entries.drop_last();
        let before = planned_entries(front, compression);
        let all = planned_entries(entries, compression);
        lemma_planned_entries_members(front, compression);
        assert forall|i: int| 0 <= i < entries.len() implies (#[trigger] planned_entry(
            entries[i],
            compression,
        ) matches Some(planned) ==> all.contains(planned)) by {
            if let Some(planned) = planned_entry(entries[i], compression) {
                if i < entries.len() - 1 {
                    assert(front[i] == entries[i]);
                    assert(before.contains(planned));
                    let k = choose|k: int| 0 <= k < before.len() && before[k] == planned;
                    assert(all[k] == planned);
                } else {
                    assert(all[all.len() - 1] == planned);
                }
            }
        }
        assert forall|k: int| 0 <= k < all.len() implies exists|i: int|
            0 <= i < entries.len() && planned_entry(entries[i], compression) == Some(
                #[trigger] all[k],
            ) by {
            if k < before.len() {
                assert(all[k] == before[k]);
                let i = choose|i: int|
                    0 <= i < front.len() && planned_entry(front[i], compression) == Some(
                        before[k],
                    );
                assert(front[i] == entries[i]);
            } else {
                assert(planned_entry(entries[entries.len() - 1], compression) == Some(all[k]));
            }
        }
    }
}

/// Where staging a tree succeeds, every source entry is valid and the writer holds
/// exactly the planned entries of the tree.
pub proof fn lemma_staging_is_planned(entries: Seq<SourceEntryView>, compression: Compression)
    ensures
        staging_outcome(entries, compression) matches Ok(staged) ==> {
            &&& staged == planned_entries(entries, compression)
            &&& forall|i: int| 0 <= i < entries.len() ==> valid_entry(#[trigger] entries[i])
        },
    decreases entries.len(),
{
    if entries.len() > 0 {
        lemma_staging_is_planned(entries.drop_last(), compression);
        if staging_outcome(entries, compression) is Ok {
            assert forall|i: int| 0 <= i < entries.len() implies valid_entry(
                #[trigger] entries[i],
            ) by {
                if i < entries.len() - 1 {
                    assert(entries.drop_last()[i] == entries[i]);
                }
            }
        }
    }
}

/// Where bundling succeeds, the bundle file is the archive of the planned entries
/// under the mask, and unmasking it with the flag it was bundled with gives that
/// archive back, for an obfuscated bundle as for a plain one.
pub proof fn lemma_bundle_unmasks_to_archive(
    entries: Seq<SourceEntryView>,
    compression: Compression,
    obfuscate: bool,
)
    ensures
        bundle_outcome(entries, compression, obfuscate) matches Ok(bytes) ==> {
            &&& zip_image(planned_entries(entries, compression)) matches Some(image)
            &&& bytes == masked(obfuscate, image)
            &&& masked(obfuscate, bytes) == image
        },
{
    lemma_staging_is_planned(entries, compression);
    if let Some(image) = zip_image(planned_entries(entries, compression)) {
        lemma_masked_round_trip(obfuscate, image);
    }
}

/// Whether bundling succeeds does not depend on obfuscation, and an entry with an
/// invalid path fails it.
pub proof fn lemma_bundle_success(
    entries: Seq<SourceEntryView>,
    compression: Compression,
    obfuscate: bool,
)
    ensures
        bundle_outcome(entries, compression, obfuscate) is Ok <==> bundle_outcome(
            entries,
            compression,
            !obfuscate,
        ) is Ok,
        (exists|i: int| 0 <= i < entries.len() && !valid_entry(#[trigger] entries[i]))
            ==> bundle_outcome(entries, compression, obfuscate) is Err,
{
    lemma_staging_is_planned(entries, compression);
}

/// Checks a component of a path: not empty, without a slash, neither `.` nor `..`.
pub fn is_valid_component(part: &str) -> (ok: bool)
    ensures
        ok == valid_component(part@),
{
    let n = part.unicode_len();
    if n == 0 {
        return false;
    }
    let mut i: usize = 0;
    while i < n
        invariant
            n == part@.len(),
            i <= n,
            forall|j: int| 0 <= j < i ==> #[trigger] part@[j] != '/',
        decreases n - i,
    {
        if part.get_char(i) == '/' {
            return false;
        }
        i += 1;
    }
    if n == 1 {
        part.get_char(0) != '.'
    } else if n == 2 {
        !(part.get_char(0) == '.' && part.get_char(1) == '.')
    } else {
        true
    }
}

/// Checks a source entry: every component of its path valid, and a file not
/// without a name.
pub fn is_valid_entry(entry: &SourceEntry) -> (ok: bool)
    ensures
        ok == valid_entry(entry@),
{
    let ghost path = path_view(entry.path@);
    let mut i: usize = 0;
    while i < entry.path.len()
        invariant
            i <= entry.path.len(),
            path == path_view(entry.path@),
            forall|j: int| 0 <= j < i ==> valid_component(#[trigger] path[j]),
        decreases entry.path.len() - i,
    {
        if !is_valid_component(entry.path[i].as_str()) {
            assert(!valid_component(path[i as int]));
            return false;
        }
        i += 1;
    }
    match &entry.kind {
        EntryKind::File(_) => entry.path.len() > 0,
        EntryKind::Directory => true,
    }
}

/// The name of an entry in the archive for its relative path.
pub fn entry_name_of(path: &Vec<String>) -> (name: String)
    ensures
        name@ == entry_name(path_view(path@)),
{
    let ghost components = path_view(path@);
    let mut name = String::new();
    let mut i: usize = 0;
    while i < path.len()
        invariant
            i <= path.len(),
            components == path_view(path@),
            name@ == entry_name(components.take(i as int)),
        decreases path.len() - i,
    {
        if i > 0 {
            name.append("/");
        }
        name.append(path[i].as_str());
        proof {
            let next = components.take(i + 1);
            assert(next.drop_last() =~= components.take(i as int));
            assert(next.last() == path[i as int]@);
            if i == 0 {
                assert(name@ =~= next[0]);
            }
        }
        i += 1;
    }
    proof {
        assert(components.take(i as int) =~= components);
    }
    name
}

/// Hands one source entry to the archive writer, as `entry_outcome` says.
fn write_entry(
    writer: &mut ArchiveWriter,
    entry: &SourceEntry,
    index: usize,
    compression: Compression,
) -> (r: Result<(), BundleError>)
    ensures
        match r {
            Ok(_) => entry_outcome(staged_entries(*old(writer)), entry@, index, compression) == Ok::<
                Seq<StagedEntry>,
                BundleError,
            >(staged_entries(*final(writer))),
            Err(e) => entry_outcome(staged_entries(*old(writer)), entry@, index, compression)
                == Err::<Seq<StagedEntry>, BundleError>(e),
        },
{
    if !is_valid_entry(entry) {
        return Err(BundleError::InvalidPath(index));
    }
    let name = entry_name_of(&entry.path);
    match &entry.kind {
        EntryKind::File(data) => {
            match writer_start_file(writer, name.as_str(), compression) {
                Ok(_) => {},
                Err(_) => {
                    return Err(BundleError::StartFile(index));
                },
            }
            proof {
                let before = staged_entries(*old(writer));
                let started = started_file(name@, compression);
                assert(before.push(started).drop_last() =~= before);
            }
            match writer_write_all(writer, data.as_slice()) {
                Ok(_) => Ok(()),
                Err(_) => Err(BundleError::WriteFile(index)),
            }
        },
        EntryKind::Directory => {
            if name.as_str().unicode_len() == 0 {
                Ok(())
            } else {
                match writer_add_directory(writer, name.as_str()) {
                    Ok(_) => Ok(()),
                    Err(_) => Err(BundleError::AddDirectory(index)),
                }
            }
        },
    }
}

/// Bundles a walked tree: checks every path, writes every file under its relative
/// name with the compression asked for, and a marker for every directory but the
/// root, in the order of the walk; finishes the archive; and takes all of its bytes
/// through the byte transform where `obfuscate` is set.
///
/// The bytes returned are those of the bundle file. The first entry with an invalid
/// path, and the first failure of the archive writer, ends the bundling with an
/// error and without bytes.
pub fn zip_dir(entries: &Vec<SourceEntry>, compression: Compression, obfuscate: bool) -> (r: Result<
    Vec<u8>,
    BundleError,
>)
    ensures
        bundle_result_view(r) == bundle_outcome(entries_view(entries@), compression, obfuscate),
{
    let ghost sources = entries_view(entries@);
    let mut writer = writer_new();
    let mut i: usize = 0;
    proof {
        assert(sources.take(0).len() == 0);
    }
    while i < entries.len()
        invariant
            i <= entries.len(),
            sources == entries_view(entries@),
            staging_outcome(sources.take(i as int), compression) == Ok::<
                Seq<StagedEntry>,
                BundleError,
            >(staged_entries(writer)),
        decreases entries.len() - i,
    {
        proof {
            assert(sources.take(i + 1).drop_last() =~= sources.take(i as int));
            assert(sources.take(i + 1).last() == entries[i as int]@);
            assert(sources.take(i + 1).len() - 1 == i);
        }
        match write_entry(&mut writer, &entries[i], i, compression) {
            Ok(_) => {},
            Err(e) => {
                proof {
                    lemma_staging_failure_stays(sources, compression, i + 1);
                }
                return Err(e);
            },
        }
        i += 1;
    }
    proof {
        assert(sources.take(i as int) =~= sources);
    }
    match writer_finish(writer) {
        Ok(archive) => Ok(mask(obfuscate, archive)),
        Err(_) => Err(BundleError::Finish),
    }
}

/// A failure at a prefix of the walk is the failure of the whole walk.
proof fn lemma_staging_failure_stays(
    entries: Seq<SourceEntryView>,
    compression: Compression,
    upto: int,
)
    requires
        0 <= upto <= entries.len(),
        staging_outcome(entries.take(upto), compression) is Err,
    ensures
        staging_outcome(entries, compression) == staging_outcome(entries.take(upto), compression),
    decreases entries.len() - upto,
{
    if upto < entries.len() {
        assert(entries.take(upto + 1).drop_last() =~= entries.take(upto));
        lemma_staging_failure_stays(entries, compression, upto + 1);
    } else {
        assert(entries.take(upto) =~= entries);
    }
}

/// Bundles the assets of a walked tree into the bytes of a bundle file.
pub fn bundle_assets(entries: &Vec<SourceEntry>, obfuscate: bool, compression: Compression) -> (r:
    Result<Vec<u8>, BundleError>)
    ensures
        bundle_result_view(r) == bundle_outcome(entries_view(entries@), compression, obfuscate),
{
    zip_dir(entries, compression, obfuscate)
}

/// A bundle that is ready to be written to disk.
#[derive(Debug)]
pub struct CrateBundle {
    /// The path of the bundle file.
    pub file: String,
    /// The bytes of the bundle file.
    pub bytes: Vec<u8>,
}

/// The result of bundling a crate's assets, with the path and the bytes of the
/// bundle file as sequences.
pub open spec fn crate_bundle_view(r: Result<Option<CrateBundle>, BundleError>) -> Result<
    Option<(Seq<char>, Seq<u8>)>,
    BundleError,
> {
    match r {
        Ok(Some(bundle)) => Ok(Some((bundle.file@, bundle.bytes@))),
        Ok(None) => Ok(None),
        Err(e) => Err(e),
    }
}

/// Bundles the assets of a crate as its configuration says, for a build with the
/// given profile.
///
/// A release build always gets a bundle, any other build only where the
/// configuration asks for it; where none is wanted the answer is `Ok(None)` and the
/// entries are not looked at. The bundle lies in the configured output directory
/// under the configured base name, with the extension `bin` where it is obfuscated
/// and `zip` where it is not.
pub fn bundle_crate_assets(
    config: &AssetBundlerConfig,
    profile: &str,
    entries: &Vec<SourceEntry>,
) -> (r: Result<Option<CrateBundle>, BundleError>)
    ensures
        crate_bundle_view(r) == if !should_bundle(config@, profile@) {
            Ok(None)
        } else {
            match bundle_outcome(
                entries_view(entries@),
                config@.compression,
                config@.obfuscate,
            ) {
                Ok(bytes) => Ok(
                    Some(
                        (
                            bundle_path(config@.out_dir, config@.file_name, config@.obfuscate),
                            bytes,
                        ),
                    ),
                ),
                Err(e) => Err(e),
            }
        },
{
    if !config.bundles_profile(profile) {
        return Ok(None);
    }
    match bundle_assets(entries, config.obfuscate(), config.compression()) {
        Ok(bytes) => Ok(Some(CrateBundle { file: config.bundle_file(), bytes })),
        Err(e) => Err(e),
    }
}

} // verus!
