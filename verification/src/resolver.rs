//! The resolving asset source: bundle first, fallback second.
//!
//! The resolver does no I/O of its own. Its host looks for the bundle files, reads
//! the one that the locator picks, and hands the bytes in; the resolver answers with
//! what to do for a request: serve bytes out of the bundle, hand the request to the
//! fallback source, or fail. Nothing is kept between requests, so a bundle that
//! appears, disappears or changes is seen by the next request.

use crate::archive::{
    archive_lookup, archive_opens, lookup_view, read_archive, zip_entry_found, ArchiveError,
    MIN_ARCHIVE_LEN,
};
use crate::config::{default_base_name, AdvancedAssetIoConfig, AssetIoZipConfig};
use crate::xor::{mask, masked};
use vstd::prelude::*;
use vstd::string::*;

verus! {

/// The extension of a bundle file: `bin` for an obfuscated bundle, `zip` for a plain one.
pub open spec fn extension(obfuscated: bool) -> Seq<char> {
    if obfuscated {
        "bin"@
    } else {
        "zip"@
    }
}

/// The path of a bundle in a directory: the directory, a slash, the base name, a
/// dot, the extension.
pub open spec fn bundle_path(dir: Seq<char>, base: Seq<char>, obfuscated: bool) -> Seq<char> {
    dir + "/"@ + base + "."@ + extension(obfuscated)
}

/// The extension of a bundle file.
pub fn file_extension(obfuscated: bool) -> (ext: &'static str)
    ensures
        ext@ == extension(obfuscated),
{
    if obfuscated {
        "bin"
    } else {
        "zip"
    }
}

/// The path of the bundle with the given base name in the directory `dir`.
pub fn bundle_path_in(dir: &str, base: &str, obfuscated: bool) -> (path: String)
    ensures
        path@ == bundle_path(dir@, base@, obfuscated),
{
    let mut path = String::from_str(dir);
    path.append("/");
    path.append(base);
    path.append(".");
    path.append(file_extension(obfuscated));
    path
}

/// A bundle file that was found: where it lies and whether it is obfuscated.
#[derive(Debug)]
pub struct BundleCandidate {
    /// The path of the bundle file.
    pub path: String,
    /// Whether the file's bytes went through the byte transform.
    pub obfuscated: bool,
}

/// Which of the two bundle files is used, given which of them exist: the obfuscated
/// one wherever it exists, else the plain one if that exists, else none.
pub open spec fn located(
    bin_path: Seq<char>,
    zip_path: Seq<char>,
    bin_exists: bool,
    zip_exists: bool,
) -> Option<(Seq<char>, bool)> {
    if bin_exists {
        Some((bin_path, true))
    } else if zip_exists {
        Some((zip_path, false))
    } else {
        None
    }
}

/// A candidate as the pair of its path and its obfuscation flag.
pub open spec fn candidate_view(candidate: Option<BundleCandidate>) -> Option<(Seq<char>, bool)> {
    match candidate {
        Some(c) => Some((c.path@, c.obfuscated)),
        None => None,
    }
}

/// Precedence: where the obfuscated bundle exists it is the one used, whether or
/// not a plain bundle lies beside it.
pub proof fn lemma_obfuscated_bundle_wins(bin_path: Seq<char>, zip_path: Seq<char>, zip_exists: bool)
    ensures
        located(bin_path, zip_path, true, zip_exists) == Some((bin_path, true)),
{
}

/// Picks the bundle file to use. That no bundle exists is no error: the answer is
/// then `None`.
pub fn locate(bin_path: String, zip_path: String, bin_exists: bool, zip_exists: bool) -> (found:
    Option<BundleCandidate>)
    ensures
        candidate_view(found) == located(bin_path@, zip_path@, bin_exists, zip_exists),
{
    if bin_exists {
        Some(BundleCandidate { path: bin_path, obfuscated: true })
    } else if zip_exists {
        Some(BundleCandidate { path: zip_path, obfuscated: false })
    } else {
        None
    }
}

/// The contents of a located bundle file, as its host read them.
#[derive(Debug)]
pub struct BundleFile {
    /// Whether the bytes went through the byte transform before they were written.
    pub obfuscated: bool,
    /// The bytes of the file.
    pub bytes: Vec<u8>,
}

/// A bundle file as the pair of its obfuscation flag and its bytes.
pub open spec fn bundle_view(bundle: Option<BundleFile>) -> Option<(bool, Seq<u8>)> {
    match bundle {
        Some(file) => Some((file.obfuscated, file.bytes@)),
        None => None,
    }
}

/// The answer to a load request.
#[derive(Debug)]
pub enum LoadOutcome {
    /// The bundle holds the asset: these are its bytes.
    Loaded(Vec<u8>),
    /// The bundle is absent or lacks the asset: the fallback source answers.
    Fallback,
    /// The bundle is there and broken: the request fails.
    Failed(ArchiveError),
}

/// A load outcome with its bytes as a sequence.
pub enum LoadOutcomeView {
    Loaded(Seq<u8>),
    Fallback,
    Failed(ArchiveError),
}

impl View for LoadOutcome {
    type V = LoadOutcomeView;

    open spec fn view(&self) -> LoadOutcomeView {
        match *self {
            LoadOutcome::Loaded(bytes) => LoadOutcomeView::Loaded(bytes@),
            LoadOutcome::Fallback => LoadOutcomeView::Fallback,
            LoadOutcome::Failed(e) => LoadOutcomeView::Failed(e),
        }
    }
}

/// The outcome that a lookup in the bundle leads to: the entry's bytes on a hit,
/// the fallback on a miss, failure on an error.
pub open spec fn outcome_of(lookup: Result<Option<Seq<u8>>, ArchiveError>) -> LoadOutcomeView {
    match lookup {
        Ok(Some(bytes)) => LoadOutcomeView::Loaded(bytes),
        Ok(None) => LoadOutcomeView::Fallback,
        Err(e) => LoadOutcomeView::Failed(e),
    }
}

/// The outcome of loading `path`, given the bundle file if there is one.
pub open spec fn load_outcome(bundle: Option<(bool, Seq<u8>)>, path: Seq<char>) -> LoadOutcomeView {
    match bundle {
        None => LoadOutcomeView::Fallback,
        Some((obfuscated, file)) => outcome_of(
            archive_lookup(masked(obfuscated, file), path),
        ),
    }
}

/// Fallback on absence: without a bundle, every load goes to the fallback source.
pub proof fn lemma_absent_bundle_falls_back(path: Seq<char>)
    ensures
        load_outcome(None, path) == LoadOutcomeView::Fallback,
{
}

/// Fallback on miss: a well-formed bundle that lacks the entry sends the load to
/// the fallback source.
pub proof fn lemma_missing_entry_falls_back(obfuscated: bool, file: Seq<u8>, path: Seq<char>)
    ensures
        archive_opens(masked(obfuscated, file)) && !zip_entry_found(
            masked(obfuscated, file),
            path,
        ) ==> load_outcome(Some((obfuscated, file)), path) == LoadOutcomeView::Fallback,
{
}

/// A malformed bundle fails the load with an open error; it never falls back.
pub proof fn lemma_malformed_bundle_fails(obfuscated: bool, file: Seq<u8>, path: Seq<char>)
    ensures
        !archive_opens(masked(obfuscated, file)) ==> load_outcome(
            Some((obfuscated, file)),
            path,
        ) == LoadOutcomeView::Failed(ArchiveError::Open),
{
}

/// An entry that is found is never answered by the fallback: its bytes are served,
/// or the load fails with a read error.
pub proof fn lemma_found_entry_never_falls_back(obfuscated: bool, file: Seq<u8>, path: Seq<char>)
    ensures
        archive_opens(masked(obfuscated, file)) && zip_entry_found(
            masked(obfuscated, file),
            path,
        ) ==> {
            let outcome = load_outcome(Some((obfuscated, file)), path);
            &&& outcome != LoadOutcomeView::Fallback
            &&& outcome is Failed ==> outcome == LoadOutcomeView::Failed(ArchiveError::Read)
        },
{
}

impl LoadOutcome {
    /// The outcome that the result of a lookup in the bundle leads to.
    pub fn from_lookup(lookup: Result<Option<Vec<u8>>, ArchiveError>) -> (outcome: LoadOutcome)
        ensures
            outcome@ == outcome_of(lookup_view(lookup)),
    {
        match lookup {
            Ok(Some(bytes)) => LoadOutcome::Loaded(bytes),
            Ok(None) => LoadOutcome::Fallback,
            Err(e) => LoadOutcome::Failed(e),
        }
    }

    /// Whether the request is to be handed to the fallback source.
    pub fn needs_fallback(&self) -> (needed: bool)
        ensures
            needed == (self@ == LoadOutcomeView::Fallback),
    {
        match self {
            LoadOutcome::Fallback => true,
            _ => false,
        }
    }
}

/// Looks `path` up in a bundle file: takes the bytes back through the transform
/// where the bundle is obfuscated, opens them as an archive and reads the entry.
pub fn read_bundle(bundle: BundleFile, path: &str) -> (r: Result<Option<Vec<u8>>, ArchiveError>)
    ensures
        lookup_view(r) == archive_lookup(masked(bundle.obfuscated, bundle.bytes@), path@),
        bundle.bytes@.len() < MIN_ARCHIVE_LEN ==> r == Err::<Option<Vec<u8>>, ArchiveError>(
            ArchiveError::Open,
        ),
{
    read_archive(mask(bundle.obfuscated, bundle.bytes), path)
}

/// Answers a load request for `path`.
///
/// Without a bundle the fallback answers. With one, the entry's full contents are
/// served where the bundle holds the entry, the fallback answers where it does not,
/// and the load fails where the bundle is no well-formed archive or the entry is
/// there and cannot be read. A bundle file of fewer than `MIN_ARCHIVE_LEN` bytes
/// always fails the load.
pub fn resolve(bundle: Option<BundleFile>, path: &str) -> (outcome: LoadOutcome)
    ensures
        outcome@ == load_outcome(bundle_view(bundle), path@),
        bundle matches Some(file) && file.bytes@.len() < MIN_ARCHIVE_LEN ==> outcome@
            == LoadOutcomeView::Failed(ArchiveError::Open),
{
    match bundle {
        None => LoadOutcome::Fallback,
        Some(file) => LoadOutcome::from_lookup(read_bundle(file, path)),
    }
}

/// The resolver that looks for its bundle in a search directory, which for a
/// running application is the directory of its executable.
#[derive(Debug)]
pub struct AssetIoZip {
    config: AssetIoZipConfig,
}

impl AssetIoZip {
    /// The base name of the bundle files this resolver looks for.
    pub closed spec fn base_name(&self) -> Seq<char> {
        self.config.base_name()
    }

    /// A resolver for the bundle that `config` names.
    pub fn new(config: AssetIoZipConfig) -> (resolver: Self)
        ensures
            resolver.base_name() == config.base_name(),
    {
        AssetIoZip { config }
    }

    /// The path at which the host is to look for the obfuscated or the plain bundle.
    pub fn candidate_path(&self, search_dir: &str, obfuscated: bool) -> (path: String)
        ensures
            path@ == bundle_path(search_dir@, self.base_name(), obfuscated),
    {
        bundle_path_in(search_dir, self.config.file_name(), obfuscated)
    }

    /// Picks the bundle to use, given which of the two candidate files exist in
    /// `search_dir`. The obfuscated bundle wins over the plain one.
    pub fn bundle(&self, search_dir: &str, bin_exists: bool, zip_exists: bool) -> (found: Option<
        BundleCandidate,
    >)
        ensures
            candidate_view(found) == located(
                bundle_path(search_dir@, self.base_name(), true),
                bundle_path(search_dir@, self.base_name(), false),
                bin_exists,
                zip_exists,
            ),
    {
        locate(
            self.candidate_path(search_dir, true),
            self.candidate_path(search_dir, false),
            bin_exists,
            zip_exists,
        )
    }

    /// Answers a load request for `path`, given the bundle file if there is one.
    pub fn load_path(&self, bundle: Option<BundleFile>, path: &str) -> (outcome: LoadOutcome)
        ensures
            outcome@ == load_outcome(bundle_view(bundle), path@),
            bundle matches Some(file) && file.bytes@.len() < MIN_ARCHIVE_LEN ==> outcome@
                == LoadOutcomeView::Failed(ArchiveError::Open),
    {
        resolve(bundle, path)
    }

    /// A directory listing is the fallback source's, handed on as it is: the bundle
    /// is not searched for listings.
    pub fn read_directory<T>(&self, fallback: T) -> (listing: T)
        ensures
            listing == fallback,
    {
        fallback
    }

    /// Whether a path is a directory is the fallback source's answer, handed on as it is.
    pub fn is_directory(&self, fallback: bool) -> (answer: bool)
        ensures
            answer == fallback,
    {
        fallback
    }

    /// Watching a path is the fallback source's business: its reply is handed on as
    /// it is. Changes inside a bundle are never reported.
    pub fn watch_path_for_changes<T>(&self, fallback: T) -> (reply: T)
        ensures
            reply == fallback,
    {
        fallback
    }

    /// Watching for changes is the fallback source's business: its reply is handed
    /// on as it is.
    pub fn watch_for_changes<T>(&self, fallback: T) -> (reply: T)
        ensures
            reply == fallback,
    {
        fallback
    }
}

/// The resolver of the stand-alone plugin. Like `AssetIoZip`, it looks for its
/// bundle in the search directory that its host hands in.
#[derive(Debug)]
pub struct AdvancedAssetIo {
    config: AdvancedAssetIoConfig,
}

impl AdvancedAssetIo {
    /// The base name of the bundle files this resolver looks for.
    pub closed spec fn base_name(&self) -> Seq<char> {
        self.config.base_name()
    }

    /// A resolver for the bundle that `config` names.
    pub fn new(config: AdvancedAssetIoConfig) -> (resolver: Self)
        ensures
            resolver.base_name() == config.base_name(),
    {
        AdvancedAssetIo { config }
    }

    /// The path at which the host is to look for the obfuscated or the plain bundle.
    pub fn candidate_path(&self, search_dir: &str, obfuscated: bool) -> (path: String)
        ensures
            path@ == bundle_path(search_dir@, self.base_name(), obfuscated),
    {
        bundle_path_in(search_dir, self.config.file_name(), obfuscated)
    }

    /// Picks the bundle to use, given which of the two candidate files exist in
    /// `search_dir`. The obfuscated bundle wins over the plain one.
    pub fn bundle(&self, search_dir: &str, bin_exists: bool, zip_exists: bool) -> (found: Option<
        BundleCandidate,
    >)
        ensures
            candidate_view(found) == located(
                bundle_path(search_dir@, self.base_name(), true),
                bundle_path(search_dir@, self.base_name(), false),
                bin_exists,
                zip_exists,
            ),
    {
        locate(
            self.candidate_path(search_dir, true),
            self.candidate_path(search_dir, false),
            bin_exists,
            zip_exists,
        )
    }

    /// Answers a load request for `path`, given the bundle file if there is one.
    pub fn load_path(&self, bundle: Option<BundleFile>, path: &str) -> (outcome: LoadOutcome)
        ensures
            outcome@ == load_outcome(bundle_view(bundle), path@),
            bundle matches Some(file) && file.bytes@.len() < MIN_ARCHIVE_LEN ==> outcome@
                == LoadOutcomeView::Failed(ArchiveError::Open),
    {
        resolve(bundle, path)
    }

    /// A directory listing is the fallback source's, handed on as it is: the bundle
    /// is not searched for listings.
    pub fn read_directory<T>(&self, fallback: T) -> (listing: T)
        ensures
            listing == fallback,
    {
        fallback
    }

    /// Whether a path is a directory is the fallback source's answer, handed on as it is.
    pub fn is_directory(&self, fallback: bool) -> (answer: bool)
        ensures
            answer == fallback,
    {
        fallback
    }

    /// Watching a path is the fallback source's business: its reply is handed on as
    /// it is. Changes inside a bundle are never reported.
    pub fn watch_path_for_changes<T>(&self, fallback: T) -> (reply: T)
        ensures
            reply == fallback,
    {
        fallback
    }

    /// Watching for changes is the fallback source's business: its reply is handed
    /// on as it is.
    pub fn watch_for_changes<T>(&self, fallback: T) -> (reply: T)
        ensures
            reply == fallback,
    {
        fallback
    }
}

/// Installs the resolver that searches beside the executable: it must be set up
/// before the host's default asset source, which becomes the fallback.
#[derive(Clone, Copy, Debug, Default)]
pub struct AssetIoZipPlugin;

impl AssetIoZipPlugin {
    /// The resolver to install: for the configuration the host holds, or for the
    /// default one where it holds none.
    pub fn build(&self, config: Option<AssetIoZipConfig>) -> (resolver: AssetIoZip)
        ensures
            resolver.base_name() == match config {
                Some(c) => c.base_name(),
                None => default_base_name(),
            },
    {
        match config {
            Some(c) => AssetIoZip::new(c),
            None => AssetIoZip::new(AssetIoZipConfig::default()),
        }
    }
}

/// Installs the stand-alone resolver: it must be set up before the host's default
/// asset source, which becomes the fallback.
#[derive(Clone, Copy, Debug, Default)]
pub struct AdvancedAssetIoPlugin;

impl AdvancedAssetIoPlugin {
    /// The resolver to install: for the configuration the host holds, or for the
    /// default one where it holds none.
    pub fn build(&self, config: Option<AdvancedAssetIoConfig>) -> (resolver: AdvancedAssetIo)
        ensures
            resolver.base_name() == match config {
                Some(c) => c.base_name(),
                None => default_base_name(),
            },
    {
        match config {
            Some(c) => AdvancedAssetIo::new(c),
            None => AdvancedAssetIo::new(AdvancedAssetIoConfig::default()),
        }
    }
}

} // verus!
