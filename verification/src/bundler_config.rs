//! Configuration of the bundler, and how it is read from a configuration file.
//!
//! The file is a TOML table of options. Each option has a default; a key that is no
//! option, or a value that an option does not allow, is an error and never ignored.
//! The `toml` crate parses the text; which keys and values are accepted is decided
//! here.

use crate::config::{
    default_base_name, is_valid_base_name, lemma_default_base_name_valid, str_eq,
    valid_base_name, Compression, ConfigError,
};
use crate::nesting::{nesting, within_nesting_bound, MAX_NESTING};
use crate::resolver::{bundle_path, bundle_path_in};
use toml::Value;
use vstd::prelude::*;
use vstd::string::*;

verus! {

/// `toml::de::Error`, the error of parsing a document.
#[verifier::external_type_specification]
#[verifier::external_body]
pub struct ExTomlError(toml::de::Error);

/// The value of one option as the configuration file gives it.
#[derive(Debug)]
pub enum ConfigValue {
    /// A string.
    Text(String),
    /// A boolean.
    Flag(bool),
    /// A value of any other type: a number, a date, an array or a table.
    Other,
}

/// An option's value with its text as a sequence.
pub enum ConfigValueView {
    Text(Seq<char>),
    Flag(bool),
    Other,
}

impl View for ConfigValue {
    type V = ConfigValueView;

    open spec fn view(&self) -> ConfigValueView {
        match *self {
            ConfigValue::Text(text) => ConfigValueView::Text(text@),
            ConfigValue::Flag(flag) => ConfigValueView::Flag(flag),
            ConfigValue::Other => ConfigValueView::Other,
        }
    }
}

/// One line of configuration: a key and the value given for it.
#[derive(Debug)]
pub struct ConfigEntry {
    pub key: String,
    pub value: ConfigValue,
}

impl View for ConfigEntry {
    type V = (Seq<char>, ConfigValueView);

    open spec fn view(&self) -> (Seq<char>, ConfigValueView) {
        (self.key@, self.value@)
    }
}

/// A list of configuration entries, each by its view.
pub open spec fn config_entries_view(entries: Seq<ConfigEntry>) -> Seq<(Seq<char>, ConfigValueView)> {
    Seq::new(entries.len(), |i: int| entries[i]@)
}

/// The top-level table that `toml::from_slice` reads from `bytes`, as its keys and
/// values in the order the table hands them out; `None` where the bytes are no
/// TOML document, or one that gives a key twice.
pub uninterp spec fn toml_table(bytes: Seq<u8>) -> Option<Seq<(Seq<char>, ConfigValueView)>>;

/// Calls `toml::from_slice` for a `toml::Value` and lists the entries of the table
/// that comes out; `Ok(None)` where what comes out is no table.
///
/// Trusted: the outcome depends on the bytes alone. Strings and booleans come out
/// as they are; values of other types come out as `ConfigValue::Other`. Bytes that
/// nest deeper than the bound are kept from it: the parser recurses on nesting.
#[verifier::external_body]
fn toml_entries(bytes: &[u8]) -> (r: Result<Option<Vec<ConfigEntry>>, toml::de::Error>)
    requires
        nesting(bytes@) <= MAX_NESTING,
    ensures
        match r {
            Ok(Some(entries)) => toml_table(bytes@) == Some(config_entries_view(entries@)),
            Ok(None) => toml_table(bytes@) is None,
            Err(_) => toml_table(bytes@) is None,
        },
{
    let document: Value = toml::from_slice(bytes)?;
    let table = match document {
        Value::Table(table) => table,
        _ => return Ok(None),
    };
    let mut entries = Vec::new();
    for (key, value) in table {
        let value = match value {
            Value::String(text) => ConfigValue::Text(text),
            Value::Boolean(flag) => ConfigValue::Flag(flag),
            _ => ConfigValue::Other,
        };
        entries.push(ConfigEntry { key, value });
    }
    Ok(Some(entries))
}

/// The options of the bundler.
pub struct BundlerSettings {
    /// The base name of the bundle file.
    pub file_name: Seq<char>,
    /// How entries are compressed.
    pub compression: Compression,
    /// Whether the bundle file is obfuscated.
    pub obfuscate: bool,
    /// Whether bundles are made for builds other than release builds.
    pub bundle_for_debug_builds: bool,
    /// The directory the bundle file is written to.
    pub out_dir: Seq<char>,
}

/// The options where nothing is configured: `assets`, Bzip2, not obfuscated, release
/// builds only, written to `./target`.
pub open spec fn default_settings() -> BundlerSettings {
    BundlerSettings {
        file_name: default_base_name(),
        compression: Compression::Bzip2,
        obfuscate: false,
        bundle_for_debug_builds: false,
        out_dir: "./target"@,
    }
}

/// The compression that a configured name stands for.
pub open spec fn compression_named(name: Seq<char>) -> Option<Compression> {
    if name == "none"@ {
        Some(Compression::Stored)
    } else if name == "deflate"@ {
        Some(Compression::Deflate)
    } else if name == "bzip2"@ {
        Some(Compression::Bzip2)
    } else {
        None
    }
}

/// Whether `key` is one of the options.
pub open spec fn is_option(key: Seq<char>) -> bool {
    ||| key == "file-name"@
    ||| key == "compression"@
    ||| key == "obfuscate"@
    ||| key == "bundle-for-debug-builds"@
    ||| key == "out-dir"@
}

/// The settings with one configuration entry applied, or what is wrong with the entry.
pub open spec fn apply_entry(settings: BundlerSettings, key: Seq<char>, value: ConfigValueView) -> Result<
    BundlerSettings,
    ConfigError,
> {
    if key == "file-name"@ {
        match value {
            ConfigValueView::Text(name) => if valid_base_name(name) {
                Ok(BundlerSettings { file_name: name, ..settings })
            } else {
                Err(ConfigError::InvalidFileName)
            },
            _ => Err(ConfigError::InvalidValue),
        }
    } else if key == "compression"@ {
        match value {
            ConfigValueView::Text(name) => match compression_named(name) {
                Some(compression) => Ok(BundlerSettings { compression, ..settings }),
                None => Err(ConfigError::InvalidValue),
            },
            _ => Err(ConfigError::InvalidValue),
        }
    } else if key == "obfuscate"@ {
        match value {
            ConfigValueView::Flag(obfuscate) => Ok(BundlerSettings { obfuscate, ..settings }),
            _ => Err(ConfigError::InvalidValue),
        }
    } else if key == "bundle-for-debug-builds"@ {
        match value {
            ConfigValueView::Flag(flag) => Ok(
                BundlerSettings { bundle_for_debug_builds: flag, ..settings },
            ),
            _ => Err(ConfigError::InvalidValue),
        }
    } else if key == "out-dir"@ {
        match value {
            ConfigValueView::Text(dir) => Ok(BundlerSettings { out_dir: dir, ..settings }),
            _ => Err(ConfigError::InvalidValue),
        }
    } else {
        Err(ConfigError::UnknownKey)
    }
}

/// The settings with the entries applied one after another. The first entry that
/// is wrong decides the error.
pub open spec fn apply_entries(
    settings: BundlerSettings,
    entries: Seq<(Seq<char>, ConfigValueView)>,
) -> Result<BundlerSettings, ConfigError>
    decreases entries.len(),
{
    if entries.len() == 0 {
        Ok(settings)
    } else {
        match apply_entry(settings, entries[0].0, entries[0].1) {
            Ok(next) => apply_entries(next, entries.drop_first()),
            Err(e) => Err(e),
        }
    }
}

/// An entry that names one of the options never fails for an unknown key, and an
/// entry that names none always does.
pub proof fn lemma_unknown_key_iff_no_option(
    settings: BundlerSettings,
    key: Seq<char>,
    value: ConfigValueView,
)
    ensures
        apply_entry(settings, key, value) == Err::<BundlerSettings, ConfigError>(
            ConfigError::UnknownKey,
        ) <==> !is_option(key),
{
}

/// Unknown keys are rejected, wherever they stand: a configuration with a key that
/// is no option yields no settings.
pub proof fn lemma_unknown_key_rejected(
    settings: BundlerSettings,
    entries: Seq<(Seq<char>, ConfigValueView)>,
    at: int,
)
    requires
        0 <= at < entries.len(),
        !is_option(entries[at].0),
    ensures
        apply_entries(settings, entries) is Err,
    decreases entries.len(),
{
    if at > 0 {
        match apply_entry(settings, entries[0].0, entries[0].1) {
            Ok(next) => {
                lemma_unknown_key_rejected(next, entries.drop_first(), at - 1);
            },
            Err(_) => {},
        }
    }
}

/// The file name of accepted settings is always valid, given that it was valid
/// to begin with.
pub proof fn lemma_settings_keep_valid_name(
    settings: BundlerSettings,
    entries: Seq<(Seq<char>, ConfigValueView)>,
)
    requires
        valid_base_name(settings.file_name),
    ensures
        apply_entries(settings, entries) matches Ok(result) ==> valid_base_name(result.file_name),
    decreases entries.len(),
{
    if entries.len() > 0 {
        match apply_entry(settings, entries[0].0, entries[0].1) {
            Ok(next) => {
                lemma_settings_keep_valid_name(next, entries.drop_first());
            },
            Err(_) => {},
        }
    }
}

/// The settings that the bytes of a configuration file give: a syntax error where
/// the bytes nest too deep or are no TOML table, else the defaults with the table's
/// entries applied.
pub open spec fn toml_settings(bytes: Seq<u8>) -> Result<BundlerSettings, ConfigError> {
    if nesting(bytes) > MAX_NESTING {
        Err(ConfigError::Syntax)
    } else {
        match toml_table(bytes) {
            None => Err(ConfigError::Syntax),
            Some(entries) => apply_entries(default_settings(), entries),
        }
    }
}

/// The compression that a configured name stands for: `none`, `deflate` or `bzip2`.
pub fn parse_compression(name: &str) -> (compression: Option<Compression>)
    ensures
        compression == compression_named(name@),
{
    if str_eq(name, "none") {
        Some(Compression::Stored)
    } else if str_eq(name, "deflate") {
        Some(Compression::Deflate)
    } else if str_eq(name, "bzip2") {
        Some(Compression::Bzip2)
    } else {
        None
    }
}

/// Configuration of the bundler.
#[derive(Debug)]
pub struct AssetBundlerConfig {
    file_name: String,
    compression: Compression,
    obfuscate: bool,
    bundle_for_debug_builds: bool,
    out_dir: String,
}

/// A configuration, or the error of reading one, by its view.
pub open spec fn config_view(r: Result<AssetBundlerConfig, ConfigError>) -> Result<
    BundlerSettings,
    ConfigError,
> {
    match r {
        Ok(config) => Ok(config@),
        Err(e) => Err(e),
    }
}

impl View for AssetBundlerConfig {
    type V = BundlerSettings;

    closed spec fn view(&self) -> BundlerSettings {
        BundlerSettings {
            file_name: self.file_name@,
            compression: self.compression,
            obfuscate: self.obfuscate,
            bundle_for_debug_builds: self.bundle_for_debug_builds,
            out_dir: self.out_dir@,
        }
    }
}

impl AssetBundlerConfig {
    #[verifier::type_invariant]
    spec fn well_formed(&self) -> bool {
        valid_base_name(self.file_name@)
    }

    /// The configuration that the given entries describe: the defaults, with each
    /// entry applied in turn. A key that is no option gives `UnknownKey`; a value of
    /// the wrong type, or a compression that is none of `none`, `deflate`, `bzip2`,
    /// gives `InvalidValue`; an empty file name or one with a path separator gives
    /// `InvalidFileName`. The first entry that is wrong decides.
    pub fn from_entries(entries: &Vec<ConfigEntry>) -> (r: Result<Self, ConfigError>)
        ensures
            config_view(r) == apply_entries(default_settings(), config_entries_view(entries@)),
    {
        let ghost all = config_entries_view(entries@);
        let mut file_name = String::from_str("assets");
        let mut compression = Compression::Bzip2;
        let mut obfuscate = false;
        let mut bundle_for_debug_builds = false;
        let mut out_dir = String::from_str("./target");
        proof {
            lemma_default_base_name_valid();
            assert(all.skip(0) =~= all);
        }
        let mut i: usize = 0;
        while i < entries.len()
            invariant
                i <= entries.len(),
                all == config_entries_view(entries@),
                valid_base_name(file_name@),
                apply_entries(default_settings(), all) == apply_entries(
                    BundlerSettings {
                        file_name: file_name@,
                        compression,
                        obfuscate,
                        bundle_for_debug_builds,
                        out_dir: out_dir@,
                    },
                    all.skip(i as int),
                ),
            decreases entries.len() - i,
        {
            proof {
                assert(all.skip(i as int).drop_first() =~= all.skip(i + 1));
                assert(all.skip(i as int)[0] == entries[i as int]@);
            }
            let entry = &entries[i];
            let key = entry.key.as_str();
            if str_eq(key, "file-name") {
                match &entry.value {
                    ConfigValue::Text(name) => {
                        if is_valid_base_name(name.as_str()) {
                            file_name = name.clone();
                        } else {
                            return Err(ConfigError::InvalidFileName);
                        }
                    },
                    _ => {
                        return Err(ConfigError::InvalidValue);
                    },
                }
            } else if str_eq(key, "compression") {
                match &entry.value {
                    ConfigValue::Text(name) => {
                        match parse_compression(name.as_str()) {
                            Some(chosen) => {
                                compression = chosen;
                            },
                            None => {
                                return Err(ConfigError::InvalidValue);
                            },
                        }
                    },
                    _ => {
                        return Err(ConfigError::InvalidValue);
                    },
                }
            } else if str_eq(key, "obfuscate") {
                match &entry.value {
                    ConfigValue::Flag(flag) => {
                        obfuscate = *flag;
                    },
                    _ => {
                        return Err(ConfigError::InvalidValue);
                    },
                }
            } else if str_eq(key, "bundle-for-debug-builds") {
                match &entry.value {
                    ConfigValue::Flag(flag) => {
                        bundle_for_debug_builds = *flag;
                    },
                    _ => {
                        return Err(ConfigError::InvalidValue);
                    },
                }
            } else if str_eq(key, "out-dir") {
                match &entry.value {
                    ConfigValue::Text(dir) => {
                        out_dir = dir.clone();
                    },
                    _ => {
                        return Err(ConfigError::InvalidValue);
                    },
                }
            } else {
                return Err(ConfigError::UnknownKey);
            }
            i += 1;
        }
        Ok(AssetBundlerConfig { file_name, compression, obfuscate, bundle_for_debug_builds, out_dir })
    }

    /// The configuration that a configuration file holds. Without a file it is the
    /// default one. A file that is no TOML table gives `ConfigError::Syntax`, and so
    /// does one that gives a key twice, and one that nests deeper than
    /// `MAX_NESTING`. For the entries of an accepted file, see `from_entries`.
    pub fn from_toml(file: Option<&[u8]>) -> (r: Result<Self, ConfigError>)
        ensures
            config_view(r) == match file {
                None => Ok(default_settings()),
                Some(bytes) => toml_settings(bytes@),
            },
    {
        match file {
            None => Ok(AssetBundlerConfig::default()),
            Some(bytes) => {
                if !within_nesting_bound(bytes) {
                    return Err(ConfigError::Syntax);
                }
                match toml_entries(bytes) {
                    Ok(Some(entries)) => AssetBundlerConfig::from_entries(&entries),
                    Ok(None) => Err(ConfigError::Syntax),
                    Err(_) => Err(ConfigError::Syntax),
                }
            },
        }
    }

    /// The base name of the bundle file, which is always a valid one.
    pub fn file_name(&self) -> (name: &str)
        ensures
            name@ == self@.file_name,
            valid_base_name(name@),
    {
        proof {
            use_type_invariant(self);
        }
        self.file_name.as_str()
    }

    /// How entries are compressed.
    pub fn compression(&self) -> (compression: Compression)
        ensures
            compression == self@.compression,
    {
        self.compression
    }

    /// Whether the bundle file is obfuscated.
    pub fn obfuscate(&self) -> (obfuscate: bool)
        ensures
            obfuscate == self@.obfuscate,
    {
        self.obfuscate
    }

    /// Whether bundles are made for builds other than release builds.
    pub fn bundle_for_debug_builds(&self) -> (flag: bool)
        ensures
            flag == self@.bundle_for_debug_builds,
    {
        self.bundle_for_debug_builds
    }

    /// The directory the bundle file is written to.
    pub fn out_dir(&self) -> (dir: &str)
        ensures
            dir@ == self@.out_dir,
    {
        self.out_dir.as_str()
    }

    /// The path of the bundle file: the output directory, a slash, the base name, a
    /// dot, and `bin` for an obfuscated bundle or `zip` for a plain one.
    pub fn bundle_file(&self) -> (path: String)
        ensures
            path@ == bundle_path(self@.out_dir, self@.file_name, self@.obfuscate),
    {
        bundle_path_in(self.out_dir.as_str(), self.file_name.as_str(), self.obfuscate)
    }

    /// Whether a build with the given profile gets a bundle: a release build always,
    /// any other only where the configuration asks for it.
    pub fn bundles_profile(&self, profile: &str) -> (wanted: bool)
        ensures
            wanted == should_bundle(self@, profile@),
    {
        str_eq(profile, "release") || self.bundle_for_debug_builds
    }
}

/// Whether a build with the given profile gets a bundle.
pub open spec fn should_bundle(settings: BundlerSettings, profile: Seq<char>) -> bool {
    profile == "release"@ || settings.bundle_for_debug_builds
}

impl Default for AssetBundlerConfig {
    fn default() -> (config: Self)
        ensures
            config@ == default_settings(),
    {
        proof {
            lemma_default_base_name_valid();
        }
        AssetBundlerConfig {
            file_name: String::from_str("assets"),
            compression: Compression::Bzip2,
            obfuscate: false,
            bundle_for_debug_builds: false,
            out_dir: String::from_str("./target"),
        }
    }
}

} // verus!
