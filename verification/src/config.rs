//! Configuration of the resolver: the base name of the bundle file it looks for.
//!
//! A base name is the bundle's file name without its extension. It is never empty
//! and holds no path separator, so a bundle always lies directly in the directory
//! that is searched. The configuration types keep that as their invariant.

use vstd::prelude::*;
use vstd::string::*;

verus! {

/// The base name used where none is configured.
pub open spec fn default_base_name() -> Seq<char> {
    "assets"@
}

/// Whether `c` separates the components of a path.
pub open spec fn is_separator(c: char) -> bool {
    c == '/' || c == '\\'
}

/// A base name is valid when it is not empty and holds no path separator.
pub open spec fn valid_base_name(name: Seq<char>) -> bool {
    &&& name.len() > 0
    &&& forall|i: int| 0 <= i < name.len() ==> !is_separator(#[trigger] name[i])
}

/// The default base name is a valid one.
pub proof fn lemma_default_base_name_valid()
    ensures
        valid_base_name(default_base_name()),
{
    reveal_strlit("assets");
}

/// What is wrong with a configuration.
#[derive(Clone, Copy, Debug, PartialEq, Eq, Structural)]
pub enum ConfigError {
    /// The configuration text is not a table of keys and values.
    Syntax,
    /// A key is none of the recognised options.
    UnknownKey,
    /// A recognised option has a value of the wrong type, or one it does not allow.
    InvalidValue,
    /// The file name is empty or holds a path separator.
    InvalidFileName,
}

/// How the entries of a bundle are compressed.
#[derive(Clone, Copy, Debug, PartialEq, Eq, Structural)]
pub enum Compression {
    /// Entries are stored as they are, without compression.
    Stored,
    /// Entries are compressed with Deflate.
    Deflate,
    /// Entries are compressed with Bzip2.
    Bzip2,
}

/// Whether two strings hold the same characters.
pub fn str_eq(a: &str, b: &str) -> (same: bool)
    ensures
        same == (a@ == b@),
{
    let left = String::from_str(a);
    let right = String::from_str(b);
    left == right
}

/// Checks a base name: not empty, and no character of it a path separator.
pub fn is_valid_base_name(name: &str) -> (ok: bool)
    ensures
        ok == valid_base_name(name@),
{
    let n = name.unicode_len();
    if n == 0 {
        return false;
    }
    let mut i: usize = 0;
    while i < n
        invariant
            n == name@.len(),
            i <= n,
            forall|j: int| 0 <= j < i ==> !is_separator(#[trigger] name@[j]),
        decreases n - i,
    {
        let c = name.get_char(i);
        if c == '/' || c == '\\' {
            return false;
        }
        i += 1;
    }
    true
}

/// Configuration of the resolver that looks for its bundle beside the executable.
#[derive(Debug)]
pub struct AssetIoZipConfig {
    /// The name of the bundle file, without the extension. The file read is this
    /// name with `.bin` (obfuscated) or `.zip` (plain), whichever is present.
    file_name: String,
}

impl AssetIoZipConfig {
    #[verifier::type_invariant]
    spec fn well_formed(&self) -> bool {
        valid_base_name(self.file_name@)
    }

    /// The configured base name.
    pub closed spec fn base_name(&self) -> Seq<char> {
        self.file_name@
    }

    /// A configuration with the given base name, if the name is valid.
    pub fn new(file_name: String) -> (r: Result<Self, ConfigError>)
        ensures
            match r {
                Ok(config) => valid_base_name(file_name@) && config.base_name() == file_name@,
                Err(e) => !valid_base_name(file_name@) && e == ConfigError::InvalidFileName,
            },
    {
        if is_valid_base_name(file_name.as_str()) {
            Ok(AssetIoZipConfig { file_name })
        } else {
            Err(ConfigError::InvalidFileName)
        }
    }

    /// The configured base name, which is always a valid one.
    pub fn file_name(&self) -> (name: &str)
        ensures
            name@ == self.base_name(),
            valid_base_name(name@),
    {
        proof {
            use_type_invariant(self);
        }
        self.file_name.as_str()
    }
}

impl Clone for AssetIoZipConfig {
    fn clone(&self) -> (copy: Self)
        ensures
            copy.base_name() == self.base_name(),
    {
        proof {
            use_type_invariant(self);
        }
        AssetIoZipConfig { file_name: self.file_name.clone() }
    }
}

impl Default for AssetIoZipConfig {
    /// The base name `assets`.
    fn default() -> (config: Self)
        ensures
            config.base_name() == default_base_name(),
    {
        proof {
            lemma_default_base_name_valid();
        }
        AssetIoZipConfig { file_name: String::from_str("assets") }
    }
}

/// Configuration of the stand-alone resolver.
#[derive(Debug)]
pub struct AdvancedAssetIoConfig {
    /// The name of the bundle file, without the extension. The file read is this
    /// name with `.bin` (obfuscated) or `.zip` (plain), whichever is present.
    file_name: String,
}

impl AdvancedAssetIoConfig {
    #[verifier::type_invariant]
    spec fn well_formed(&self) -> bool {
        valid_base_name(self.file_name@)
    }

    /// The configured base name.
    pub closed spec fn base_name(&self) -> Seq<char> {
        self.file_name@
    }

    /// A configuration with the given base name, if the name is valid.
    pub fn new(file_name: String) -> (r: Result<Self, ConfigError>)
        ensures
            match r {
                Ok(config) => valid_base_name(file_name@) && config.base_name() == file_name@,
                Err(e) => !valid_base_name(file_name@) && e == ConfigError::InvalidFileName,
            },
    {
        if is_valid_base_name(file_name.as_str()) {
            Ok(AdvancedAssetIoConfig { file_name })
        } else {
            Err(ConfigError::InvalidFileName)
        }
    }

    /// The configured base name, which is always a valid one.
    pub fn file_name(&self) -> (name: &str)
        ensures
            name@ == self.base_name(),
            valid_base_name(name@),
    {
        proof {
            use_type_invariant(self);
        }
        self.file_name.as_str()
    }
}

impl Clone for AdvancedAssetIoConfig {
    fn clone(&self) -> (copy: Self)
        ensures
            copy.base_name() == self.base_name(),
    {
        proof {
            use_type_invariant(self);
        }
        AdvancedAssetIoConfig { file_name: self.file_name.clone() }
    }
}

impl Default for AdvancedAssetIoConfig {
    /// The base name `assets`.
    fn default() -> (config: Self)
        ensures
            config.base_name() == default_base_name(),
    {
        proof {
            lemma_default_base_name_valid();
        }
        AdvancedAssetIoConfig { file_name: String::from_str("assets") }
    }
}

} // verus!
