//! Asset bundles for an application: a resolver that serves assets out of an
//! optionally obfuscated zip bundle before deferring to a fallback source, and
//! the bundler that produces such bundles.
//!
//! A bundle is a zip archive of an asset directory. It lies in one file, named
//! `<base name>.zip` when plain and `<base name>.bin` when obfuscated; an obfuscated
//! bundle is the plain one with every byte XOR-ed with `0x55`. Obfuscation keeps
//! casual eyes off the assets and protects nothing.
//!
//! The library works on plain values and leaves all I/O to its host:
//!
//! - [`xor`] holds the byte transform and a stream wrapper that applies it;
//! - [`stream`] holds the streams the wrapper works on;
//! - [`config`] holds the configuration of the resolvers;
//! - [`archive`] opens archive bytes and looks entries up;
//! - [`resolver`] picks the bundle file and answers load requests;
//! - [`nesting`] measures how deep a configuration file nests;
//! - [`bundler_config`] reads the configuration of the bundler;
//! - [`bundler`] turns a walked directory tree into the bytes of a bundle file.

pub mod archive;
pub mod bundler;
pub mod bundler_config;
pub mod config;
pub mod nesting;
pub mod resolver;
pub mod stream;
pub mod xor;

pub use bundler::{bundle_assets, bundle_crate_assets};
pub use bundler_config::AssetBundlerConfig;
pub use config::{AdvancedAssetIoConfig, AssetIoZipConfig, Compression};
pub use resolver::{AdvancedAssetIo, AdvancedAssetIoPlugin, AssetIoZip, AssetIoZipPlugin};
pub use xor::Xor;
