use bevy_assetio_zip::bundler::{EntryKind, SourceEntry};
use bevy_assetio_zip::resolver::{BundleFile, LoadOutcome};
use bevy_assetio_zip::stream::{ByteStream, MemoryStream};
use bevy_assetio_zip::{
    bundle_assets, bundle_crate_assets, AdvancedAssetIo, AdvancedAssetIoConfig,
    AdvancedAssetIoPlugin, AssetBundlerConfig, AssetIoZip, AssetIoZipConfig, AssetIoZipPlugin,
    Compression, Xor,
};

fn assets() -> Vec<SourceEntry> {
    vec![
        SourceEntry { path: Vec::new(), kind: EntryKind::Directory },
        SourceEntry { path: vec!["a.txt".to_string()], kind: EntryKind::File(b"one".to_vec()) },
        SourceEntry { path: vec!["sub".to_string()], kind: EntryKind::Directory },
        SourceEntry {
            path: vec!["sub".to_string(), "b.txt".to_string()],
            kind: EntryKind::File(b"two".to_vec()),
        },
        SourceEntry { path: vec!["sub2".to_string()], kind: EntryKind::Directory },
    ]
}

#[test]
fn bundle_written_for_a_crate_is_found_and_served_by_the_resolver() {
    let config = AssetBundlerConfig::default();
    let bundle = bundle_crate_assets(&config, "release", &assets()).unwrap().unwrap();
    assert_eq!(bundle.file, "./target/assets.zip");

    let resolver = AssetIoZipPlugin.build(Some(AssetIoZipConfig::default()));
    let candidate = resolver.bundle("./target", false, true).unwrap();
    assert_eq!(candidate.path, bundle.file);
    assert!(!candidate.obfuscated);

    let file = BundleFile { obfuscated: candidate.obfuscated, bytes: bundle.bytes.clone() };
    assert!(matches!(resolver.load_path(Some(file), "a.txt"), LoadOutcome::Loaded(b) if b == b"one"));
    let file = BundleFile { obfuscated: candidate.obfuscated, bytes: bundle.bytes.clone() };
    assert!(matches!(
        resolver.load_path(Some(file), "sub/b.txt"),
        LoadOutcome::Loaded(b) if b == b"two"
    ));
    let file = BundleFile { obfuscated: candidate.obfuscated, bytes: bundle.bytes };
    assert!(matches!(resolver.load_path(Some(file), "c.txt"), LoadOutcome::Fallback));
}

#[test]
fn both_resolvers_serve_the_same_bundle_alike() {
    let bytes = bundle_assets(&assets(), true, Compression::Deflate).unwrap();
    let beside_exe: AssetIoZip = AssetIoZipPlugin.build(None);
    let stand_alone: AdvancedAssetIo =
        AdvancedAssetIoPlugin.build(Some(AdvancedAssetIoConfig::default()));
    let one = beside_exe
        .load_path(Some(BundleFile { obfuscated: true, bytes: bytes.clone() }), "sub/b.txt");
    let other = stand_alone.load_path(Some(BundleFile { obfuscated: true, bytes }), "sub/b.txt");
    assert!(matches!(one, LoadOutcome::Loaded(b) if b == b"two"));
    assert!(matches!(other, LoadOutcome::Loaded(b) if b == b"two"));
}

#[test]
fn obfuscated_bundle_reads_as_a_plain_one_through_the_stream_wrapper() {
    let plain = bundle_assets(&assets(), false, Compression::Stored).unwrap();
    let obfuscated = bundle_assets(&assets(), true, Compression::Stored).unwrap();
    let mut stream = Xor::new(MemoryStream::new(obfuscated));
    let mut buf = vec![0u8; plain.len()];
    assert_eq!(stream.read(&mut buf), Ok(plain.len()));
    assert_eq!(buf, plain);
}
