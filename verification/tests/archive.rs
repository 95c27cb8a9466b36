use bevy_assetio_zip::archive::{
    find_unsafe_offset, read_archive, Archive, ArchiveError, MIN_ARCHIVE_LEN,
};
use std::io::Write;

fn sample_archive() -> Vec<u8> {
    let mut writer = zip::ZipWriter::new(std::io::Cursor::new(Vec::new()));
    let options =
        zip::write::FileOptions::default().compression_method(zip::CompressionMethod::Deflated);
    writer.start_file("readme.txt", options).unwrap();
    writer.write_all(b"read me first").unwrap();
    writer.add_directory("textures", options).unwrap();
    writer.start_file("textures/stone.png", options).unwrap();
    writer.write_all(&[0x89, b'P', b'N', b'G', 1, 2, 3, 4]).unwrap();
    writer.finish().unwrap().into_inner()
}

#[test]
fn archive_finds_entries_by_their_exact_name() {
    let mut archive = Archive::open(sample_archive()).unwrap();
    assert!(matches!(archive.entry("readme.txt"), Ok(Some(_))));
    assert!(matches!(archive.entry("textures/stone.png"), Ok(Some(_))));
    assert!(matches!(archive.entry("textures/"), Ok(Some(_))));
    assert_eq!(archive.entry("textures"), Ok(None));
    assert_eq!(archive.entry("README.TXT"), Ok(None));
    assert_eq!(archive.entry(""), Ok(None));
}

#[test]
fn archive_entry_is_the_decompressed_contents() {
    let mut archive = Archive::open(sample_archive()).unwrap();
    assert_eq!(archive.entry("readme.txt"), Ok(Some(b"read me first".to_vec())));
    assert_eq!(
        archive.entry("textures/stone.png"),
        Ok(Some(vec![0x89, b'P', b'N', b'G', 1, 2, 3, 4]))
    );
    assert_eq!(archive.entry("textures/"), Ok(Some(Vec::new())));
    assert_eq!(archive.entry("nowhere"), Ok(None));
    assert_eq!(archive.entry("readme.txt"), Ok(Some(b"read me first".to_vec())));
}

#[test]
fn short_input_is_never_an_archive() {
    assert_eq!(MIN_ARCHIVE_LEN, 22);
    assert!(matches!(Archive::open(Vec::new()), Err(ArchiveError::Open)));
    assert!(matches!(Archive::open(vec![0x50, 0x4b, 0x05, 0x06]), Err(ArchiveError::Open)));
    assert!(matches!(Archive::open(vec![0u8; 21]), Err(ArchiveError::Open)));
}

#[test]
fn empty_archive_opens_with_the_end_record_alone() {
    let mut end_record = vec![0x50, 0x4b, 0x05, 0x06];
    end_record.extend(vec![0u8; 18]);
    assert_eq!(end_record.len(), 22);
    let mut archive = Archive::open(end_record).unwrap();
    assert_eq!(archive.entry("anything"), Ok(None));
}

#[test]
fn garbage_and_truncated_archives_do_not_open() {
    assert!(matches!(Archive::open(vec![0x42u8; 500]), Err(ArchiveError::Open)));
    let whole = sample_archive();
    let cut = whole[..whole.len() - 1].to_vec();
    assert!(matches!(Archive::open(cut), Err(ArchiveError::Open)));
    let half = whole[..whole.len() / 2].to_vec();
    assert!(matches!(Archive::open(half), Err(ArchiveError::Open)));
}

#[test]
fn read_archive_opens_and_looks_up_in_one_step() {
    assert_eq!(read_archive(sample_archive(), "readme.txt"), Ok(Some(b"read me first".to_vec())));
    assert_eq!(read_archive(sample_archive(), "absent"), Ok(None));
    assert_eq!(read_archive(vec![1, 2, 3], "readme.txt"), Err(ArchiveError::Open));
}

#[test]
fn damaged_contents_give_a_read_error() {
    let mut writer = zip::ZipWriter::new(std::io::Cursor::new(Vec::new()));
    let options =
        zip::write::FileOptions::default().compression_method(zip::CompressionMethod::Stored);
    writer.start_file("data", options).unwrap();
    writer.write_all(b"payload-payload").unwrap();
    let mut bytes = writer.finish().unwrap().into_inner();
    let at = bytes.windows(7).position(|w| w == b"payload").unwrap();
    bytes[at] ^= 0xff;
    let mut archive = Archive::open(bytes).unwrap();
    assert_eq!(archive.entry("data"), Err(ArchiveError::Read));
    assert_eq!(archive.entry("other"), Ok(None));
}

#[test]
fn error_messages_name_the_failure() {
    assert_eq!(ArchiveError::Open.message(), "asset bundle is not a well-formed archive");
    assert_eq!(ArchiveError::Read.message(), "asset bundle entry could not be read");
}

fn directory_header(offset: [u8; 4], extra: &[u8]) -> Vec<u8> {
    let mut header = vec![0x50, 0x4b, 0x01, 0x02];
    header.extend(vec![0u8; 26]);
    header.extend((extra.len() as u16).to_le_bytes());
    header.extend(vec![0u8; 10]);
    header.extend(offset);
    assert_eq!(header.len(), 46);
    header.extend(extra);
    header
}

fn end_record(entries: u16, directory_size: u32, directory_offset: u32) -> Vec<u8> {
    let mut end = vec![0x50, 0x4b, 0x05, 0x06, 0, 0, 0, 0];
    end.extend(entries.to_le_bytes());
    end.extend(entries.to_le_bytes());
    end.extend(directory_size.to_le_bytes());
    end.extend(directory_offset.to_le_bytes());
    end.extend([0u8, 0]);
    assert_eq!(end.len(), 22);
    end
}

fn zip64_record(offset: u64) -> Vec<u8> {
    let mut extra = vec![0x01, 0x00, 0x08, 0x00];
    extra.extend(offset.to_le_bytes());
    extra
}

/// An archive of one stored file whose directory gives the file's offset in a
/// 64-bit record, as the directories of archives beyond 4 GiB do.
fn archive_with_wide_offset(offset: u64) -> Vec<u8> {
    let mut writer = zip::ZipWriter::new(std::io::Cursor::new(Vec::new()));
    let options =
        zip::write::FileOptions::default().compression_method(zip::CompressionMethod::Stored);
    writer.start_file("wide.txt", options).unwrap();
    writer.write_all(b"reached through a 64-bit offset").unwrap();
    let mut bytes = writer.finish().unwrap().into_inner();

    let header = bytes.windows(4).position(|w| w == [0x50, 0x4b, 0x01, 0x02]).unwrap();
    let name_len = u16::from_le_bytes([bytes[header + 28], bytes[header + 29]]) as usize;
    assert_eq!(&bytes[header + 30..header + 32], &[0, 0]);
    assert_eq!(&bytes[header + 42..header + 46], &[0, 0, 0, 0]);
    bytes[header + 30] = 12;
    for b in &mut bytes[header + 42..header + 46] {
        *b = 0xff;
    }
    let extra_at = header + 46 + name_len;
    let tail = bytes.split_off(extra_at);
    bytes.extend(zip64_record(offset));
    bytes.extend(tail);

    let end = bytes.len() - 22;
    assert_eq!(&bytes[end..end + 4], &[0x50, 0x4b, 0x05, 0x06]);
    let size = u32::from_le_bytes([bytes[end + 12], bytes[end + 13], bytes[end + 14], bytes[end + 15]]);
    bytes[end + 12..end + 16].copy_from_slice(&(size + 12).to_le_bytes());
    bytes
}

#[test]
fn an_entry_behind_a_64_bit_offset_is_served() {
    let bytes = archive_with_wide_offset(0);
    assert!(!find_unsafe_offset(&bytes));
    let mut archive = Archive::open(bytes.clone()).unwrap();
    assert_eq!(
        archive.entry("wide.txt"),
        Ok(Some(b"reached through a 64-bit offset".to_vec()))
    );
    assert_eq!(archive.entry("narrow.txt"), Ok(None));
    assert_eq!(read_archive(bytes, "narrow.txt"), Ok(None));
}

#[test]
fn a_64_bit_offset_within_range_is_not_refused() {
    let bytes = archive_with_wide_offset(5_000_000_000);
    assert!(!find_unsafe_offset(&bytes));
    let mut archive = Archive::open(bytes).unwrap();
    assert_eq!(archive.entry("narrow.txt"), Ok(None));
    let far = u64::MAX - 0x4_0000 - 10_000;
    assert!(!find_unsafe_offset(&archive_with_wide_offset(far)));
    assert!(Archive::open(archive_with_wide_offset(far)).is_ok());
}

#[test]
fn an_offset_out_of_range_is_refused() {
    let mut bytes = vec![0u8];
    let header = directory_header([0xff; 4], &zip64_record(u64::MAX));
    bytes.extend(&header);
    bytes.extend(end_record(1, header.len() as u32, 0));
    assert_eq!(bytes.len(), 81);
    assert!(find_unsafe_offset(&bytes));
    assert!(matches!(Archive::open(bytes.clone()), Err(ArchiveError::Open)));
    assert_eq!(read_archive(bytes, "a"), Err(ArchiveError::Open));

    for offset in [u64::MAX, u64::MAX - 1, u64::MAX - 0x4_0000, u64::MAX - 0x4_0000 - 100] {
        let bytes = archive_with_wide_offset(offset);
        assert!(find_unsafe_offset(&bytes));
        assert!(matches!(Archive::open(bytes), Err(ArchiveError::Open)));
    }
}

#[test]
fn only_the_offset_that_the_directory_reads_counts() {
    assert!(!find_unsafe_offset(&[]));
    assert!(!find_unsafe_offset(&[0xff; 45]));
    assert!(!find_unsafe_offset(&[0xff; 500]));
    assert!(!find_unsafe_offset(&sample_archive()));

    // a wide mark without a 64-bit record, and with a record of another kind
    assert!(!find_unsafe_offset(&directory_header([0xff; 4], &[])));
    let mut other = vec![0x02, 0x00, 0x08, 0x00];
    other.extend(u64::MAX.to_le_bytes());
    assert!(!find_unsafe_offset(&directory_header([0xff; 4], &other)));

    // a record behind one of another kind is read
    let mut second = vec![0x0a, 0x00, 0x03, 0x00, 1, 2, 3];
    second.extend(zip64_record(u64::MAX));
    assert!(find_unsafe_offset(&directory_header([0xff; 4], &second)));

    // the offset is not marked wide: the record is not read for it
    assert!(!find_unsafe_offset(&directory_header([0, 0, 0, 0], &zip64_record(u64::MAX))));
    assert!(!find_unsafe_offset(&directory_header(
        [0xff, 0xff, 0xff, 0xfe],
        &zip64_record(u64::MAX)
    )));

    // sizes marked wide come first in the record
    let mut header = directory_header([0xff; 4], &[]);
    for b in &mut header[20..28] {
        *b = 0xff;
    }
    let mut three = vec![0x01, 0x00, 0x18, 0x00];
    three.extend(7u64.to_le_bytes());
    three.extend(u64::MAX.to_le_bytes());
    three.extend(9u64.to_le_bytes());
    header[30] = three.len() as u8;
    let mut sane = header.clone();
    sane.extend(&three);
    assert!(!find_unsafe_offset(&sane));
    let mut three = vec![0x01, 0x00, 0x18, 0x00];
    three.extend(7u64.to_le_bytes());
    three.extend(8u64.to_le_bytes());
    three.extend(u64::MAX.to_le_bytes());
    let mut wild = header.clone();
    wild.extend(&three);
    assert!(find_unsafe_offset(&wild));

    // a record cut short by the end of the extra field is not read
    let mut cut = directory_header([0xff; 4], &zip64_record(u64::MAX)[..11]);
    assert!(!find_unsafe_offset(&cut));
    cut.push(0xff);
    assert!(!find_unsafe_offset(&cut));

    // an extra field that runs past the end of the bytes is never read
    let mut past = directory_header([0xff; 4], &zip64_record(u64::MAX));
    past[30] = 13;
    assert!(!find_unsafe_offset(&past));

    // found wherever it stands
    let mut shifted = vec![7u8; 1000];
    shifted.extend(directory_header([0xff; 4], &zip64_record(u64::MAX)));
    shifted.extend(vec![7u8; 1000]);
    assert!(find_unsafe_offset(&shifted));
}
