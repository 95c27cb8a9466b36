use bevy_assetio_zip::stream::{ByteStream, MemoryStream, SeekFrom, StreamError};
use bevy_assetio_zip::xor::{mask, transform_bytes, transform_prefix, Xor, XOR_FACTOR};
use std::io::{Cursor, Read, Write};

#[test]
fn transform_xors_every_byte_with_the_key() {
    assert_eq!(XOR_FACTOR, 0x55);
    assert_eq!(
        transform_bytes(&[0x00, 0xff, 0x55, 0xaa, 0x01]),
        vec![0x55, 0xaa, 0x00, 0xff, 0x54]
    );
    assert_eq!(transform_bytes(&[]), Vec::<u8>::new());
}

#[test]
fn transform_twice_is_identity_for_every_byte_value() {
    let all: Vec<u8> = (0..=255u8).collect();
    let once = transform_bytes(&all);
    assert_ne!(once, all);
    for (i, b) in once.iter().enumerate() {
        assert_eq!(*b, (i as u8) ^ 0x55);
    }
    assert_eq!(transform_bytes(&once), all);
}

#[test]
fn transform_prefix_leaves_the_tail_alone() {
    let mut buf = vec![1u8, 2, 3, 4, 5];
    transform_prefix(&mut buf, 2);
    assert_eq!(buf, vec![1 ^ 0x55, 2 ^ 0x55, 3, 4, 5]);
    transform_prefix(&mut buf, 0);
    assert_eq!(buf, vec![1 ^ 0x55, 2 ^ 0x55, 3, 4, 5]);
    transform_prefix(&mut buf, 5);
    assert_eq!(buf, vec![1, 2, 3 ^ 0x55, 4 ^ 0x55, 5 ^ 0x55]);
}

#[test]
fn mask_transforms_only_where_asked() {
    assert_eq!(mask(false, vec![1, 2, 3]), vec![1, 2, 3]);
    assert_eq!(mask(true, vec![1, 2, 3]), vec![0x54, 0x57, 0x56]);
    assert_eq!(mask(true, mask(true, vec![9, 8, 7])), vec![9, 8, 7]);
}

#[test]
fn transform_of_pieces_is_transform_of_the_whole() {
    let data: Vec<u8> = (0..200u8).collect();
    let whole = transform_bytes(&data);
    let mut pieces = Vec::new();
    for chunk in data.chunks(7) {
        pieces.extend(transform_bytes(chunk));
    }
    assert_eq!(pieces, whole);
    assert_eq!(transform_bytes(&data[40..90]), whole[40..90].to_vec());
}

#[test]
fn transform_agrees_with_xorio_reader_and_writer() {
    let data: Vec<u8> = (0..=255u8).rev().collect();
    let mut read_back = Vec::new();
    xorio::Xor::new(Cursor::new(data.clone())).read_to_end(&mut read_back).unwrap();
    assert_eq!(transform_bytes(&data), read_back);

    let mut sink = Vec::new();
    xorio::Xor::new(&mut sink).write_all(&data).unwrap();
    assert_eq!(transform_bytes(&data), sink);
}

#[test]
fn memory_stream_reads_what_fits() {
    let mut stream = MemoryStream::new(vec![10, 20, 30, 40, 50]);
    let mut buf = vec![0u8; 3];
    assert_eq!(stream.read(&mut buf), Ok(3));
    assert_eq!(buf, vec![10, 20, 30]);
    assert_eq!(stream.read(&mut buf), Ok(2));
    assert_eq!(buf, vec![40, 50, 30]);
    assert_eq!(stream.read(&mut buf), Ok(0));
    assert_eq!(buf, vec![40, 50, 30]);
    let mut none: Vec<u8> = Vec::new();
    assert_eq!(stream.read(&mut none), Ok(0));
}

#[test]
fn memory_stream_seeks_within_bounds_only() {
    let mut stream = MemoryStream::new(vec![1, 2, 3, 4]);
    assert_eq!(stream.seek(SeekFrom::Start(4)), Ok(4));
    assert_eq!(stream.seek(SeekFrom::Start(5)), Err(StreamError::InvalidSeek));
    assert_eq!(stream.seek(SeekFrom::Current(0)), Ok(4));
    assert_eq!(stream.seek(SeekFrom::End(-3)), Ok(1));
    assert_eq!(stream.seek(SeekFrom::Current(2)), Ok(3));
    assert_eq!(stream.seek(SeekFrom::Current(-4)), Err(StreamError::InvalidSeek));
    assert_eq!(stream.seek(SeekFrom::Current(0)), Ok(3));
    assert_eq!(stream.seek(SeekFrom::End(1)), Err(StreamError::InvalidSeek));
    assert_eq!(stream.seek(SeekFrom::End(i64::MIN)), Err(StreamError::InvalidSeek));
    assert_eq!(stream.seek(SeekFrom::Start(u64::MAX)), Err(StreamError::InvalidSeek));
    assert_eq!(stream.seek(SeekFrom::Start(0)), Ok(0));
}

#[test]
fn memory_stream_writes_over_and_grows() {
    let mut stream = MemoryStream::new(vec![1, 2, 3, 4]);
    assert_eq!(stream.seek(SeekFrom::Start(1)), Ok(1));
    assert_eq!(stream.write(&[9, 9]), Ok(2));
    assert_eq!(stream.seek(SeekFrom::Current(0)), Ok(3));
    assert_eq!(stream.write(&[7, 7, 7]), Ok(3));
    assert_eq!(stream.flush(), Ok(()));
    assert_eq!(stream.seek(SeekFrom::Current(0)), Ok(6));
    assert_eq!(stream.into_bytes(), vec![1, 9, 9, 7, 7, 7]);
}

#[test]
fn xor_stream_reads_transformed_bytes_at_any_position() {
    let plain: Vec<u8> = (0..50u8).collect();
    let coded = transform_bytes(&plain);
    let mut stream = Xor::new(MemoryStream::new(coded));

    assert_eq!(stream.seek(SeekFrom::Start(20)), Ok(20));
    let mut buf = vec![0u8; 10];
    assert_eq!(stream.read(&mut buf), Ok(10));
    assert_eq!(buf, plain[20..30].to_vec());

    assert_eq!(stream.seek(SeekFrom::End(-5)), Ok(45));
    let mut buf = vec![0xeeu8; 10];
    assert_eq!(stream.read(&mut buf), Ok(5));
    assert_eq!(&buf[..5], &plain[45..]);
    assert_eq!(&buf[5..], &[0xee; 5]);

    assert_eq!(stream.seek(SeekFrom::Current(-45)), Ok(5));
    let mut buf = vec![0u8; 1];
    assert_eq!(stream.read(&mut buf), Ok(1));
    assert_eq!(buf, vec![5]);
}

#[test]
fn xor_stream_interleaved_writes_give_the_transform_of_the_whole() {
    let mut stream = Xor::new(MemoryStream::new(Vec::new()));
    assert_eq!(stream.write(b"hello world"), Ok(11));
    assert_eq!(stream.seek(SeekFrom::Start(6)), Ok(6));
    assert_eq!(stream.write(b"there, you"), Ok(10));
    assert_eq!(stream.seek(SeekFrom::Start(0)), Ok(0));
    assert_eq!(stream.write(b"H"), Ok(1));
    assert_eq!(stream.flush(), Ok(()));

    let mut check = vec![0u8; 5];
    assert_eq!(stream.seek(SeekFrom::Start(6)), Ok(6));
    assert_eq!(stream.read(&mut check), Ok(5));
    assert_eq!(check, b"there".to_vec());

    let inner = stream.into_inner().into_bytes();
    assert_eq!(inner, transform_bytes(b"Hello there, you"));
}

#[test]
fn xor_stream_passes_failures_through() {
    let mut stream = Xor::new(MemoryStream::new(vec![1, 2, 3]));
    assert_eq!(stream.seek(SeekFrom::Start(9)), Err(StreamError::InvalidSeek));
    assert_eq!(stream.seek(SeekFrom::Current(0)), Ok(0));
}

#[test]
fn xor_stream_wrapped_twice_is_the_stream_itself() {
    let data = vec![3u8, 1, 4, 1, 5, 9, 2, 6];
    let mut stream = Xor::new(Xor::new(MemoryStream::new(data.clone())));
    let mut buf = vec![0u8; 8];
    assert_eq!(stream.read(&mut buf), Ok(8));
    assert_eq!(buf, data);
}
