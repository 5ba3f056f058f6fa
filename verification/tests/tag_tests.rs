use mp3stitch::copy;
use mp3stitch::decode_synchsafe;
use mp3stitch::is_id3_magic;
use mp3stitch::read_to_first_header;
use mp3stitch::InputStream;
use mp3stitch::OutputSink;

#[test]
fn test_synchsafe_decode() {
    assert_eq!(decode_synchsafe(&vec![0x00, 0x00, 0x02, 0x01]), 257);
    assert_eq!(decode_synchsafe(&vec![0x7F, 0x7F, 0x7F, 0x7F]), 268435455);
    assert_eq!(decode_synchsafe(&vec![0x00, 0x00, 0x00, 0x00]), 0);
    // The top bit of each byte is discarded.
    assert_eq!(decode_synchsafe(&vec![0x80, 0x80, 0x82, 0x81]), 257);
}

#[test]
fn test_magic_check() {
    assert!(is_id3_magic(&b"ID3".to_vec()));
    assert!(is_id3_magic(&b"ID3x".to_vec()));
    assert!(!is_id3_magic(&b"id3".to_vec()));
    assert!(!is_id3_magic(&b"MP3".to_vec()));
}

/// A stream holding a tag with an `n`-byte payload followed by `audio`.
fn tagged_input(payload: &[u8], audio: &[u8]) -> Vec<u8> {
    let n = payload.len() as u32;
    let mut v = Vec::new();
    v.extend_from_slice(b"ID3");
    v.push(4);
    v.push(0);
    v.push(0);
    v.push(((n >> 21) & 0x7F) as u8);
    v.push(((n >> 14) & 0x7F) as u8);
    v.push(((n >> 7) & 0x7F) as u8);
    v.push((n & 0x7F) as u8);
    v.extend_from_slice(payload);
    v.extend_from_slice(&[0xFF, 0xFB, 0x90, 0x00]);
    v.extend_from_slice(audio);
    v
}

#[test]
fn test_tag_skip_offset() {
    let n = 3;
    let m = 5;
    let input = tagged_input(&[7; 3], &[1, 2, 3, 4, 5]);
    let mut s = InputStream::new(input);
    let p = read_to_first_header(&mut s).unwrap();
    assert_eq!(p, (10 + n + 4) as u64);
    assert_eq!(s.pos as u64, p);
    let mut w = OutputSink::new();
    copy(&mut s, &mut w).unwrap();
    assert_eq!(w.data, vec![1, 2, 3, 4, 5]);
    assert_eq!(w.data.len(), m);
}

#[test]
fn test_locate_from_nonzero_position() {
    let mut v = vec![0xEE, 0xEE];
    v.extend_from_slice(&tagged_input(&[], &[9, 9]));
    let mut s = InputStream::new(v);
    assert!(s.skip(2));
    let p = read_to_first_header(&mut s).unwrap();
    assert_eq!(p, 2 + 14);
}

#[test]
fn test_error_short_first_read() {
    let mut s = InputStream::new(vec![0x49, 0x44]);
    let e = read_to_first_header(&mut s).unwrap_err();
    assert_eq!(e.position, Some(0));
    assert_eq!(e.description, "failed to read first header bytes");
}

#[test]
fn test_error_missing_magic() {
    let mut s = InputStream::new(vec![0x49, 0x44, 0x34, 0, 0, 0, 0, 0, 0, 0]);
    let e = read_to_first_header(&mut s).unwrap_err();
    assert_eq!(e.position, Some(0));
    assert_eq!(e.description, "no id3v2 tag: we need to handle this");
}

#[test]
fn test_error_short_seek_over_version() {
    let mut s = InputStream::new(vec![0x49, 0x44, 0x33, 4, 0]);
    let e = read_to_first_header(&mut s).unwrap_err();
    assert_eq!(e.position, Some(3));
    assert_eq!(e.description, "failed to seek to id3v2 tag size");
}

#[test]
fn test_error_short_size_read() {
    let mut s = InputStream::new(vec![0x49, 0x44, 0x33, 4, 0, 0, 0, 0]);
    let e = read_to_first_header(&mut s).unwrap_err();
    assert_eq!(e.position, Some(6));
    assert_eq!(e.description, "failed to read id3v2 tag size");
}

#[test]
fn test_error_seek_past_end_of_payload() {
    // The header announces a 5-byte payload, but only 2 bytes follow it.
    let mut s = InputStream::new(vec![0x49, 0x44, 0x33, 4, 0, 0, 0, 0, 0, 5, 0xAA, 0xBB]);
    let e = read_to_first_header(&mut s).unwrap_err();
    assert_eq!(e.position, Some(10));
    assert_eq!(e.description, "failed to seek to end of id3v2 tag");
}

#[test]
fn test_error_short_sync_region() {
    // The payload fits exactly, but the 4-byte frame-sync region is cut short.
    let mut s = InputStream::new(vec![0x49, 0x44, 0x33, 4, 0, 0, 0, 0, 0, 2, 0xAA, 0xBB, 0xFF]);
    let e = read_to_first_header(&mut s).unwrap_err();
    assert_eq!(e.position, Some(12));
    assert_eq!(e.description, "failed to read first header bytes");
}

#[test]
fn test_copy_spans_many_chunks() {
    // More than two transfer buffers' worth, with a partial chunk at the end.
    let data: Vec<u8> = (0..3000u32).map(|i| (i % 251) as u8).collect();
    let mut s = InputStream::new(data.clone());
    let mut w = OutputSink::new();
    copy(&mut s, &mut w).unwrap();
    assert_eq!(w.data, data);
    assert_eq!(s.pos, 3000);
}

#[test]
fn test_copy_from_middle() {
    let mut s = InputStream::new(vec![1, 2, 3, 4, 5]);
    assert!(s.skip(3));
    let mut w = OutputSink::new();
    copy(&mut s, &mut w).unwrap();
    assert_eq!(w.data, vec![4, 5]);
}
