use dexvm::natives::stream::gzip_decompress;

#[test]
fn decompresses_a_real_gzip_stream() {
    let original = b"the quick brown fox jumps over the lazy dog".repeat(3);
    let mut gz = vec![0x1f, 0x8b, 8, 0, 0, 0, 0, 0, 0, 0xff];
    gz.extend(miniz_oxide::deflate::compress_to_vec(&original, 6));
    gz.extend(0u32.to_le_bytes());
    gz.extend((original.len() as u32).to_le_bytes());
    assert_eq!(gzip_decompress(&gz).unwrap(), original);
}

#[test]
fn rejects_a_bad_gzip_header() {
    assert!(gzip_decompress(&vec![0x1f, 0x8b, 7, 0, 0, 0, 0, 0, 0, 0]).is_none());
    assert!(gzip_decompress(&vec![0x1f, 0x8b]).is_none());
}

#[test]
fn skips_a_file_name_in_the_header() {
    let original = b"payload".to_vec();
    let mut gz = vec![0x1f, 0x8b, 8, 0x08, 0, 0, 0, 0, 0, 0xff];
    gz.extend(b"name.txt\0");
    gz.extend(miniz_oxide::deflate::compress_to_vec(&original, 6));
    assert_eq!(gzip_decompress(&gz).unwrap(), original);
}
