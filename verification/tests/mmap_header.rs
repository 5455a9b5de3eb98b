use image2::{decode_mmap_header, encode_mmap_header, mmap_header_len, Error};

#[test]
fn mmap_header_round_trip() {
    let h = encode_mmap_header(4, 640, 480, 3);
    assert_eq!(h.len() as u64, mmap_header_len());
    assert_eq!(&h[0..4], b"img2");
    assert_eq!(&h[4..12], &4u64.to_le_bytes());
    assert_eq!(&h[28..30], &3u16.to_le_bytes());
    assert_eq!(decode_mmap_header(&h, 4, 3), Ok((640, 480)));
}

#[test]
fn mmap_header_errors() {
    let h = encode_mmap_header(4, 640, 480, 3);
    assert_eq!(decode_mmap_header(&h, 2, 3), Err(Error::InvalidType));
    assert_eq!(decode_mmap_header(&h, 4, 4), Err(Error::InvalidType));
    assert_eq!(
        decode_mmap_header(&h[..20], 4, 3),
        Err(Error::Message("failed to fill whole buffer".to_string()))
    );
    assert_eq!(
        decode_mmap_header(&h[..2], 4, 3),
        Err(Error::Message("failed to fill whole buffer".to_string()))
    );
    let mut bad = h.clone();
    bad[0] = b'x';
    assert_eq!(
        decode_mmap_header(&bad, 4, 3),
        Err(Error::Message("invalid mmap header".to_string()))
    );
}
