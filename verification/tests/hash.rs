#[test]
fn hash_diff_and_hex() {
    let a = image2::hash::Hash([
        0xf0, 0xf1, 0xf2, 0xf3, 0xf4, 0xf5, 0xf6, 0xf7, 0xf8, 0xf9, 0xfa, 0xfb, 0xfc, 0xfd, 0xfe,
        0xff, 0xff, 0xef, 0xdf, 0xcf, 0xbf, 0xaf, 0x9f, 0x8f, 0x7f, 0x6f, 0x5f, 0x4f, 0x3f, 0x2f,
        0x1f, 0x0f,
    ]);
    let b = image2::hash::Hash([
        0x00, 0xf1, 0xf2, 0xf3, 0xf4, 0xf5, 0xf6, 0xf7, 0xf8, 0xf9, 0x3a, 0xfb, 0xfc, 0xfd, 0x0e,
        0xff, 0xff, 0xff, 0xdf, 0xcf, 0xbf, 0xaf, 0x9f, 0x8f, 0x7f, 0x6f, 0x5f, 0x4f, 0x3f, 0x2f,
        0x1f, 0x0f,
    ]);
    assert_eq!(a.diff(&b), 11);
    assert_eq!(b.diff(&a), 11);
    assert_eq!(a.diff(&a), 0);
    let s = a.to_string();
    assert_eq!(s, "f0f1f2f3f4f5f6f7f8f9fafbfcfdfeffffefdfcfbfaf9f8f7f6f5f4f3f2f1f0f");
    assert_eq!(image2::hash::Hash::parse(&s), Ok(a));
    assert_eq!(image2::hash::Hash::parse(&s.to_uppercase()), Ok(a));
    assert!(image2::hash::Hash::parse("f0").is_err());
    let mut bad = s.clone();
    bad.replace_range(0..1, "g");
    assert!(image2::hash::Hash::parse(&bad).is_err());
}
