use image2::{Gray, Meta, Point, Rgb, Rgba, Size};

#[test]
fn meta_counts() {
    let m = Meta::<u8, Rgb>::new(Size::new(4, 3));
    assert_eq!(m.width(), 4);
    assert_eq!(m.height(), 3);
    assert_eq!(m.width_step(), 12);
    assert_eq!(m.num_pixels(), 12);
    assert_eq!(m.num_values(), 36);
    assert_eq!(m.num_bytes(), 36);
    let m16 = Meta::<u16, Rgba>::new(Size::new(4, 3));
    assert_eq!(m16.num_bytes(), 96);
    assert!(m16.has_alpha());
    assert!(m16.is_alpha_channel(3));
    assert!(!m16.is_alpha_channel(2));
    assert!(!m.has_alpha());
    assert_eq!(m.color_name(), "rgb");
    assert_eq!(m16.color_name(), "rgba");
}

#[test]
fn meta_index_and_back() {
    let m = Meta::<u8, Rgb>::new(Size::new(1000, 1000));
    assert_eq!(m.index(Point::new(3, 15)), 15 * 3000 + 9);
    for &(x, y) in &[(0, 0), (3, 15), (999, 999), (500, 1)] {
        let p = Point::new(x, y);
        assert_eq!(m.convert_index_to_point(m.index(p)), p);
    }
    // an offset inside a pixel's values belongs to that pixel
    assert_eq!(m.convert_index_to_point(3 * 15 * 1000 + 10), Point::new(3, 15));
}

#[test]
fn meta_iter_row_major() {
    let m = Meta::<u8, Gray>::new(Size::new(3, 2));
    let pts = m.iter();
    assert_eq!(
        pts,
        vec![
            Point::new(0, 0),
            Point::new(1, 0),
            Point::new(2, 0),
            Point::new(0, 1),
            Point::new(1, 1),
            Point::new(2, 1)
        ]
    );
    let m3 = Meta::<u8, Rgb>::new(Size::new(2, 2));
    assert_eq!(
        m3.iter(),
        vec![Point::new(0, 0), Point::new(1, 0), Point::new(0, 1), Point::new(1, 1)]
    );
    // every pixel is visited once
    let m4 = Meta::<u16, Rgba>::new(Size::new(5, 4));
    let pts4 = m4.iter();
    assert_eq!(pts4.len(), 20);
    for y in 0..4 {
        for x in 0..5 {
            assert_eq!(pts4.iter().filter(|p| **p == Point::new(x, y)).count(), 1);
        }
    }
    assert!(Meta::<u8, Rgb>::new(Size::new(0, 7)).iter().is_empty());
}
