use image2::{Error, Image, Point, Region, Rgb, Gray, Size};

#[test]
fn image_new_with_data_checks_length() {
    let ok = Image::<u8, Rgb>::new_with_data(Size::new(2, 2), vec![1u8; 12]);
    assert!(ok.is_ok());
    let longer = Image::<u8, Rgb>::new_with_data(Size::new(2, 2), vec![1u8; 13]);
    assert!(longer.is_ok());
    match Image::<u8, Rgb>::new_with_data(Size::new(2, 2), vec![1u8; 11]) {
        Err(Error::InvalidDimensions(2, 2, 3)) => {}
        _ => panic!("expected InvalidDimensions"),
    }
    match Image::<u8, Rgb>::new_with_data(Size::new(usize::MAX, 2), vec![]) {
        Err(Error::InvalidDimensions(w, 2, 3)) => assert_eq!(w, usize::MAX),
        _ => panic!("expected InvalidDimensions"),
    }
    let empty = Image::<u8, Rgb>::new_with_data(Size::new(0, 5), vec![]);
    assert!(empty.is_ok());
}

#[test]
fn image_new_shape_and_default_values() {
    let img = Image::<u8, Rgb>::new(Size::new(1000, 1000));
    assert_eq!(img.shape(), (1000, 1000, 3));
    assert_eq!(img.data().len(), 3_000_000);
    assert!(img.data().iter().all(|v| *v == 0));
    assert_eq!(img.channels(), 3);
    assert_eq!(img.size(), Size::new(1000, 1000));
    assert_eq!(img.meta().size, Size::new(1000, 1000));
    let like: Image<u16, Gray> = img.new_like_with_type_and_color::<u16, Gray>();
    assert_eq!(like.shape(), (1000, 1000, 1));
    let like2 = img.new_like();
    assert_eq!(like2.data().len(), 3_000_000);
}

#[test]
fn image_set_then_get() {
    let mut img = Image::<u8, Rgb>::new(Size::new(4, 3));
    img.set(Point::new(3, 2), &[7, 8, 9]);
    assert_eq!(img.get(Point::new(3, 2)).as_slice(), &[7, 8, 9]);
    assert_eq!(img.get(Point::new(2, 2)).as_slice(), &[0, 0, 0]);
    let idx = img.meta.index(Point::new(3, 2));
    assert_eq!(idx, 33);
    assert_eq!(img.data[idx], 7);
    let mut px = [0u8; 3];
    assert!(img.at(Point::new(3, 2), &mut px));
    assert_eq!(px, [7, 8, 9]);
    let mut short = [0u8; 2];
    assert!(!img.at(Point::new(3, 2), &mut short));
    assert_eq!(short, [0, 0]);
    let mut long = [1u8; 5];
    assert!(img.at(Point::new(3, 2), &mut long));
    assert_eq!(long, [7, 8, 9, 1, 1]);
    assert!(!img.at(Point::new(4, 2), &mut px));
    assert!(img.in_bounds(Point::new(3, 2)));
    assert!(!img.in_bounds(Point::new(3, 3)));
}

#[test]
fn image_get_mut_and_rows() {
    let mut img = Image::<u8, Rgb>::new_with_data(Size::new(2, 2), (0u8..12).collect()).unwrap();
    assert_eq!(img.row(1).as_slice(), &[6, 7, 8, 9, 10, 11]);
    {
        let mut d = img.get_mut(Point::new(1, 0));
        assert_eq!(d.as_slice(), &[3, 4, 5]);
        d.copy_from_slice(&[30, 40, 50]);
    }
    assert_eq!(img.data(), &[0, 1, 2, 30, 40, 50, 6, 7, 8, 9, 10, 11]);
    {
        let mut r = img.row_mut(0);
        assert_eq!(r.len(), 6);
        assert_eq!(r.num_pixels(), 2);
        r.copy_from_slice(&[1, 1, 1, 1, 1, 1]);
    }
    assert_eq!(img.row(0).as_slice(), &[1, 1, 1, 1, 1, 1]);
    img.data_mut()[11] = 99;
    assert_eq!(img.get(Point::new(1, 1)).as_slice(), &[9, 10, 99]);
}

#[test]
fn image_with_color_keeps_data() {
    let img = Image::<u8, Rgb>::new_with_data(Size::new(1, 1), vec![1, 2, 3]).unwrap();
    let hsv: Image<u8, image2::Hsv> = img.with_color();
    assert_eq!(hsv.data(), &[1, 2, 3]);
}

#[test]
fn image_copy_from_region() {
    let src = Image::<u8, Gray>::new_with_data(Size::new(3, 3), (1u8..10).collect()).unwrap();
    let mut dest = Image::<u8, Gray>::new(Size::new(3, 3));
    // copy the 2x2 region at (1, 1) of dest from src starting at (0, 0)
    dest.copy_from_region(Point::new(0, 0), &src, Region::new(Point::new(1, 1), Size::new(2, 2)));
    assert_eq!(dest.data(), &[0, 0, 0, 0, 1, 2, 0, 4, 5]);
    // a region running past the image is clipped
    let mut dest2 = Image::<u8, Gray>::new(Size::new(3, 3));
    dest2.copy_from_region(Point::new(1, 1), &src, Region::new(Point::new(2, 2), Size::new(5, 5)));
    assert_eq!(dest2.data(), &[0, 0, 0, 0, 0, 0, 0, 0, 5]);
    // a region outside the image copies nothing
    let mut dest3 = Image::<u8, Gray>::new(Size::new(3, 3));
    dest3.copy_from_region(Point::new(0, 0), &src, Region::new(Point::new(3, 0), Size::new(1, 1)));
    assert_eq!(dest3.data(), &[0; 9]);
}

#[test]
fn image_point_past_row_end_addresses_next_row() {
    let data: Vec<u8> = (0..12).collect();
    let mut img = Image::<u8, Rgb>::new_with_data(Size::new(2, 2), data).unwrap();
    assert_eq!(img.get(Point::new(2, 0)).as_slice(), &[6, 7, 8]);
    assert_eq!(img.get(Point::new(0, 1)).as_slice(), &[6, 7, 8]);
    img.set(Point::new(3, 0), &[1, 1, 1]);
    assert_eq!(img.get(Point::new(1, 1)).as_slice(), &[1, 1, 1]);
}
