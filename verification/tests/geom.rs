use image2::{Point, Region, Size};

#[test]
fn point_new_and_map() {
    let p = Point::new(3, 4);
    assert_eq!(p.x, 3);
    assert_eq!(p.y, 4);
    let q = p.map(|x, y| (x * 2, y + 1));
    assert_eq!(q, Point::new(6, 5));
    let r: Point = (7, 8).into();
    assert_eq!(r, Point::new(7, 8));
}

#[test]
fn size_map_mul_div() {
    let s = Size::new(10, 20);
    assert_eq!(s.map(|w, h| (h, w)), Size::new(20, 10));
    assert_eq!(s * 2, Size::new(20, 40));
    assert_eq!(s / 3, Size::new(3, 6));
    let t: Size = (4, 5).into();
    assert_eq!(t, Size::new(4, 5));
}

#[test]
fn size_in_bounds_edges() {
    let s = Size::new(10, 20);
    assert!(s.in_bounds(Point::new(0, 0)));
    assert!(s.in_bounds(Point::new(9, 19)));
    assert!(!s.in_bounds(Point::new(10, 0)));
    assert!(!s.in_bounds(Point::new(0, 20)));
    assert!(!Size::new(0, 0).in_bounds(Point::new(0, 0)));
}

#[test]
fn region_in_bounds_and_points() {
    let r = Region::new(Point::new(2, 3), Size::new(4, 5));
    assert_eq!(r.point(), Point::new(2, 3));
    assert_eq!(r.size(), Size::new(4, 5));
    assert!(r.in_bounds(Point::new(2, 3)));
    assert!(r.in_bounds(Point::new(5, 7)));
    assert!(!r.in_bounds(Point::new(6, 7)));
    assert!(!r.in_bounds(Point::new(5, 8)));
    assert!(!r.in_bounds(Point::new(1, 3)));
    assert!(!r.in_bounds(Point::new(2, 2)));
    assert_eq!(r.points(), (Point::new(2, 3), Point::new(6, 8)));
    let p: Point = r.into();
    let s: Size = r.into();
    assert_eq!((p, s), (Point::new(2, 3), Size::new(4, 5)));
    let r2: Region = (Point::new(2, 3), Size::new(4, 5)).into();
    assert_eq!(r2, r);
}

#[test]
fn region_in_bounds_near_usize_max() {
    let r = Region::new(Point::new(usize::MAX - 1, 0), Size::new(10, 1));
    assert!(r.in_bounds(Point::new(usize::MAX, 0)));
    assert!(!r.in_bounds(Point::new(usize::MAX - 2, 0)));
}
