use image2::Histogram;

#[test]
fn histogram_new_is_zeroed() {
    let h = Histogram::new(5);
    assert_eq!(h.len(), 5);
    assert!(!h.is_empty());
    assert_eq!(h.bins, vec![0; 5]);
    assert_eq!(h.count(0), 5);
    assert!(Histogram::new(0).is_empty());
}

#[test]
fn histogram_of_constant_image() {
    // a 100 x 100 image whose values all fall in the first of 255 bins
    let mut h = Histogram::new(255);
    for _ in 0..100 * 100 {
        h.add_to_bin(0);
    }
    assert!(h.bins[0] == 100 * 100);
    assert!(h.min_index() == 1);
    assert!(h.max_index() == 0);
}

#[test]
fn histogram_min_max_first_index() {
    let h = Histogram { bins: vec![3, 1, 7, 1, 7] };
    assert_eq!(h.min_index(), 1);
    assert_eq!(h.max_index(), 2);
    assert_eq!(h.count(7), 2);
    assert_eq!(h.count(1), 2);
    assert_eq!(h.count(4), 0);
    assert_eq!(h.bins(), vec![(0, 3), (1, 1), (2, 7), (3, 1), (4, 7)]);
}

#[test]
fn histogram_edges() {
    let empty = Histogram::new(0);
    assert_eq!(empty.min_index(), 0);
    assert_eq!(empty.max_index(), 0);
    let zeros = Histogram::new(3);
    assert_eq!(zeros.max_index(), 0);
    assert_eq!(zeros.min_index(), 0);
    let full = Histogram { bins: vec![usize::MAX, usize::MAX] };
    assert_eq!(full.min_index(), 0);
    assert_eq!(full.max_index(), 0);
}
