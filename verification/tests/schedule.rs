use image2::schedule::{
    async_filter_step, crop_source, if_schedule, image_schedule_list, input_source, next_stage,
    stage_filters,
};
use image2::{AsyncMode, Point, Region, Schedule, Size};

#[test]
fn schedule_list_marks_image_filters_and_last() {
    assert_eq!(image_schedule_list(&[Schedule::Pixel, Schedule::Image, Schedule::Pixel, Schedule::Pixel]), vec![1, 3]);
    assert_eq!(image_schedule_list(&[Schedule::Pixel]), vec![0]);
    assert_eq!(image_schedule_list(&[Schedule::Image, Schedule::Image]), vec![0, 1, 1]);
}

#[test]
fn stages_cover_each_filter_once() {
    let list = image_schedule_list(&[Schedule::Pixel, Schedule::Image, Schedule::Pixel, Schedule::Pixel, Schedule::Image, Schedule::Pixel]);
    assert_eq!(list, vec![1, 4, 5]);
    assert_eq!(stage_filters(&list, 0), (0, 1));
    assert_eq!(stage_filters(&list, 1), (2, 4));
    assert_eq!(stage_filters(&list, 2), (5, 5));
    assert_eq!(next_stage(&list, 0, 6), Some((1, 4)));
    assert_eq!(next_stage(&list, 1, 6), Some((2, 5)));
    assert_eq!(next_stage(&list, 2, 6), None);
    let ends_with_image = image_schedule_list(&[Schedule::Pixel, Schedule::Image]);
    assert_eq!(stage_filters(&ends_with_image, 1), (2, 1));
    assert_eq!(next_stage(&ends_with_image, 0, 2), None);
}

#[test]
fn if_schedule_prefers_image() {
    assert_eq!(if_schedule(Schedule::Pixel, Schedule::Pixel), Schedule::Pixel);
    assert_eq!(if_schedule(Schedule::Image, Schedule::Pixel), Schedule::Image);
    assert_eq!(if_schedule(Schedule::Pixel, Schedule::Image), Schedule::Image);
}

#[test]
fn crop_source_offsets_and_bounds() {
    let r = Region::new(Point::new(10, 20), Size::new(5, 5));
    assert_eq!(crop_source(r, Point::new(1, 2)), Some(Point::new(11, 22)));
    assert_eq!(crop_source(r, Point::new(15, 25)), Some(Point::new(25, 45)));
    assert_eq!(crop_source(r, Point::new(16, 0)), None);
    assert_eq!(crop_source(r, Point::new(0, 26)), None);
}

#[test]
fn input_source_prefers_chained_pixel() {
    let pt = Point::new(1, 1);
    assert_eq!(input_source(None, Some(pt), pt), None);
    assert_eq!(input_source(None, Some(Point::new(0, 1)), pt), Some(0));
    assert_eq!(input_source(Some(2), Some(pt), pt), Some(2));
    assert_eq!(input_source(None, None, pt), Some(0));
}

#[test]
fn async_steps_visit_every_pixel() {
    let (w, h) = (3, 2);
    let mut seen = Vec::new();
    let (mut x, mut y) = (0, 0);
    loop {
        let step = async_filter_step(AsyncMode::Pixel, x, y, w, h);
        seen.extend(step.points.iter().copied());
        x = step.x;
        y = step.y;
        if step.ready {
            break;
        }
    }
    let expected: Vec<Point> = (0..h).flat_map(|y| (0..w).map(move |x| Point::new(x, y))).collect();
    assert_eq!(seen, expected);

    let mut rows = Vec::new();
    let mut y = 0;
    loop {
        let step = async_filter_step(AsyncMode::Row, 0, y, w, h);
        rows.extend(step.points.iter().copied());
        y = step.y;
        if step.ready {
            break;
        }
    }
    assert_eq!(rows, expected);
    assert_eq!(AsyncMode::default(), AsyncMode::Row);
}

#[test]
fn async_polls_finish_on_the_last_poll() {
    for &(mode, expected) in &[(AsyncMode::Row, 2usize), (AsyncMode::Pixel, 6usize)] {
        let (width, height) = (3usize, 2usize);
        let (mut x, mut y) = (0usize, 0usize);
        let mut polls = 0;
        let mut seen = Vec::new();
        loop {
            let step = async_filter_step(mode, x, y, width, height);
            polls += 1;
            seen.extend(step.points.iter().copied());
            x = step.x;
            y = step.y;
            if step.ready {
                break;
            }
            assert!(polls < expected);
        }
        assert_eq!(polls, expected);
        assert_eq!(
            seen,
            vec![
                Point::new(0, 0),
                Point::new(1, 0),
                Point::new(2, 0),
                Point::new(0, 1),
                Point::new(1, 1),
                Point::new(2, 1)
            ]
        );
    }
}

#[test]
fn stage_decisions() {
    // stages [0, 1], [2, 3, 4] and [5]: each filter after the first of its stage chains
    let list = image_schedule_list(&[Schedule::Pixel, Schedule::Image, Schedule::Pixel, Schedule::Pixel, Schedule::Image, Schedule::Pixel]);
    assert!(!image2::schedule::reads_chained_pixel(&list, 0, 0));
    assert!(image2::schedule::reads_chained_pixel(&list, 0, 1));
    assert!(!image2::schedule::reads_chained_pixel(&list, 1, 2));
    assert!(image2::schedule::reads_chained_pixel(&list, 1, 3));
    assert!(image2::schedule::reads_chained_pixel(&list, 1, 4));
    assert!(!image2::schedule::reads_chained_pixel(&list, 2, 5));
    // two per-pixel filters compose within the first stage
    let two = image_schedule_list(&[Schedule::Pixel, Schedule::Pixel]);
    assert_eq!(two, vec![1]);
    assert!(!image2::schedule::reads_chained_pixel(&two, 0, 0));
    assert!(image2::schedule::reads_chained_pixel(&two, 0, 1));
    assert!(image2::schedule::feeds_next_stage(1, 3));
    assert!(!image2::schedule::feeds_next_stage(2, 3));
    assert!(image2::schedule::resizes_intermediate(Schedule::Image, Size::new(2, 3), Size::new(3, 2)));
    assert!(!image2::schedule::resizes_intermediate(Schedule::Image, Size::new(2, 3), Size::new(2, 3)));
    assert!(!image2::schedule::resizes_intermediate(Schedule::Pixel, Size::new(2, 3), Size::new(3, 2)));
}
