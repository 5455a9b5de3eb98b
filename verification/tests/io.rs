use image2::io::magick::{check_data_len, kind, parse_shape, Error as MagickError};
use image2::io::{check_read_dimensions, file_color, read_as, BaseType, ReadAs};
use image2::Error;

#[test]
fn base_type_names() {
    assert_eq!(BaseType::UInt8.name(), "uint8");
    assert_eq!(BaseType::Int16.name(), "int16");
    assert_eq!(BaseType::Half.name(), "half");
    assert_eq!(BaseType::Double.name(), "double");
    assert_eq!(BaseType::NoneType.name(), "none");
    assert_eq!(BaseType::Last.name(), "");
}

#[test]
fn magick_shape_parsing() {
    assert_eq!(parse_shape("640 480"), Ok((640, 480)));
    assert_eq!(parse_shape("640\t 480\n"), Ok((640, 480)));
    assert_eq!(parse_shape(" 640 480"), Err(MagickError::InvalidImageShape));
    assert_eq!(parse_shape("+7 8 9"), Ok((7, 8)));
    assert_eq!(parse_shape("640"), Err(MagickError::InvalidImageShape));
    assert_eq!(parse_shape("640 x"), Err(MagickError::InvalidImageShape));
    assert_eq!(parse_shape("-1 2"), Err(MagickError::InvalidImageShape));
    assert_eq!(parse_shape(" 2"), Err(MagickError::InvalidImageShape));
    assert_eq!(parse_shape("99999999999999999999 2"), Err(MagickError::InvalidImageShape));
    assert_eq!(parse_shape("3\u{a0} 4"), Ok((3, 4)));
}

#[test]
fn magick_data_length() {
    assert_eq!(check_data_len(24, 2, 2, 2, 3), Ok(()));
    assert_eq!(check_data_len(23, 2, 2, 2, 3), Err(MagickError::InvalidImageData));
    assert_eq!(check_data_len(0, 4, usize::MAX, 0, 3), Ok(()));
    assert_eq!(check_data_len(0, 4, usize::MAX, 2, 3), Err(MagickError::InvalidImageData));
    assert_eq!(kind("rgb"), "rgb:-");
}

#[test]
fn file_colors_and_read_choice() {
    assert!(file_color("gray"));
    assert!(file_color("rgba"));
    assert!(!file_color("hsv"));
    assert_eq!(read_as(3, 3, "rgb"), ReadAs::Direct);
    assert_eq!(read_as(3, 3, "hsv"), ReadAs::Rgb);
    assert_eq!(read_as(1, 3, "rgb"), ReadAs::Gray);
    assert_eq!(read_as(4, 3, "rgb"), ReadAs::Rgba);
    assert_eq!(read_as(2, 3, "rgb"), ReadAs::Rgb);
}

#[test]
fn read_dimension_check() {
    assert!(check_read_dimensions(10, 20, 4, 10, 20, 3).is_ok());
    assert_eq!(check_read_dimensions(10, 20, 2, 10, 20, 3), Err(Error::InvalidDimensions(10, 20, 2)));
    assert_eq!(check_read_dimensions(10, 21, 3, 10, 20, 3), Err(Error::InvalidDimensions(10, 21, 3)));
}

#[test]
fn magick_errors_convert() {
    assert_eq!(
        Error::from(MagickError::InvalidImageShape),
        Error::Magick(MagickError::InvalidImageShape)
    );
    assert_eq!(
        Error::from(MagickError::InvalidImageData),
        Error::Magick(MagickError::InvalidImageData)
    );
}

#[test]
fn magick_command_arguments() {
    assert_eq!(image2::io::magick::decimal_string(0), "0");
    assert_eq!(image2::io::magick::decimal_string(7), "7");
    assert_eq!(image2::io::magick::decimal_string(1234), "1234");
    assert_eq!(image2::io::magick::decimal_string(usize::MAX), format!("{}", usize::MAX));
    assert_eq!(image2::io::magick::depth_args(16, false), vec!["-depth", "16"]);
    assert_eq!(
        image2::io::magick::depth_args(32, true),
        vec!["-depth", "32", "-define", "quantum:format=floating-point"]
    );
    assert_eq!(image2::io::magick::size_args(640, 480), vec!["-size", "640x480"]);
}
