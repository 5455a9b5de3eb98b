//! image2 - image processing over interleaved pixel buffers.
//!
//! This crate holds the verified core of the library: geometry, image
//! metadata and pixel addressing, image storage, histograms, filter
//! scheduling decisions and the small binary and text formats used around
//! image I/O.

/// Color spaces
pub mod color;
/// Tagged pixel data slices
pub mod data;
/// Errors
pub mod error;
/// Points, sizes and regions
pub mod geom;
/// Content-based image hashes
pub mod hash;
/// Histograms
pub mod histogram;
/// Images
pub mod image;
/// Memory-mapped image file headers
pub mod image_data;
/// Image metadata and pixel addressing
pub mod meta;

/// Image input/output
pub mod io;
/// Filter scheduling decisions
pub mod schedule;

pub use color::{Channel, Cmyk, Color, Gray, Hsv, Rgb, Rgba, Srgb, Srgba, Xyz, Yuv};
pub use data::{Data, DataMut};
pub use error::Error;
pub use geom::{Point, Region, Size};
pub use histogram::Histogram;
pub use image::Image;
pub use image_data::{decode_mmap_header, encode_mmap_header, mmap_header_len};
pub use meta::Meta;
pub use schedule::{AsyncMode, AsyncStep, Schedule};
