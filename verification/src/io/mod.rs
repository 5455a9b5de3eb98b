use vstd::prelude::*;

use crate::color::{Cmyk, Color, Gray, Hsv, Rgb, Rgba, Srgb, Srgba, Xyz, Yuv};
use crate::error::Error;

/// ImageMagick/GraphicsMagick command line interface: command names, output parsing and
/// buffer checks
pub mod magick;

verus! {

/// `BaseType` is compatible with OpenImageIO's `TypeDesc::BASETYPE`
///
/// This enum is used to convert from `Type` into a representation that can be used with OIIO
#[derive(Debug, Clone, Copy, PartialEq, Eq, PartialOrd, Ord, Hash, Structural)]
pub enum BaseType {
    /// Unknown image type
    Unknown,
    /// No image type
    NoneType,
    /// u8
    UInt8,
    /// i8
    Int8,
    /// u16
    UInt16,
    /// i16
    Int16,
    /// u32
    UInt32,
    /// i32
    Int32,
    /// u64
    UInt64,
    /// i64
    Int64,
    /// f16
    Half,
    /// f32
    Float,
    /// f64
    Double,
    /// String
    String,
    /// Pointer
    Ptr,
    /// End of type enum
    Last,
}

/// Name of the values described by a `BaseType`
pub open spec fn base_type_name(t: BaseType) -> Seq<char> {
    match t {
        BaseType::Unknown => "unknown"@,
        BaseType::NoneType => "none"@,
        BaseType::UInt8 => "uint8"@,
        BaseType::Int8 => "int8"@,
        BaseType::UInt16 => "uint16"@,
        BaseType::Int16 => "int16"@,
        BaseType::UInt32 => "uint32"@,
        BaseType::Int32 => "int32"@,
        BaseType::UInt64 => "uint64"@,
        BaseType::Int64 => "int64"@,
        BaseType::Half => "half"@,
        BaseType::Float => "float"@,
        BaseType::Double => "double"@,
        BaseType::String => "string"@,
        BaseType::Ptr => "ptr"@,
        BaseType::Last => ""@,
    }
}

impl BaseType {
    /// Name of the values this type describes, as used in metadata and messages
    pub fn name(self) -> (r: &'static str)
        ensures
            r@ == base_type_name(self),
    {
        match self {
            BaseType::Unknown => "unknown",
            BaseType::NoneType => "none",
            BaseType::UInt8 => "uint8",
            BaseType::Int8 => "int8",
            BaseType::UInt16 => "uint16",
            BaseType::Int16 => "int16",
            BaseType::UInt32 => "uint32",
            BaseType::Int32 => "int32",
            BaseType::UInt64 => "uint64",
            BaseType::Int64 => "int64",
            BaseType::Half => "half",
            BaseType::Float => "float",
            BaseType::Double => "double",
            BaseType::String => "string",
            BaseType::Ptr => "ptr",
            BaseType::Last => "",
        }
    }
}

/// The characters of `s`, in order
pub(crate) fn str_chars(s: &str) -> (v: Vec<char>)
    ensures
        v@ == s@,
{
    broadcast use vstd::string::axiom_spec_iter;

    let mut v: Vec<char> = Vec::new();
    for c in it: s.chars()
        invariant
            it.seq() == s@,
            v@ == s@.take(it.index() as int),
    {
        v.push(c);
        assert(v@ =~= s@.take(it.index() + 1));
    }
    assert(v@ =~= s@);
    v
}

/// True when `a` and `b` hold the same characters
pub(crate) fn str_eq(a: &str, b: &str) -> (r: bool)
    ensures
        r == (a@ == b@),
{
    let va = str_chars(a);
    let vb = str_chars(b);
    if va.len() != vb.len() {
        assert(va@.len() != vb@.len());
        return false;
    }
    let n = va.len();
    let mut i: usize = 0;
    while i < n
        invariant
            va@ == a@,
            vb@ == b@,
            n == va@.len(),
            n == vb@.len(),
            i <= n,
            forall|k: int| 0 <= k < i ==> va@[k] == vb@[k],
        decreases n - i,
    {
        if va[i] != vb[i] {
            assert(va@[i as int] != vb@[i as int]);
            return false;
        }
        i = i + 1;
    }
    assert(va@ =~= vb@);
    true
}

/// Colors stored as they are by image files: gray, rgb and rgba; others are converted to rgb
/// before writing and read through an rgb, gray or rgba image
pub open spec fn is_file_color(name: Seq<char>) -> bool {
    name == "gray"@ || name == "rgb"@ || name == "rgba"@
}

/// Of the library's colors, exactly gray, rgb and rgba are stored as they are by image files;
/// srgb, srgba, xyz, hsv, yuv and cmyk are not, so reading them always goes through a
/// conversion (`read_as` never answers `Direct` for them) and writing converts them to rgb
pub proof fn law_file_colors()
    ensures
        is_file_color(Gray::spec_name()),
        is_file_color(Rgb::spec_name()),
        is_file_color(Rgba::spec_name()),
        !is_file_color(Srgb::spec_name()),
        !is_file_color(Srgba::spec_name()),
        !is_file_color(Xyz::spec_name()),
        !is_file_color(Hsv::spec_name()),
        !is_file_color(Yuv::spec_name()),
        !is_file_color(Cmyk::spec_name()),
{
    reveal_strlit("gray");
    reveal_strlit("rgb");
    reveal_strlit("rgba");
    assert(Gray::spec_name() =~= "gray"@);
    assert(Rgb::spec_name() =~= "rgb"@);
    assert(Rgba::spec_name() =~= "rgba"@);
    assert(Srgb::spec_name()[0] != "gray"@[0] && Srgb::spec_name().len() != "rgb"@.len());
    assert(Srgb::spec_name()[0] != "rgba"@[0]);
    assert(Srgba::spec_name().len() != "gray"@.len());
    assert(Xyz::spec_name()[0] != "rgb"@[0]);
    assert(Hsv::spec_name()[0] != "rgb"@[0]);
    assert(Yuv::spec_name()[0] != "rgb"@[0]);
    assert(Cmyk::spec_name()[0] != "gray"@[0] && Cmyk::spec_name()[0] != "rgba"@[0]);
}

/// True when images of the named color are read and written without conversion
pub fn file_color(name: &str) -> (r: bool)
    ensures
        r == is_file_color(name@),
{
    str_eq(name, "gray") || str_eq(name, "rgb") || str_eq(name, "rgba")
}

/// How an image file is read into an image of a given color
#[derive(Debug, Clone, Copy, PartialEq, Eq, Structural)]
pub enum ReadAs {
    /// Straight into the requested image
    Direct,
    /// Into a gray image, then converted
    Gray,
    /// Into an rgb image, then converted
    Rgb,
    /// Into an rgba image, then converted
    Rgba,
}

/// How a file with `file_channels` channels is read into an image of the named color with
/// `channels` channels: directly when the channel counts match and the color is stored as is,
/// otherwise through a gray (one channel), rgba (four channels) or rgb image
pub fn read_as(file_channels: usize, channels: usize, name: &str) -> (r: ReadAs)
    ensures
        (channels == file_channels && is_file_color(name@)) ==> r == ReadAs::Direct,
        !(channels == file_channels && is_file_color(name@)) ==> r == if file_channels == 1 {
            ReadAs::Gray
        } else if file_channels == 4 {
            ReadAs::Rgba
        } else {
            ReadAs::Rgb
        },
{
    if channels != file_channels || !file_color(name) {
        if file_channels == 1 {
            ReadAs::Gray
        } else if file_channels == 4 {
            ReadAs::Rgba
        } else {
            ReadAs::Rgb
        }
    } else {
        ReadAs::Direct
    }
}

/// Check that a file of `file_width` x `file_height` pixels with `file_channels` channels can be
/// read into an image of `width` x `height` pixels with `channels` channels
pub fn check_read_dimensions(
    file_width: usize,
    file_height: usize,
    file_channels: usize,
    width: usize,
    height: usize,
    channels: usize,
) -> (r: Result<(), Error>)
    ensures
        r is Ok <==> (file_channels >= channels && file_width == width && file_height == height),
        r matches Err(e) ==> e == Error::InvalidDimensions(file_width, file_height, file_channels),
{
    if file_channels < channels || file_width != width || file_height != height {
        return Err(Error::InvalidDimensions(file_width, file_height, file_channels));
    }
    Ok(())
}

} // verus!
