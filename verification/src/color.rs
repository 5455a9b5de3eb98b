use vstd::prelude::*;

verus! {

/// `Channel` is an alias for `usize` used to identify channel values in function arguments
pub type Channel = usize;

/// `Color` trait is used to define color spaces: how many values make up one pixel,
/// which of them (if any) holds alpha, and the color's name
pub trait Color: Sized + Copy {
    /// Number of channels
    spec fn spec_channels() -> nat;

    /// Index of the alpha channel
    spec fn spec_alpha() -> Option<Channel>;

    /// Color name
    spec fn spec_name() -> Seq<char>;

    /// A color has at least one channel, and its alpha index names one of them
    proof fn lemma_channels_positive()
        ensures
            0 < Self::spec_channels(),
            Self::spec_alpha() matches Some(a) ==> a < Self::spec_channels(),
    ;

    /// Color name
    fn name() -> (r: &'static str)
        ensures
            r@ == Self::spec_name(),
    ;

    /// Number of channels, always at least one
    fn channels() -> (r: Channel)
        ensures
            r == Self::spec_channels(),
            0 < r,
    ;

    /// Index of the alpha channel, always a valid channel index
    fn alpha() -> (r: Option<Channel>)
        ensures
            r == Self::spec_alpha(),
            r matches Some(a) ==> a < Self::spec_channels(),
    ;
}

/// Single-channel grayscale
#[derive(Debug, Clone, Copy, PartialEq, Eq, PartialOrd, Ord)]
pub struct Gray;

/// Three-channel red, green, blue
#[derive(Debug, Clone, Copy, PartialEq, Eq, PartialOrd, Ord)]
pub struct Rgb;

/// Three-channel sRGB
#[derive(Debug, Clone, Copy, PartialEq, Eq, PartialOrd, Ord)]
pub struct Srgb;

/// Four-channel red, green, blue with alpha channel
#[derive(Debug, Clone, Copy, PartialEq, Eq, PartialOrd, Ord)]
pub struct Rgba;

/// Four-channel sRGB with alpha channel
#[derive(Debug, Clone, Copy, PartialEq, Eq, PartialOrd, Ord)]
pub struct Srgba;

/// Three-channel CIE-XYZ
#[derive(Debug, Clone, Copy, PartialEq, Eq, PartialOrd, Ord)]
pub struct Xyz;

/// Three-channel hue, saturation and value color
#[derive(Debug, Clone, Copy, PartialEq, Eq, PartialOrd, Ord)]
pub struct Hsv;

/// Three-channel, luma, blue projection and red projection
#[derive(Debug, Clone, Copy, PartialEq, Eq, PartialOrd, Ord)]
pub struct Yuv;

/// Four-channel, cyan, magenta, yellow and black
#[derive(Debug, Clone, Copy, PartialEq, Eq, PartialOrd, Ord)]
pub struct Cmyk;

impl Color for Gray {
    open spec fn spec_channels() -> nat {
        1
    }

    open spec fn spec_alpha() -> Option<Channel> {
        None
    }

    open spec fn spec_name() -> Seq<char> {
        seq!['g', 'r', 'a', 'y']
    }

    proof fn lemma_channels_positive() {
    }

    fn name() -> (r: &'static str) {
        let r = "gray";
        proof {
            reveal_strlit("gray");
        }
        r
    }

    fn channels() -> (r: Channel) {
        1
    }

    fn alpha() -> (r: Option<Channel>) {
        None
    }
}

impl Color for Rgb {
    open spec fn spec_channels() -> nat {
        3
    }

    open spec fn spec_alpha() -> Option<Channel> {
        None
    }

    open spec fn spec_name() -> Seq<char> {
        seq!['r', 'g', 'b']
    }

    proof fn lemma_channels_positive() {
    }

    fn name() -> (r: &'static str) {
        let r = "rgb";
        proof {
            reveal_strlit("rgb");
        }
        r
    }

    fn channels() -> (r: Channel) {
        3
    }

    fn alpha() -> (r: Option<Channel>) {
        None
    }
}

impl Color for Srgb {
    open spec fn spec_channels() -> nat {
        3
    }

    open spec fn spec_alpha() -> Option<Channel> {
        None
    }

    open spec fn spec_name() -> Seq<char> {
        seq!['s', 'r', 'g', 'b']
    }

    proof fn lemma_channels_positive() {
    }

    fn name() -> (r: &'static str) {
        let r = "srgb";
        proof {
            reveal_strlit("srgb");
        }
        r
    }

    fn channels() -> (r: Channel) {
        3
    }

    fn alpha() -> (r: Option<Channel>) {
        None
    }
}

impl Color for Rgba {
    open spec fn spec_channels() -> nat {
        4
    }

    open spec fn spec_alpha() -> Option<Channel> {
        Some(3)
    }

    open spec fn spec_name() -> Seq<char> {
        seq!['r', 'g', 'b', 'a']
    }

    proof fn lemma_channels_positive() {
    }

    fn name() -> (r: &'static str) {
        let r = "rgba";
        proof {
            reveal_strlit("rgba");
        }
        r
    }

    fn channels() -> (r: Channel) {
        4
    }

    fn alpha() -> (r: Option<Channel>) {
        Some(3)
    }
}

impl Color for Srgba {
    open spec fn spec_channels() -> nat {
        4
    }

    open spec fn spec_alpha() -> Option<Channel> {
        Some(3)
    }

    open spec fn spec_name() -> Seq<char> {
        seq!['s', 'r', 'g', 'b', 'a']
    }

    proof fn lemma_channels_positive() {
    }

    fn name() -> (r: &'static str) {
        let r = "srgba";
        proof {
            reveal_strlit("srgba");
        }
        r
    }

    fn channels() -> (r: Channel) {
        4
    }

    fn alpha() -> (r: Option<Channel>) {
        Some(3)
    }
}

impl Color for Xyz {
    open spec fn spec_channels() -> nat {
        3
    }

    open spec fn spec_alpha() -> Option<Channel> {
        None
    }

    open spec fn spec_name() -> Seq<char> {
        seq!['x', 'y', 'z']
    }

    proof fn lemma_channels_positive() {
    }

    fn name() -> (r: &'static str) {
        let r = "xyz";
        proof {
            reveal_strlit("xyz");
        }
        r
    }

    fn channels() -> (r: Channel) {
        3
    }

    fn alpha() -> (r: Option<Channel>) {
        None
    }
}

impl Color for Hsv {
    open spec fn spec_channels() -> nat {
        3
    }

    open spec fn spec_alpha() -> Option<Channel> {
        None
    }

    open spec fn spec_name() -> Seq<char> {
        seq!['h', 's', 'v']
    }

    proof fn lemma_channels_positive() {
    }

    fn name() -> (r: &'static str) {
        let r = "hsv";
        proof {
            reveal_strlit("hsv");
        }
        r
    }

    fn channels() -> (r: Channel) {
        3
    }

    fn alpha() -> (r: Option<Channel>) {
        None
    }
}

impl Color for Yuv {
    open spec fn spec_channels() -> nat {
        3
    }

    open spec fn spec_alpha() -> Option<Channel> {
        None
    }

    open spec fn spec_name() -> Seq<char> {
        seq!['y', 'u', 'v']
    }

    proof fn lemma_channels_positive() {
    }

    fn name() -> (r: &'static str) {
        let r = "yuv";
        proof {
            reveal_strlit("yuv");
        }
        r
    }

    fn channels() -> (r: Channel) {
        3
    }

    fn alpha() -> (r: Option<Channel>) {
        None
    }
}

impl Color for Cmyk {
    open spec fn spec_channels() -> nat {
        4
    }

    open spec fn spec_alpha() -> Option<Channel> {
        None
    }

    open spec fn spec_name() -> Seq<char> {
        seq!['c', 'm', 'y', 'k']
    }

    proof fn lemma_channels_positive() {
    }

    fn name() -> (r: &'static str) {
        let r = "cmyk";
        proof {
            reveal_strlit("cmyk");
        }
        r
    }

    fn channels() -> (r: Channel) {
        4
    }

    fn alpha() -> (r: Option<Channel>) {
        None
    }
}

/// Each color has the channels its definition lists: gray has one; rgb, srgb, xyz, hsv and yuv
/// have three; rgba, srgba (three colors and alpha) and cmyk (cyan, magenta, yellow, black) have
/// four. Where a color's name spells its channels (rgb, rgba, xyz, hsv, yuv, cmyk) the count is
/// the name's length; only rgba and srgba have an alpha channel, the last one
pub proof fn law_color_channels()
    ensures
        Gray::spec_channels() == 1,
        Rgb::spec_channels() == 3,
        Srgb::spec_channels() == 3,
        Xyz::spec_channels() == 3,
        Hsv::spec_channels() == 3,
        Yuv::spec_channels() == 3,
        Rgba::spec_channels() == 4,
        Srgba::spec_channels() == 4,
        Cmyk::spec_channels() == 4,
        Rgb::spec_channels() == Rgb::spec_name().len(),
        Rgba::spec_channels() == Rgba::spec_name().len(),
        Xyz::spec_channels() == Xyz::spec_name().len(),
        Hsv::spec_channels() == Hsv::spec_name().len(),
        Yuv::spec_channels() == Yuv::spec_name().len(),
        Cmyk::spec_channels() == Cmyk::spec_name().len(),
        Rgba::spec_alpha() == Some(3usize),
        Srgba::spec_alpha() == Some(3usize),
        Gray::spec_alpha() is None && Rgb::spec_alpha() is None && Srgb::spec_alpha() is None,
        Xyz::spec_alpha() is None && Hsv::spec_alpha() is None && Yuv::spec_alpha() is None,
        Cmyk::spec_alpha() is None,
{
}

} // verus!
