use vstd::prelude::*;
use vstd::arithmetic::div_mod::{
    lemma_div_denominator, lemma_div_multiples_vanish_fancy, lemma_div_pos_is_pos,
    lemma_fundamental_div_mod, lemma_mod_multiples_vanish,
};
use vstd::arithmetic::mul::{
    lemma_mul_inequality, lemma_mul_is_associative, lemma_mul_is_commutative,
    lemma_mul_is_distributive_add, lemma_mul_nonnegative,
};
use core::marker::PhantomData;

use crate::color::{Channel, Color};
use crate::geom::{Point, Size};

verus! {

/// Offset of the first value of pixel `pt` in an interleaved buffer whose rows hold
/// `width` pixels of `channels` values each
pub open spec fn pixel_offset(width: int, channels: int, pt: Point) -> int {
    width * channels * pt.y + pt.x * channels
}

/// The pixel whose values start at or before offset `n`: `y = n / width / channels`,
/// `x = (n - y * width * channels) / channels`
pub open spec fn offset_point(width: int, channels: int, n: int) -> (int, int) {
    let y = n / width / channels;
    (((n - y * width * channels) / channels), y)
}

/// `y * width * channels` never exceeds `n` when `y = n / width / channels`
pub proof fn lemma_row_start_le(n: int, width: int, channels: int)
    requires
        0 <= n,
        0 < width,
        0 < channels,
    ensures
        0 <= n / width / channels,
        0 <= (n / width / channels) * width <= (n / width / channels) * width * channels <= n,
        n / width / channels == n / (width * channels),
{
    let q = n / width;
    let y = q / channels;
    lemma_div_pos_is_pos(n, width);
    lemma_div_pos_is_pos(q, channels);
    lemma_fundamental_div_mod(n, width);
    lemma_fundamental_div_mod(q, channels);
    lemma_div_denominator(n, width, channels);
    assert(y * channels <= q) by (nonlinear_arith)
        requires
            q == channels * y + q % channels,
            0 <= q % channels,
    ;
    assert(y * channels * width <= q * width) by (nonlinear_arith)
        requires
            y * channels <= q,
            0 < width,
    ;
    assert(q * width <= n) by (nonlinear_arith)
        requires
            n == width * q + n % width,
            0 <= n % width,
    ;
    lemma_mul_is_associative(y, channels, width);
    lemma_mul_is_associative(y, width, channels);
    lemma_mul_is_commutative(channels, width);
    assert(y * width <= y * width * channels) by (nonlinear_arith)
        requires
            0 <= y,
            0 < width,
            0 < channels,
    ;
    lemma_mul_nonnegative(y, width);
}

/// Decoding any of the offsets of an in-row pixel's values gives the pixel back
pub proof fn lemma_offset_round_trip(width: int, channels: int, pt: Point, j: int)
    requires
        0 <= j < channels,
        pt.x < width,
    ensures
        offset_point(width, channels, pixel_offset(width, channels, pt) + j) == (
            pt.x as int,
            pt.y as int,
        ),
{
    let n = pixel_offset(width, channels, pt) + j;
    let wc = width * channels;
    assert(0 < wc) by (nonlinear_arith)
        requires
            0 <= pt.x < width,
            0 < channels,
            wc == width * channels,
    ;
    assert(pt.x * channels + j < wc) by (nonlinear_arith)
        requires
            pt.x < width,
            0 <= j < channels,
            wc == width * channels,
    ;
    assert(0 <= pt.x * channels + j) by (nonlinear_arith)
        requires
            0 < channels,
            0 <= j,
    ;
    lemma_div_multiples_vanish_fancy(pt.y as int, pt.x * channels + j, wc);
    lemma_mul_is_commutative(pt.y as int, wc);
    assert(n / wc == pt.y);
    lemma_row_start_le(n, width, channels);
    assert(n / width / channels == pt.y);
    assert(pt.y * width * channels == wc * pt.y) by (nonlinear_arith)
        requires
            wc == width * channels,
    ;
    assert(n - pt.y * width * channels == pt.x * channels + j);
    lemma_div_multiples_vanish_fancy(pt.x as int, j, channels);
    lemma_mul_is_commutative(pt.x as int, channels);
}

/// Distinct pixels of one row-major layout own disjoint runs of `channels` values
pub proof fn lemma_pixels_disjoint(width: int, channels: int, p: Point, q: Point)
    requires
        0 < channels,
        p.x < width,
        q.x < width,
        p != q,
    ensures
        pixel_offset(width, channels, p) + channels <= pixel_offset(width, channels, q)
            || pixel_offset(width, channels, q) + channels <= pixel_offset(width, channels, p),
{
    let kp = width * p.y + p.x;
    let kq = width * q.y + q.x;
    assert(pixel_offset(width, channels, p) == channels * kp) by (nonlinear_arith)
        requires
            kp == width * p.y + p.x,
    ;
    assert(pixel_offset(width, channels, q) == channels * kq) by (nonlinear_arith)
        requires
            kq == width * q.y + q.x,
    ;
    if p.y == q.y {
        assert(kp != kq);
    } else if p.y < q.y {
        assert(kp < kq) by (nonlinear_arith)
            requires
                kp == width * p.y + p.x,
                kq == width * q.y + q.x,
                p.y < q.y,
                p.x < width,
                0 <= q.x,
        ;
    } else {
        assert(kq < kp) by (nonlinear_arith)
            requires
                kp == width * p.y + p.x,
                kq == width * q.y + q.x,
                q.y < p.y,
                q.x < width,
                0 <= p.x,
        ;
    }
    if kp < kq {
        assert(channels * kp + channels <= channels * kq) by (nonlinear_arith)
            requires
                kp + 1 <= kq,
                0 < channels,
        ;
    } else {
        assert(channels * kq + channels <= channels * kp) by (nonlinear_arith)
            requires
                kq + 1 <= kp,
                0 < channels,
        ;
    }
}

/// Image metadata: the dimensions of an image of `C` pixels whose values are `T`s
#[derive(Debug, PartialEq, Eq)]
pub struct Meta<T, C: Color> {
    /// Image size
    pub size: Size,
    /// Value type marker
    pub _type: PhantomData<T>,
    /// Color marker
    pub _color: PhantomData<C>,
}

impl<T, C: Color> Meta<T, C> {
    /// Values per row
    pub open spec fn spec_width_step(&self) -> int {
        self.size.width * C::spec_channels()
    }

    /// Number of values held by an image with this metadata
    pub open spec fn spec_num_values(&self) -> int {
        self.size.width * self.size.height * C::spec_channels()
    }

    /// Offset of the first value of pixel `pt`
    pub open spec fn spec_index(&self, pt: Point) -> int {
        pixel_offset(self.size.width as int, C::spec_channels() as int, pt)
    }

    /// True when `pt` lies inside the image
    pub open spec fn contains(&self, pt: Point) -> bool {
        self.size.contains(pt)
    }

    /// True when every value offset of the image fits in a `usize`
    pub open spec fn addressable(&self) -> bool {
        self.spec_num_values() <= usize::MAX
    }

    /// Create a new `Meta`
    pub fn new(size: Size) -> (m: Meta<T, C>)
        ensures
            m.size == size,
    {
        Meta { size, _type: PhantomData, _color: PhantomData }
    }

    /// Returns the size of a row
    pub fn width_step(&self) -> (r: usize)
        requires
            self.spec_width_step() <= usize::MAX,
        ensures
            r == self.spec_width_step(),
    {
        self.size.width * C::channels()
    }

    /// Number of pixels
    pub fn num_pixels(&self) -> (r: usize)
        requires
            self.size.width * self.size.height <= usize::MAX,
        ensures
            r == self.size.width * self.size.height,
    {
        self.size.width * self.size.height
    }

    /// Number of items
    pub fn num_values(&self) -> (r: usize)
        requires
            self.addressable(),
        ensures
            r == self.spec_num_values(),
    {
        let c = C::channels();
        proof {
            lemma_mul_nonnegative(self.size.width as int, self.size.height as int);
            assert(self.size.width * self.size.height <= self.size.width * self.size.height * c)
                by (nonlinear_arith)
                requires
                    0 <= self.size.width * self.size.height,
                    1 <= c,
            ;
        }
        self.size.width * self.size.height * c
    }

    /// Number of bytes
    pub fn num_bytes(&self) -> (r: usize)
        requires
            self.spec_num_values() * vstd::layout::size_of::<T>() <= usize::MAX,
        ensures
            r == self.spec_num_values() * vstd::layout::size_of::<T>(),
    {
        let c = C::channels();
        let s = core::mem::size_of::<T>();
        if s == 0 {
            proof {
                assert(self.spec_num_values() * 0 == 0) by (nonlinear_arith);
            }
            return 0;
        }
        proof {
            lemma_mul_nonnegative(self.size.width as int, self.size.height as int);
            lemma_mul_nonnegative(self.size.width * self.size.height, c as int);
            assert(self.size.width * self.size.height <= self.spec_num_values()) by (nonlinear_arith)
                requires
                    0 <= self.size.width * self.size.height,
                    1 <= c,
                    self.spec_num_values() == self.size.width * self.size.height * c,
            ;
            assert(self.spec_num_values() <= self.spec_num_values() * s) by (nonlinear_arith)
                requires
                    0 <= self.spec_num_values(),
                    1 <= s,
            ;
            assert(self.spec_num_values() * s == self.size.width * self.size.height * c * s);
        }
        self.size.width * self.size.height * c * s
    }

    /// Returns true when the configured color has an alpha channel
    pub fn has_alpha(&self) -> (b: bool)
        ensures
            b == C::spec_alpha().is_some(),
    {
        C::alpha().is_some()
    }

    /// Returns true when the provided index matches the alpha channel index
    pub fn is_alpha_channel(&self, c: Channel) -> (b: bool)
        ensures
            b == (C::spec_alpha() == Some(c)),
    {
        match C::alpha() {
            Some(a) => a == c,
            None => false,
        }
    }

    /// Get color name
    pub fn color_name(&self) -> (r: &'static str)
        ensures
            r@ == C::spec_name(),
    {
        C::name()
    }

    /// Image size
    pub fn size(&self) -> (r: Size)
        ensures
            r == self.size,
    {
        self.size
    }

    /// Image width
    pub fn width(&self) -> (r: usize)
        ensures
            r == self.size.width,
    {
        self.size.width
    }

    /// Image height
    pub fn height(&self) -> (r: usize)
        ensures
            r == self.size.height,
    {
        self.size.height
    }

    /// Get the index of the specified pixel
    pub fn index(&self, pt: Point) -> (r: usize)
        requires
            self.spec_index(pt) <= usize::MAX,
        ensures
            r == self.spec_index(pt),
    {
        let c = C::channels();
        proof {
            let w = self.size.width as int;
            lemma_mul_nonnegative(w, c as int);
            lemma_mul_nonnegative(w * c, pt.y as int);
            lemma_mul_nonnegative(pt.x as int, c as int);
            assert(w * c <= w * c * pt.y || pt.y == 0) by (nonlinear_arith)
                requires
                    0 <= w * c,
                    0 <= pt.y,
            ;
            if pt.y == 0 {
                assert(w * c * pt.y == 0) by (nonlinear_arith)
                    requires
                        pt.y == 0,
                ;
            }
        }
        if pt.y == 0 {
            pt.x * c
        } else {
            self.size.width * c * pt.y + pt.x * c
        }
    }

    /// Convert from index to Point
    pub fn convert_index_to_point(&self, n: usize) -> (p: Point)
        requires
            self.size.width > 0,
        ensures
            (p.x as int, p.y as int) == offset_point(
                self.size.width as int,
                C::spec_channels() as int,
                n as int,
            ),
    {
        let width = self.size.width;
        let c = C::channels();
        let y = n / width / c;
        proof {
            lemma_row_start_le(n as int, width as int, c as int);
        }
        let x = (n - (y * width * c)) / c;
        Point::new(x, y)
    }

    /// Get the point of every pixel, row after row: the `n`-th point is the pixel of rank `n`
    /// in row-major order
    pub fn iter(&self) -> (v: Vec<Point>)
        requires
            self.size.width * self.size.height <= usize::MAX,
        ensures
            v.len() == self.size.width * self.size.height,
            forall|n: int|
                #![trigger v[n]]
                0 <= n < v.len() ==> v[n] == rank_point(self.size.width as int, n),
    {
        let total = self.num_pixels();
        let width = self.size.width;
        let mut v: Vec<Point> = Vec::new();
        let mut n: usize = 0;
        while n < total
            invariant
                n <= total,
                total == self.size.width * self.size.height,
                width == self.size.width,
                v.len() == n,
                forall|k: int|
                    #![trigger v[k]]
                    0 <= k < n ==> v[k] == rank_point(width as int, k),
            decreases total - n,
        {
            assert(width > 0) by (nonlinear_arith)
                requires
                    n < total,
                    total == width * self.size.height,
            ;
            v.push(Point::new(n % width, n / width));
            n = n + 1;
        }
        v
    }
}

/// The pixel of rank `n` in row-major order over rows of `width` pixels
pub open spec fn rank_point(width: int, n: int) -> Point {
    Point { x: (n % width) as usize, y: (n / width) as usize }
}

/// `iter` visits every pixel of the image exactly once: the points of ranks below
/// `width * height` are exactly the points inside the image, and the pixel `pt` has rank
/// `pt.y * width + pt.x`
pub proof fn law_iter_visits_each_pixel<T, C: Color>(meta: Meta<T, C>, pt: Point, n: int)
    requires
        meta.size.width > 0,
    ensures
        meta.contains(pt) ==> 0 <= pt.y * meta.size.width + pt.x < meta.size.width
            * meta.size.height && rank_point(
            meta.size.width as int,
            pt.y * meta.size.width + pt.x,
        ) == pt,
        0 <= n < meta.size.width * meta.size.height ==> meta.contains(
            rank_point(meta.size.width as int, n),
        ),
        0 <= n < meta.size.width * meta.size.height && rank_point(meta.size.width as int, n)
            == pt ==> n == pt.y * meta.size.width + pt.x,
{
    let w = meta.size.width as int;
    let h = meta.size.height as int;
    if meta.contains(pt) {
        let r = pt.y * w + pt.x;
        assert(0 <= r < w * h) by (nonlinear_arith)
            requires
                r == pt.y * w + pt.x,
                0 <= pt.x < w,
                0 <= pt.y < h,
        ;
        lemma_div_multiples_vanish_fancy(pt.y as int, pt.x as int, w);
        lemma_mod_multiples_vanish(pt.y as int, pt.x as int, w);
        assert(pt.x as int % w == pt.x) by {
            vstd::arithmetic::div_mod::lemma_small_mod(pt.x as nat, w as nat);
        }
        lemma_mul_is_commutative(pt.y as int, w);
    }
    if 0 <= n < w * h {
        lemma_fundamental_div_mod(n, w);
        vstd::arithmetic::div_mod::lemma_mod_pos_bound(n, w);
        lemma_div_pos_is_pos(n, w);
        let q = n / w;
        assert(q < h) by (nonlinear_arith)
            requires
                n == w * q + n % w,
                0 <= n % w,
                n < w * h,
                0 < w,
        ;
        if rank_point(w, n) == pt {
            assert(n == pt.y * w + pt.x) by (nonlinear_arith)
                requires
                    n == w * (n / w) + n % w,
                    pt.x == n % w,
                    pt.y == n / w,
            ;
        }
    }
}

impl<T, C: Color> Clone for Meta<T, C> {
    fn clone(&self) -> (m: Self)
        ensures
            m.size == self.size,
    {
        Meta::new(self.size)
    }
}

/// The pixel addressed by `index` is read back by `convert_index_to_point`: for every
/// point inside the image, decoding the offset of any of its values (the first one, at
/// `index`, or any of the next `channels - 1`) gives the same point
pub proof fn law_index_round_trip<T, C: Color>(meta: Meta<T, C>, pt: Point, j: int)
    requires
        meta.contains(pt),
        0 <= j < C::spec_channels(),
    ensures
        offset_point(
            meta.size.width as int,
            C::spec_channels() as int,
            meta.spec_index(pt) + j,
        ) == (pt.x as int, pt.y as int),
{
    lemma_offset_round_trip(meta.size.width as int, C::spec_channels() as int, pt, j);
}

/// Every pixel inside the image owns `channels` values that lie inside the buffer
pub proof fn law_index_in_buffer<T, C: Color>(meta: Meta<T, C>, pt: Point)
    requires
        meta.contains(pt),
    ensures
        0 <= meta.spec_index(pt),
        meta.spec_index(pt) + C::spec_channels() <= meta.spec_num_values(),
{
    let w = meta.size.width as int;
    let h = meta.size.height as int;
    let c = C::spec_channels() as int;
    assert(0 <= w * c * pt.y + pt.x * c) by (nonlinear_arith)
        requires
            0 <= w,
            0 <= c,
            0 <= pt.y,
            0 <= pt.x,
    ;
    assert(w * c * pt.y + pt.x * c + c <= w * h * c) by (nonlinear_arith)
        requires
            pt.x < w,
            pt.y < h,
            0 <= c,
            0 <= pt.x,
            0 <= pt.y,
    ;
}

} // verus!
