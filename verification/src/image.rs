use vstd::prelude::*;

use crate::color::{Channel, Color};
use crate::data::{Data, DataMut};
use crate::error::Error;
use crate::geom::{Point, Region, Size};
use crate::meta::{law_index_in_buffer, lemma_pixels_disjoint, Meta};

verus! {

/// Image type: metadata and interleaved pixel values, row after row
#[derive(Debug, PartialEq)]
pub struct Image<T, C: Color> {
    /// Metadata
    pub meta: Meta<T, C>,
    /// Pixel data
    pub data: Vec<T>,
}

/// `n` copies of `v`
pub open spec fn repeat<T>(v: T, n: nat) -> Seq<T> {
    Seq::new(n, |_i: int| v)
}

/// Every pixel of `roi` inside an image of size `size` has a source pixel
/// `p - roi.point + offs` whose coordinates fit a `usize` and whose values lie inside the
/// buffer of `other`
pub open spec fn region_copy_ok<T: Copy, C: Color>(
    size: Size,
    offs: Point,
    other: &Image<T, C>,
    roi: Region,
) -> bool {
    forall|p: Point|
        #![trigger region_source(roi, offs, p)]
        size.contains(p) && roi.contains(p) ==> {
            &&& p.x - roi.point.x + offs.x <= usize::MAX
            &&& p.y - roi.point.y + offs.y <= usize::MAX
            &&& other.offset(region_source(roi, offs, p)) + C::spec_channels()
                <= other.data@.len()
        }
}

/// What a read gives back of a write: after the values of pixel `q` are replaced by `px`
/// (as `set` does), reading pixel `q` (as `get` does) gives `px`, and reading any other pixel
/// gives what it held before
pub proof fn law_write_then_read<T: Copy, C: Color>(
    img: Image<T, C>,
    q: Point,
    px: Seq<T>,
    p: Point,
)
    requires
        img.wf(),
        img.meta.contains(q),
        img.meta.contains(p),
        px.len() == C::spec_channels(),
    ensures
        img.with_pixel(q, px).subrange(img.offset(q), img.offset(q) + C::spec_channels()) == px,
        p != q ==> img.with_pixel(q, px).subrange(img.offset(p), img.offset(p)
            + C::spec_channels()) == img.pixel(p),
{
    law_index_in_buffer(img.meta, q);
    img.lemma_with_pixel_keeps(q, px, p);
    assert(img.with_pixel(q, px).subrange(img.offset(q), img.offset(q) + C::spec_channels())
        =~= px);
}

impl<T: Copy, C: Color> Clone for Image<T, C> {
    fn clone(&self) -> (img: Self)
        ensures
            img.meta.size == self.meta.size,
            img.data@ == self.data@,
    {
        let mut data: Vec<T> = Vec::new();
        let mut i: usize = 0;
        while i < self.data.len()
            invariant
                i <= self.data@.len(),
                data@ == self.data@.subrange(0, i as int),
            decreases self.data@.len() - i,
        {
            data.push(self.data[i]);
            i = i + 1;
            assert(data@ =~= self.data@.subrange(0, i as int));
        }
        assert(data@ =~= self.data@);
        Image { meta: self.meta.clone(), data }
    }
}

/// The pixel of the source image copied to pixel `p` by `copy_from_region`
pub open spec fn region_source(roi: Region, offs: Point, p: Point) -> Point {
    Point {
        x: (p.x - roi.point.x + offs.x) as usize,
        y: (p.y - roi.point.y + offs.y) as usize,
    }
}

/// `copy_from_region` translates: the pixel `dx` columns right of and `dy` rows below the
/// region's corner is copied from the pixel `dx` columns right of and `dy` rows below `offs` in
/// the source image; so the region's corner takes the source pixel at `offs`, and moving one
/// column or row in the region moves one column or row in the source
pub proof fn law_region_source_translates(roi: Region, offs: Point, dx: usize, dy: usize)
    requires
        roi.point.x + dx <= usize::MAX,
        roi.point.y + dy <= usize::MAX,
        offs.x + dx <= usize::MAX,
        offs.y + dy <= usize::MAX,
    ensures
        region_source(
            roi,
            offs,
            Point { x: (roi.point.x + dx) as usize, y: (roi.point.y + dy) as usize },
        ) == (Point { x: (offs.x + dx) as usize, y: (offs.y + dy) as usize }),
        region_source(roi, offs, roi.point) == offs,
{
}

impl<T: Copy, C: Color> Image<T, C> {
    /// The buffer holds a value for every channel of every pixel
    pub open spec fn wf(&self) -> bool {
        self.data@.len() >= self.meta.spec_num_values()
    }

    /// Offset of the first value of pixel `pt`
    pub open spec fn offset(&self, pt: Point) -> int {
        self.meta.spec_index(pt)
    }

    /// The values of pixel `pt`
    pub open spec fn pixel(&self, pt: Point) -> Seq<T> {
        self.data@.subrange(self.offset(pt), self.offset(pt) + C::spec_channels())
    }

    /// The values of row `y`
    pub open spec fn row_values(&self, y: usize) -> Seq<T> {
        let start = self.offset(Point { x: 0, y });
        self.data@.subrange(start, start + self.meta.spec_width_step())
    }

    /// `data` with the values of pixel `pt` replaced by `px`
    pub open spec fn with_pixel(&self, pt: Point, px: Seq<T>) -> Seq<T> {
        self.data@.subrange(0, self.offset(pt)) + px + self.data@.subrange(
            self.offset(pt) + C::spec_channels(),
            self.data@.len() as int,
        )
    }

    /// Create a new image with the given size and data, returns `Err` if the provided data
    /// isn't big enough for the specified dimensions
    pub fn new_with_data(size: Size, data: Vec<T>) -> (r: Result<Image<T, C>, Error>)
        ensures
            r is Ok <==> data@.len() >= size.width * size.height * C::spec_channels(),
            r matches Ok(img) ==> img.meta.size == size && img.data@ == data@ && img.wf(),
            r matches Err(e) ==> e == Error::InvalidDimensions(
                size.width,
                size.height,
                C::spec_channels() as usize,
            ),
    {
        let c = C::channels();
        let len = data.len();
        let meta: Meta<T, C> = Meta::new(size);
        proof {
            vstd::arithmetic::mul::lemma_mul_nonnegative(
                size.width as int,
                size.height as int,
            );
            assert(size.width * size.height <= size.width * size.height * c) by (nonlinear_arith)
                requires
                    0 <= size.width * size.height,
                    1 <= c,
            ;
        }
        let enough = match size.width.checked_mul(size.height) {
            Some(wh) => match wh.checked_mul(c) {
                Some(n) => len >= n,
                None => false,
            },
            None => false,
        };
        if !enough {
            return Err(Error::InvalidDimensions(size.width, size.height, c));
        }
        Ok(Image { meta, data })
    }

    /// Create a new image filled with `T::default()`
    pub fn new(size: Size) -> (img: Image<T, C>) where T: Default
        requires
            size.width * size.height * C::spec_channels() <= usize::MAX,
        ensures
            img.meta.size == size,
            img.data@.len() == size.width * size.height * C::spec_channels(),
            exists|v: T| call_ensures(T::default, (), v) && img.data@ == repeat(v, img.data@.len()),
    {
        let meta: Meta<T, C> = Meta::new(size);
        let n = meta.num_values();
        let v = T::default();
        let mut data: Vec<T> = Vec::new();
        let mut i: usize = 0;
        while i < n
            invariant
                i <= n,
                data@ == repeat(v, i as nat),
            decreases n - i,
        {
            data.push(v);
            i = i + 1;
            assert(data@ =~= repeat(v, i as nat));
        }
        let img = Image { meta, data };
        assert(call_ensures(T::default, (), v) && img.data@ == repeat(v, img.data@.len()));
        img
    }

    /// Create a new image with the same size, type and color
    pub fn new_like(&self) -> (img: Image<T, C>) where T: Default
        requires
            self.meta.addressable(),
        ensures
            img.meta.size == self.meta.size,
            img.data@.len() == self.meta.spec_num_values(),
            exists|v: T| call_ensures(T::default, (), v) && img.data@ == repeat(v, img.data@.len()),
    {
        Image::new(self.size())
    }

    /// Create a new image with the same size and color as an existing image with the given type
    pub fn new_like_with_type<U: Copy + Default>(&self) -> (img: Image<U, C>)
        requires
            self.meta.addressable(),
        ensures
            img.meta.size == self.meta.size,
            img.data@.len() == self.meta.spec_num_values(),
            exists|v: U| call_ensures(U::default, (), v) && img.data@ == repeat(v, img.data@.len()),
    {
        Image::new(self.size())
    }

    /// Create a new image with the same size and type as an existing image with the given color
    pub fn new_like_with_color<D: Color>(&self) -> (img: Image<T, D>) where T: Default
        requires
            self.meta.size.width * self.meta.size.height * D::spec_channels() <= usize::MAX,
        ensures
            img.meta.size == self.meta.size,
            img.data@.len() == self.meta.size.width * self.meta.size.height * D::spec_channels(),
            exists|v: T| call_ensures(T::default, (), v) && img.data@ == repeat(v, img.data@.len()),
    {
        Image::new(self.size())
    }

    /// Create a new image with the same size as an existing image with the given type and color
    pub fn new_like_with_type_and_color<U: Copy + Default, D: Color>(&self) -> (img: Image<U, D>)
        requires
            self.meta.size.width * self.meta.size.height * D::spec_channels() <= usize::MAX,
        ensures
            img.meta.size == self.meta.size,
            img.data@.len() == self.meta.size.width * self.meta.size.height * D::spec_channels(),
            exists|v: U| call_ensures(U::default, (), v) && img.data@ == repeat(v, img.data@.len()),
    {
        Image::new(self.size())
    }

    /// Returns the number of channels
    pub fn channels(&self) -> (r: Channel)
        ensures
            r == C::spec_channels(),
    {
        C::channels()
    }

    /// Get image meta
    pub fn meta(&self) -> (m: Meta<T, C>)
        ensures
            m.size == self.meta.size,
    {
        Meta::new(self.meta.size)
    }

    /// Image width
    pub fn width(&self) -> (r: usize)
        ensures
            r == self.meta.size.width,
    {
        self.meta.size.width
    }

    /// Image height
    pub fn height(&self) -> (r: usize)
        ensures
            r == self.meta.size.height,
    {
        self.meta.size.height
    }

    /// Returns (width, height, channels)
    pub fn shape(&self) -> (r: (usize, usize, Channel))
        ensures
            r == (self.meta.size.width, self.meta.size.height, C::spec_channels() as usize),
    {
        (self.meta.size.width, self.meta.size.height, C::channels())
    }

    /// Get image size
    pub fn size(&self) -> (r: Size)
        ensures
            r == self.meta.size,
    {
        self.meta.size
    }

    /// Update the colorspace associated with an image without performing any conversion
    pub fn with_color<D: Color>(self) -> (img: Image<T, D>)
        requires
            C::spec_channels() == D::spec_channels(),
        ensures
            img.meta.size == self.meta.size,
            img.data@ == self.data@,
    {
        Image { meta: Meta::new(self.meta.size), data: self.data }
    }

    /// Returns true when (x, y) is in bounds for the given image
    pub fn in_bounds(&self, pt: Point) -> (b: bool)
        ensures
            b == self.meta.contains(pt),
    {
        pt.x < self.meta.size.width && pt.y < self.meta.size.height
    }

    /// The buffer holds every value of pixel `pt`; a point past the end of a row addresses the
    /// first pixels of the next row, as in the interleaved layout
    pub open spec fn holds_pixel(&self, pt: Point) -> bool {
        self.offset(pt) + C::spec_channels() <= self.data@.len()
    }

    /// Every pixel inside a well-formed image is held by its buffer
    pub proof fn lemma_contains_holds_pixel(&self, pt: Point)
        requires
            self.wf(),
            self.meta.contains(pt),
        ensures
            self.holds_pixel(pt),
    {
        law_index_in_buffer(self.meta, pt);
    }

    /// Offset of the first value of a pixel held by the buffer
    fn pixel_offset(&self, pt: Point) -> (i: usize)
        requires
            self.holds_pixel(pt),
        ensures
            i == self.offset(pt),
            i + C::spec_channels() <= self.data@.len(),
            self.data@.len() <= usize::MAX,
    {
        let len = self.data.len();
        proof {
            let w = self.meta.size.width as int;
            let c = C::spec_channels() as int;
            assert(0 <= w * c * pt.y + pt.x * c) by (nonlinear_arith)
                requires
                    0 <= w,
                    0 <= c,
                    0 <= pt.y,
                    0 <= pt.x,
            ;
        }
        self.meta.index(pt)
    }

    /// Get data at specified index
    pub fn get(&self, pt: Point) -> (d: Data<'_, T, C>)
        requires
            self.holds_pixel(pt),
        ensures
            d@ == self.pixel(pt),
    {
        let index = self.pixel_offset(pt);
        let c = C::channels();
        Data::new(&self.data.as_slice()[index..index + c])
    }

    /// Get mutable data at specified index
    pub fn get_mut(&mut self, pt: Point) -> (d: DataMut<'_, T, C>)
        requires
            old(self).holds_pixel(pt),
        ensures
            d@ == old(self).pixel(pt),
            final(self).meta == old(self).meta,
            final(self).data@ == old(self).with_pixel(pt, final(d.0)@),
    {
        let index = self.pixel_offset(pt);
        let c = C::channels();
        let all = self.data.as_mut_slice();
        let (_before, rest) = all.split_at_mut(index);
        let (px, _after) = rest.split_at_mut(c);
        DataMut::new(px)
    }

    /// Set data to specified location
    pub fn set(&mut self, pt: Point, data: &[T])
        requires
            old(self).holds_pixel(pt),
            data@.len() == C::spec_channels(),
        ensures
            final(self).meta == old(self).meta,
            final(self).data@ == old(self).with_pixel(pt, data@),
            final(self).pixel(pt) == data@,
            final(self).data@.len() == old(self).data@.len(),
    {
        let index = self.pixel_offset(pt);
        let c = C::channels();
        let ghost before = self.data@;
        let mut i: usize = 0;
        while i < c
            invariant
                self.meta == old(self).meta,
                index == self.offset(pt),
                c == C::spec_channels(),
                c == data@.len(),
                index + c <= before.len(),
                before.len() <= usize::MAX,
                before == old(self).data@,
                i <= c,
                self.data@.len() == before.len(),
                forall|k: int|
                    0 <= k < before.len() ==> #[trigger] self.data@[k] == if index <= k < index
                        + i {
                        data@[k - index]
                    } else {
                        before[k]
                    },
            decreases c - i,
        {
            self.data[index + i] = data[i];
            i = i + 1;
        }
        assert(self.data@ =~= old(self).with_pixel(pt, data@));
        assert(self.pixel(pt) =~= data@);
    }

    /// Get image data from an image, reusing an existing data buffer big enough for a single pixel:
    /// when `pt` is inside the image and `px` holds at least one pixel's values, the first
    /// values of `px` are set to the pixel's, the rest are left alone and `true` is returned;
    /// otherwise `px` is unchanged and `false` is returned
    pub fn at(&self, pt: Point, px: &mut [T]) -> (b: bool)
        requires
            self.wf(),
        ensures
            b == (self.meta.contains(pt) && old(px)@.len() >= C::spec_channels()),
            b ==> final(px)@ == self.pixel(pt) + old(px)@.subrange(
                C::spec_channels() as int,
                old(px)@.len() as int,
            ),
            !b ==> final(px)@ == old(px)@,
    {
        if !self.in_bounds(pt) || px.len() < C::channels() {
            return false;
        }
        proof {
            law_index_in_buffer(self.meta, pt);
        }
        let src = self.get(pt);
        let src = src.as_slice();
        let c = C::channels();
        let ghost orig = px@;
        let mut i: usize = 0;
        while i < c
            invariant
                c == C::spec_channels(),
                src@ == self.pixel(pt),
                src@.len() == c,
                px@.len() == orig.len(),
                c <= orig.len(),
                i <= c,
                forall|k: int| 0 <= k < i ==> px@[k] == src@[k],
                forall|k: int| i <= k < orig.len() ==> px@[k] == orig[k],
            decreases c - i,
        {
            px[i] = src[i];
            i = i + 1;
        }
        assert(px@ =~= src@ + orig.subrange(c as int, orig.len() as int));
        true
    }

    /// Get row
    pub fn row(&self, y: usize) -> (d: Data<'_, T, C>)
        requires
            self.wf(),
            y < self.meta.size.height,
        ensures
            d@ == self.row_values(y),
    {
        let (index, len) = self.row_bounds(y);
        Data::new(&self.data.as_slice()[index..index + len])
    }

    /// Start and length of the values of row `y`
    fn row_bounds(&self, y: usize) -> (r: (usize, usize))
        requires
            self.wf(),
            y < self.meta.size.height,
        ensures
            r.0 == self.offset(Point { x: 0, y }),
            r.1 == self.meta.spec_width_step(),
            r.0 + r.1 <= self.data@.len(),
            self.data@.len() <= usize::MAX,
    {
        let dl = self.data.len();
        let w = self.meta.size.width;
        let h = self.meta.size.height;
        let c = C::channels();
        proof {
            assert(w * c * y + w * c <= w * h * c) by (nonlinear_arith)
                requires
                    y < h,
                    0 <= w,
                    0 <= c,
            ;
            assert(w * c <= w * c * y + w * c) by (nonlinear_arith)
                requires
                    0 <= w,
                    0 <= c,
                    0 <= y,
            ;
            assert(w * c * y <= w * c * y + w * c) by (nonlinear_arith)
                requires
                    0 <= w,
                    0 <= c,
            ;
            assert(0 * c == 0);
        }
        let index = self.meta.index(Point::new(0, y));
        let len = self.meta.width_step();
        (index, len)
    }

    /// Get mutable row
    pub fn row_mut(&mut self, y: usize) -> (d: DataMut<'_, T, C>)
        requires
            old(self).wf(),
            y < old(self).meta.size.height,
        ensures
            d@ == old(self).row_values(y),
            final(self).meta == old(self).meta,
            final(self).data@ == old(self).data@.subrange(0, old(self).offset(Point { x: 0, y }))
                + final(d.0)@ + old(self).data@.subrange(
                old(self).offset(Point { x: 0, y }) + old(self).meta.spec_width_step(),
                old(self).data@.len() as int,
            ),
    {
        let (index, len) = self.row_bounds(y);
        let all = self.data.as_mut_slice();
        let (_before, rest) = all.split_at_mut(index);
        let (row, _after) = rest.split_at_mut(len);
        DataMut::new(row)
    }

    /// Values from offset `start` on, `C::channels()` of them
    pub open spec fn values_at(&self, start: int) -> Seq<T> {
        self.data@.subrange(start, start + C::spec_channels())
    }

    /// Values past the last pixel
    pub open spec fn tail(&self) -> Seq<T> {
        self.data@.subrange(self.meta.spec_num_values(), self.data@.len() as int)
    }

    /// Replacing one pixel leaves every other pixel, and the values past the last pixel, as
    /// they were
    pub proof fn lemma_with_pixel_keeps(&self, q: Point, px: Seq<T>, p: Point)
        requires
            self.wf(),
            self.meta.contains(q),
            self.meta.contains(p),
            px.len() == C::spec_channels(),
        ensures
            self.with_pixel(q, px).len() == self.data@.len(),
            p != q ==> self.with_pixel(q, px).subrange(self.offset(p), self.offset(p)
                + C::spec_channels()) == self.pixel(p),
            self.with_pixel(q, px).subrange(
                self.meta.spec_num_values(),
                self.data@.len() as int,
            ) == self.tail(),
    {
        C::lemma_channels_positive();
        law_index_in_buffer(self.meta, q);
        law_index_in_buffer(self.meta, p);
        let new = self.with_pixel(q, px);
        assert(new.len() == self.data@.len());
        if p != q {
            lemma_pixels_disjoint(
                self.meta.size.width as int,
                C::spec_channels() as int,
                p,
                q,
            );
            assert(new.subrange(self.offset(p), self.offset(p) + C::spec_channels())
                =~= self.pixel(p));
        }
        assert(new.subrange(self.meta.spec_num_values(), self.data@.len() as int)
            =~= self.tail());
    }

    /// Copy into a region from another image starting at the given offset: every pixel `p`
    /// of the region that lies inside this image takes the values of pixel
    /// `p - roi.point + offs` of `other`
    pub fn copy_from_region(&mut self, offs: Point, other: &Image<T, C>, roi: Region)
        requires
            old(self).wf(),
            region_copy_ok(old(self).meta.size, offs, other, roi),
        ensures
            final(self).meta == old(self).meta,
            final(self).data@.len() == old(self).data@.len(),
            final(self).tail() == old(self).tail(),
            forall|p: Point|
                #![trigger final(self).pixel(p)]
                old(self).meta.contains(p) ==> final(self).pixel(p) == if roi.contains(p) {
                    other.values_at(other.offset(region_source(roi, offs, p)))
                } else {
                    old(self).pixel(p)
                },
    {
        let w = self.meta.size.width;
        let h = self.meta.size.height;
        let c = C::channels();
        let olen = other.data.len();
        if roi.point.x >= w || roi.point.y >= h {
            return;
        }
        let x_end = if roi.size.width <= w - roi.point.x {
            roi.point.x + roi.size.width
        } else {
            w
        };
        let y_end = if roi.size.height <= h - roi.point.y {
            roi.point.y + roi.size.height
        } else {
            h
        };
        let mut y = roi.point.y;
        while y < y_end
            invariant
                self.wf(),
                self.meta == old(self).meta,
                self.data@.len() == old(self).data@.len(),
                self.tail() == old(self).tail(),
                w == self.meta.size.width,
                h == self.meta.size.height,
                c == C::spec_channels(),
                olen == other.data@.len(),
                roi.point.x < w,
                roi.point.y <= y <= y_end <= h,
                x_end <= w,
                x_end == roi.point.x + roi.size.width || (x_end == w && w < roi.point.x + roi.size.width),
                y_end == roi.point.y + roi.size.height || (y_end == h && h < roi.point.y + roi.size.height),
                region_copy_ok(self.meta.size, offs, other, roi),
                forall|p: Point|
                    #![trigger self.pixel(p)]
                    old(self).meta.contains(p) ==> self.pixel(p) == if roi.contains(p) && p.y
                        < y {
                        other.values_at(other.offset(region_source(roi, offs, p)))
                    } else {
                        old(self).pixel(p)
                    },
            decreases y_end - y,
        {
            let mut x = roi.point.x;
            while x < x_end
                invariant
                    self.wf(),
                    self.meta == old(self).meta,
                    self.data@.len() == old(self).data@.len(),
                    self.tail() == old(self).tail(),
                    w == self.meta.size.width,
                    h == self.meta.size.height,
                    c == C::spec_channels(),
                    olen == other.data@.len(),
                    roi.point.x <= x <= x_end <= w,
                    roi.point.y <= y < y_end <= h,
                    x_end == roi.point.x + roi.size.width || (x_end == w && w < roi.point.x + roi.size.width),
                    y_end == roi.point.y + roi.size.height || (y_end == h && h < roi.point.y + roi.size.height),
                    region_copy_ok(self.meta.size, offs, other, roi),
                    forall|p: Point|
                        #![trigger self.pixel(p)]
                        old(self).meta.contains(p) ==> self.pixel(p) == if roi.contains(p) && (
                        p.y < y || (p.y == y && p.x < x)) {
                            other.values_at(other.offset(region_source(roi, offs, p)))
                        } else {
                            old(self).pixel(p)
                        },
                decreases x_end - x,
            {
                let pt = Point::new(x, y);
                assert(roi.contains(pt));
                assert(old(self).meta.contains(pt));
                let ghost _s = region_source(roi, offs, pt);
                let sx = x - roi.point.x + offs.x;
                let sy = y - roi.point.y + offs.y;
                let src_pt = Point::new(sx, sy);
                assert(src_pt == region_source(roi, offs, pt));
                let idx = other.meta.index(src_pt);
                let src = &other.data.as_slice()[idx..idx + c];
                let ghost before = *self;
                proof {
                    self.lemma_contains_holds_pixel(pt);
                }
                self.set(pt, src);
                proof {
                    assert forall|p: Point|
                        #![trigger self.pixel(p)]
                        old(self).meta.contains(p) implies self.pixel(p) == if roi.contains(p)
                            && (p.y < y || (p.y == y && p.x < x + 1)) {
                            other.values_at(other.offset(region_source(roi, offs, p)))
                        } else {
                            old(self).pixel(p)
                        } by {
                        before.lemma_with_pixel_keeps(pt, src@, p);
                        assert(before.pixel(p) == if roi.contains(p) && (p.y < y || (p.y == y
                            && p.x < x)) {
                            other.values_at(other.offset(region_source(roi, offs, p)))
                        } else {
                            old(self).pixel(p)
                        });
                    }
                    before.lemma_with_pixel_keeps(pt, src@, pt);
                    assert(self.meta == before.meta);
                }
                x = x + 1;
            }
            proof {
                assert forall|p: Point|
                    #![trigger self.pixel(p)]
                    old(self).meta.contains(p) implies self.pixel(p) == if roi.contains(p) && p.y
                        < y + 1 {
                        other.values_at(other.offset(region_source(roi, offs, p)))
                    } else {
                        old(self).pixel(p)
                    } by {
                    if roi.contains(p) && p.y == y {
                        assert(p.x < x_end);
                    }
                }
            }
            y = y + 1;
        }
        proof {
            assert forall|p: Point|
                #![trigger self.pixel(p)]
                old(self).meta.contains(p) implies self.pixel(p) == if roi.contains(p) {
                    other.values_at(other.offset(region_source(roi, offs, p)))
                } else {
                    old(self).pixel(p)
                } by {
                if roi.contains(p) {
                    assert(p.y < y_end);
                }
            }
        }
    }

    /// Image data
    pub fn data(&self) -> (s: &[T])
        ensures
            s@ == self.data@,
    {
        self.data.as_slice()
    }

    /// Mutable image data
    pub fn data_mut(&mut self) -> (s: &mut [T])
        ensures
            s@ == old(self).data@,
            final(self).data@ == final(s)@,
            final(self).meta == old(self).meta,
    {
        self.data.as_mut_slice()
    }
}

} // verus!
