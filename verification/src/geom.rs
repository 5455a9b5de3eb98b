use vstd::prelude::*;

verus! {

/// (x, y) point
#[derive(Debug, Clone, Copy, PartialEq, Eq, PartialOrd, Ord, Default, Structural)]
pub struct Point {
    /// X coordinate
    pub x: usize,
    /// Y coordinate
    pub y: usize,
}

impl Point {
    /// Create a new point
    pub fn new(x: usize, y: usize) -> (p: Point)
        ensures
            p.x == x,
            p.y == y,
    {
        Point { x, y }
    }

    /// Apply `f` to an existing point to generate a new point
    pub fn map<F: Fn(usize, usize) -> (usize, usize)>(self, f: F) -> (p: Point)
        requires
            f.requires((self.x, self.y)),
        ensures
            f.ensures((self.x, self.y), (p.x, p.y)),
    {
        let (x, y) = f(self.x, self.y);
        Point { x, y }
    }
}

impl From<(usize, usize)> for Point {
    fn from(xy: (usize, usize)) -> (p: Point) {
        Point { x: xy.0, y: xy.1 }
    }
}

impl vstd::std_specs::convert::FromSpecImpl<(usize, usize)> for Point {
    open spec fn obeys_from_spec() -> bool {
        true
    }

    open spec fn from_spec(xy: (usize, usize)) -> Point {
        Point { x: xy.0, y: xy.1 }
    }
}

/// Image dimensions
#[derive(Debug, Clone, Copy, PartialEq, Eq, PartialOrd, Ord, Default, Structural)]
pub struct Size {
    /// Width value
    pub width: usize,
    /// Height value
    pub height: usize,
}

impl Size {
    /// Create a new size
    pub fn new(width: usize, height: usize) -> (s: Size)
        ensures
            s.width == width,
            s.height == height,
    {
        Size { width, height }
    }

    /// Apply `f` to an existing size to generate a new size
    pub fn map<F: Fn(usize, usize) -> (usize, usize)>(self, f: F) -> (s: Size)
        requires
            f.requires((self.width, self.height)),
        ensures
            f.ensures((self.width, self.height), (s.width, s.height)),
    {
        let (width, height) = f(self.width, self.height);
        Size { width, height }
    }

    /// Returns true when `pt` lies inside a `width` x `height` area anchored at the origin
    pub open spec fn contains(self, pt: Point) -> bool {
        pt.x < self.width && pt.y < self.height
    }

    /// Returns true when (x, y) is in bounds for the given image
    pub fn in_bounds(&self, pt: Point) -> (b: bool)
        ensures
            b == self.contains(pt),
    {
        pt.x < self.width && pt.y < self.height
    }
}

impl From<(usize, usize)> for Size {
    fn from(wh: (usize, usize)) -> (s: Size) {
        Size { width: wh.0, height: wh.1 }
    }
}

impl vstd::std_specs::convert::FromSpecImpl<(usize, usize)> for Size {
    open spec fn obeys_from_spec() -> bool {
        true
    }

    open spec fn from_spec(wh: (usize, usize)) -> Size {
        Size { width: wh.0, height: wh.1 }
    }
}

impl core::ops::Mul<usize> for Size {
    type Output = Size;

    fn mul(self, other: usize) -> (s: Size) {
        Size { width: self.width * other, height: self.height * other }
    }
}

impl vstd::std_specs::ops::MulSpecImpl<usize> for Size {
    open spec fn obeys_mul_spec() -> bool {
        true
    }

    open spec fn mul_req(self, other: usize) -> bool {
        self.width * other <= usize::MAX && self.height * other <= usize::MAX
    }

    open spec fn mul_spec(self, other: usize) -> Size {
        Size { width: (self.width * other) as usize, height: (self.height * other) as usize }
    }
}

impl core::ops::Div<usize> for Size {
    type Output = Size;

    fn div(self, other: usize) -> (s: Size) {
        Size { width: self.width / other, height: self.height / other }
    }
}

impl vstd::std_specs::ops::DivSpecImpl<usize> for Size {
    open spec fn obeys_div_spec() -> bool {
        true
    }

    open spec fn div_req(self, other: usize) -> bool {
        other != 0
    }

    open spec fn div_spec(self, other: usize) -> Size {
        Size { width: self.width / other, height: self.height / other }
    }
}

/// Region of interest
#[derive(Debug, Clone, Copy, PartialEq, Eq, PartialOrd, Ord, Default, Structural)]
pub struct Region {
    /// Position
    pub point: Point,
    /// Dimensions
    pub size: Size,
}

impl From<(Point, Size)> for Region {
    fn from(ps: (Point, Size)) -> (r: Region) {
        Region { point: ps.0, size: ps.1 }
    }
}

impl vstd::std_specs::convert::FromSpecImpl<(Point, Size)> for Region {
    open spec fn obeys_from_spec() -> bool {
        true
    }

    open spec fn from_spec(ps: (Point, Size)) -> Region {
        Region { point: ps.0, size: ps.1 }
    }
}

impl Region {
    /// Create a new ROI
    pub fn new(pt: Point, size: Size) -> (r: Region)
        ensures
            r.point == pt,
            r.size == size,
    {
        Region { point: pt, size }
    }

    /// Returns true when `pt` lies inside the region, bounds taken over the integers
    pub open spec fn contains(self, pt: Point) -> bool {
        &&& self.point.x <= pt.x
        &&& pt.x < self.point.x + self.size.width
        &&& self.point.y <= pt.y
        &&& pt.y < self.point.y + self.size.height
    }

    /// Returns true when the given point is contained in a region
    pub fn in_bounds(&self, pt: Point) -> (b: bool)
        ensures
            b == self.contains(pt),
    {
        pt.x >= self.point.x && pt.x - self.point.x < self.size.width && pt.y >= self.point.y
            && pt.y - self.point.y < self.size.height
    }

    /// Get the point value
    pub fn point(&self) -> (p: Point)
        ensures
            p == self.point,
    {
        self.point
    }

    /// Get the size value
    pub fn size(&self) -> (s: Size)
        ensures
            s == self.size,
    {
        self.size
    }

    /// Get top left and bottom right points
    pub fn points(&self) -> (r: (Point, Point))
        requires
            self.point.x + self.size.width <= usize::MAX,
            self.point.y + self.size.height <= usize::MAX,
        ensures
            r.0 == self.point,
            r.1.x == self.point.x + self.size.width,
            r.1.y == self.point.y + self.size.height,
    {
        (
            self.point,
            Point::new(self.point.x + self.size.width, self.point.y + self.size.height),
        )
    }
}

impl From<Region> for Point {
    fn from(region: Region) -> (p: Point) {
        region.point
    }
}

impl vstd::std_specs::convert::FromSpecImpl<Region> for Point {
    open spec fn obeys_from_spec() -> bool {
        true
    }

    open spec fn from_spec(region: Region) -> Point {
        region.point
    }
}

impl From<Region> for Size {
    fn from(region: Region) -> (s: Size) {
        region.size
    }
}

impl vstd::std_specs::convert::FromSpecImpl<Region> for Size {
    open spec fn obeys_from_spec() -> bool {
        true
    }

    open spec fn from_spec(region: Region) -> Size {
        region.size
    }
}

} // verus!
