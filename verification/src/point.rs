use vstd::prelude::*;

verus! {

/// A position on the fixed canvas.  Each axis is a 16-bit fraction of a
/// 65536-unit span, independent of any output resolution.
#[derive(Copy, Clone, PartialEq, Eq, Structural, Debug)]
pub struct Point {
    pub x: u16,
    pub y: u16,
}

impl Point {
    pub fn new(x: u16, y: u16) -> (r: Point)
        ensures
            r.x == x,
            r.y == y,
    {
        Point { x, y }
    }

    /// Scales up both coordinates by the per-axis factors.
    pub fn scale_up(&self, scale: (u16, u16)) -> (r: Point)
        requires
            self.x * scale.0 <= u16::MAX,
            self.y * scale.1 <= u16::MAX,
        ensures
            r.x == self.x * scale.0,
            r.y == self.y * scale.1,
    {
        Point { x: self.x * scale.0, y: self.y * scale.1 }
    }

    /// Scales down both coordinates; a scale of 2 halves the values.
    pub fn scale_down(&self, scale: (u16, u16)) -> (r: Point)
        requires
            scale.0 > 0,
            scale.1 > 0,
        ensures
            r.x == self.x as int / scale.0 as int,
            r.y == self.y as int / scale.1 as int,
    {
        Point { x: self.x / scale.0, y: self.y / scale.1 }
    }
}

} // verus!
