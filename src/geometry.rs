//! Integer geometry: sizes, positions, rectangles, margins and alignment.
//!
//! An axis is named by a `usize`: 0 for x, 1 for y.
use vstd::prelude::*;

verus! {

/// The largest magnitude of a coordinate or a length that the layout takes.
pub const COORD_LIMIT: i64 = 0x4000_0000;

/// Whether a coordinate lies within the range that the layout takes.
pub open spec fn in_range(v: int) -> bool {
    -COORD_LIMIT <= v <= COORD_LIMIT
}

/// Whether a value lies within the range in which alignment is computed.
pub open spec fn in_span(v: int) -> bool {
    -0x1000_0000_0000_0000 <= v <= 0x1000_0000_0000_0000
}

/// A two-dimensional size or offset.
#[derive(Clone, Copy, Debug, PartialEq, Eq, Structural)]
pub struct Vec2 {
    pub x: i64,
    pub y: i64,
}

/// A position on the screen.
#[derive(Clone, Copy, Debug, PartialEq, Eq, Structural)]
pub struct Pos2 {
    pub x: i64,
    pub y: i64,
}

/// An axis-aligned rectangle.
#[derive(Clone, Copy, Debug, PartialEq, Eq, Structural)]
pub struct Rect {
    pub min: Pos2,
    pub max: Pos2,
}

/// Space kept free around a piece of content.
#[derive(Clone, Copy, Debug, PartialEq, Eq, Structural)]
pub struct Margin {
    pub left: i64,
    pub right: i64,
    pub top: i64,
    pub bottom: i64,
}

/// Alignment along one axis.
#[derive(Clone, Copy, Debug, PartialEq, Eq, Structural)]
pub enum Align {
    Min,
    Center,
    Max,
}

/// Alignment along both axes.
#[derive(Clone, Copy, Debug, PartialEq, Eq, Structural)]
pub struct Align2 {
    pub x: Align,
    pub y: Align,
}

impl Vec2 {
    pub open spec fn at(self, axis: int) -> i64 {
        if axis == 0 {
            self.x
        } else {
            self.y
        }
    }

    pub open spec fn with(self, axis: int, v: i64) -> Vec2 {
        if axis == 0 {
            Vec2 { x: v, y: self.y }
        } else {
            Vec2 { x: self.x, y: v }
        }
    }

    pub open spec fn bounded(self) -> bool {
        in_range(self.x as int) && in_range(self.y as int)
    }

    pub fn zero() -> (r: Vec2)
        ensures
            r.x == 0 && r.y == 0,
    {
        Vec2 { x: 0, y: 0 }
    }

    /// The component along `axis`.
    pub fn get(&self, axis: usize) -> (r: i64)
        requires
            axis < 2,
        ensures
            r == self.at(axis as int),
    {
        if axis == 0 {
            self.x
        } else {
            self.y
        }
    }

    /// This vector with its component along `axis` replaced by `v`.
    pub fn set(&mut self, axis: usize, v: i64)
        requires
            axis < 2,
        ensures
            *final(self) == old(self).with(axis as int, v),
    {
        if axis == 0 {
            self.x = v;
        } else {
            self.y = v;
        }
    }
}

impl Pos2 {
    pub open spec fn at(self, axis: int) -> i64 {
        if axis == 0 {
            self.x
        } else {
            self.y
        }
    }

    pub open spec fn bounded(self) -> bool {
        in_range(self.x as int) && in_range(self.y as int)
    }

    /// The coordinate along `axis`.
    pub fn get_along(&self, axis: usize) -> (r: i64)
        requires
            axis < 2,
        ensures
            r == self.at(axis as int),
    {
        if axis == 0 {
            self.x
        } else {
            self.y
        }
    }
}

impl Rect {
    pub open spec fn bounded(self) -> bool {
        self.min.bounded() && self.max.bounded()
    }
}

impl Margin {
    pub open spec fn bounded(self) -> bool {
        in_range(self.left as int) && in_range(self.right as int) && in_range(self.top as int)
            && in_range(self.bottom as int)
    }

    /// Total margin along each axis: left and right, top and bottom.
    pub open spec fn total(self) -> Vec2 {
        Vec2 { x: (self.left + self.right) as i64, y: (self.top + self.bottom) as i64 }
    }

    pub fn zero() -> (r: Margin)
        ensures
            r.left == 0 && r.right == 0 && r.top == 0 && r.bottom == 0,
    {
        Margin { left: 0, right: 0, top: 0, bottom: 0 }
    }

    /// Total margin along each axis.
    pub fn sum(&self) -> (r: Vec2)
        requires
            self.bounded(),
        ensures
            r == self.total(),
            r.x == self.left + self.right,
            r.y == self.top + self.bottom,
    {
        Vec2 { x: self.left + self.right, y: self.top + self.bottom }
    }
}

/// Where a span of length `size` starts when it is aligned inside `[min, max]`.
pub open spec fn aligned_start(align: Align, size: int, min: int, max: int) -> int {
    match align {
        Align::Min => min,
        Align::Center => (min + max - size) / 2,
        Align::Max => max - size,
    }
}

impl Align {
    /// Place a span of length `size` inside the range `[min, max]`; returns the
    /// start of the span.
    pub fn align_size_within_range(self, size: i64, min: i64, max: i64) -> (r: i64)
        requires
            in_span(size as int),
            in_span(min as int),
            in_span(max as int),
        ensures
            r == aligned_start(self, size as int, min as int, max as int),
    {
        match self {
            Align::Min => min,
            Align::Center => {
                let twice: i64 = min + max - size;
                if twice >= 0 {
                    twice / 2
                } else {
                    -((1 - twice) / 2)
                }
            },
            Align::Max => max - size,
        }
    }
}

impl Align2 {
    pub open spec fn on(self, axis: int) -> Align {
        if axis == 0 {
            self.x
        } else {
            self.y
        }
    }

    pub fn center_center() -> (r: Align2)
        ensures
            r.x == Align::Center && r.y == Align::Center,
    {
        Align2 { x: Align::Center, y: Align::Center }
    }

    /// A rectangle of the given size, aligned within `frame` on both axes.
    pub fn align_size_within_rect(self, size: Vec2, frame: Rect) -> (r: Rect)
        requires
            size.bounded(),
            frame.bounded(),
        ensures
            r.min.x == aligned_start(self.x, size.x as int, frame.min.x as int, frame.max.x as int),
            r.min.y == aligned_start(self.y, size.y as int, frame.min.y as int, frame.max.y as int),
            r.max.x == r.min.x + size.x,
            r.max.y == r.min.y + size.y,
    {
        let x = self.x.align_size_within_range(size.x, frame.min.x, frame.max.x);
        let y = self.y.align_size_within_range(size.y, frame.min.y, frame.max.y);
        Rect { min: Pos2 { x, y }, max: Pos2 { x: x + size.x, y: y + size.y } }
    }
}

} // verus!
