//! Rectangles of terminal cells.

use vstd::prelude::*;

verus! {

/// A rectangle of character cells: top-left corner, width and height.
///
/// The fields mirror those of the terminal library's rectangle, so a value
/// converts field by field.
#[derive(Clone, Copy, Debug, PartialEq, Eq, Structural)]
pub struct Rect {
    pub x: u16,
    pub y: u16,
    pub width: u16,
    pub height: u16,
}

/// A rectangle over the mathematical integers, the model of a [`Rect`].
pub struct RectView {
    pub x: int,
    pub y: int,
    pub width: int,
    pub height: int,
}

impl RectView {
    /// The first column to the right of the rectangle.
    pub open spec fn right(self) -> int {
        self.x + self.width
    }

    /// The first row below the rectangle.
    pub open spec fn bottom(self) -> int {
        self.y + self.height
    }

    /// Neither extent is negative.
    pub open spec fn valid(self) -> bool {
        self.width >= 0 && self.height >= 0
    }

    /// `inner` lies entirely inside `self`.
    pub open spec fn encloses(self, inner: RectView) -> bool {
        &&& self.x <= inner.x
        &&& inner.right() <= self.right()
        &&& self.y <= inner.y
        &&& inner.bottom() <= self.bottom()
    }
}

impl View for Rect {
    type V = RectView;

    open spec fn view(&self) -> RectView {
        RectView {
            x: self.x as int,
            y: self.y as int,
            width: self.width as int,
            height: self.height as int,
        }
    }
}

impl Rect {
    /// The right and bottom edges are representable cell coordinates.
    pub open spec fn wf(self) -> bool {
        self@.right() <= u16::MAX && self@.bottom() <= u16::MAX
    }

    /// Builds a rectangle at `(x, y)`, shrinking `width` and `height` as far
    /// as needed to keep the right and bottom edges within `u16`.
    pub fn new(x: u16, y: u16, width: u16, height: u16) -> (rect: Rect)
        ensures
            rect.wf(),
            rect.x == x,
            rect.y == y,
            rect.width == if x + width <= u16::MAX { width as int } else { u16::MAX - x },
            rect.height == if y + height <= u16::MAX { height as int } else { u16::MAX - y },
    {
        let room_x: u16 = u16::MAX - x;
        let room_y: u16 = u16::MAX - y;
        Rect {
            x,
            y,
            width: if width > room_x { room_x } else { width },
            height: if height > room_y { room_y } else { height },
        }
    }

    /// The first column to the right of the rectangle, or the last column
    /// there is if that one is not representable.
    pub fn right(&self) -> (edge: u16)
        ensures
            edge == if self@.right() <= u16::MAX { self@.right() } else { u16::MAX as int },
    {
        if self.width > u16::MAX - self.x {
            u16::MAX
        } else {
            self.x + self.width
        }
    }

    /// The first row below the rectangle, or the last row there is if that
    /// one is not representable.
    pub fn bottom(&self) -> (edge: u16)
        ensures
            edge == if self@.bottom() <= u16::MAX { self@.bottom() } else { u16::MAX as int },
    {
        if self.height > u16::MAX - self.y {
            u16::MAX
        } else {
            self.y + self.height
        }
    }
}

} // verus!
