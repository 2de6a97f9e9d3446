use vstd::prelude::*;

verus! {

/// Logical width of the arena the entities move in.
pub const SCREEN_WIDTH: i32 = 600;

/// Logical height of the arena the entities move in.
pub const SCREEN_HEIGHT: i32 = 600;

/// Bound on every coordinate a well-formed rectangle may hold; keeps all of
/// the per-frame arithmetic far away from `i32` overflow.
pub const COORD_BOUND: i32 = 1000000;

/// Bound on a well-formed rectangle's width and height.
pub const SIZE_BOUND: i32 = 1000;

/// Mathematical model of a rectangle: position of the top-left corner and
/// extent, as unbounded integers.
#[verifier::ext_equal]
pub ghost struct RectM {
    pub x: int,
    pub y: int,
    pub w: int,
    pub h: int,
}

/// An axis-aligned rectangle with integer coordinates. `x`/`y` is the
/// top-left corner; `y` grows downwards, as screen coordinates do.
#[derive(Clone, Copy, Debug, PartialEq, Eq, Structural)]
pub struct Rect {
    pub x: i32,
    pub y: i32,
    pub w: i32,
    pub h: i32,
}

impl View for Rect {
    type V = RectM;

    open spec fn view(&self) -> RectM {
        RectM { x: self.x as int, y: self.y as int, w: self.w as int, h: self.h as int }
    }
}

/// A rectangle whose coordinates and extent are small enough that sums such
/// as `x + w` or a one-step translation stay well inside `i32`.
pub open spec fn rect_wf(r: RectM) -> bool {
    &&& -COORD_BOUND <= r.x <= COORD_BOUND
    &&& -COORD_BOUND <= r.y <= COORD_BOUND
    &&& 0 <= r.w <= SIZE_BOUND
    &&& 0 <= r.h <= SIZE_BOUND
}

/// Two rectangles overlap when they meet on both axes; rectangles that only
/// touch along an edge count as overlapping.
pub open spec fn rects_overlap(a: RectM, b: RectM) -> bool {
    &&& a.x <= b.x + b.w
    &&& a.x + a.w >= b.x
    &&& a.y <= b.y + b.h
    &&& a.y + a.h >= b.y
}

impl Rect {
    pub fn new(x: i32, y: i32, w: i32, h: i32) -> (r: Rect)
        ensures
            r@ == (RectM { x: x as int, y: y as int, w: w as int, h: h as int }),
    {
        Rect { x, y, w, h }
    }

    /// The left edge of the rectangle.
    pub fn left(&self) -> (r: i32)
        ensures
            r as int == self@.x,
    {
        self.x
    }

    /// The right edge of the rectangle.
    pub fn right(&self) -> (r: i32)
        requires
            rect_wf(self@),
        ensures
            r as int == self@.x + self@.w,
    {
        self.x + self.w
    }

    /// The top edge of the rectangle.
    pub fn top(&self) -> (r: i32)
        ensures
            r as int == self@.y,
    {
        self.y
    }

    /// The bottom edge of the rectangle.
    pub fn bottom(&self) -> (r: i32)
        requires
            rect_wf(self@),
        ensures
            r as int == self@.y + self@.h,
    {
        self.y + self.h
    }

    /// Whether this rectangle overlaps another; edge contact counts.
    pub fn overlaps(&self, other: &Rect) -> (r: bool)
        requires
            rect_wf(self@),
            rect_wf(other@),
        ensures
            r == rects_overlap(self@, other@),
    {
        self.x <= other.x + other.w && self.x + self.w >= other.x && self.y <= other.y + other.h
            && self.y + self.h >= other.y
    }
}

/// Overlap does not depend on the order of the two rectangles.
pub proof fn lemma_overlap_symmetric(a: RectM, b: RectM)
    ensures
        rects_overlap(a, b) == rects_overlap(b, a),
{
}

} // verus!
