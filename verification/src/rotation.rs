//! Software rotation: the pure coordinate mapping between the logical
//! (rotated) frame and the physical panel frame.

use vstd::prelude::*;

verus! {

/// Software rotation angles for the logical drawing frame.
#[derive(Debug, Clone, Copy, PartialEq, Eq, Structural)]
pub enum Rotation {
    Deg0,
    Deg90,
    Deg180,
    Deg270,
}

impl Rotation {
    /// Successor in the 0 -> 90 -> 180 -> 270 -> 0 cycle.
    pub open spec fn next_spec(self) -> Rotation {
        match self {
            Rotation::Deg0 => Rotation::Deg90,
            Rotation::Deg90 => Rotation::Deg180,
            Rotation::Deg180 => Rotation::Deg270,
            Rotation::Deg270 => Rotation::Deg0,
        }
    }

    /// Get the next rotation in the cycle.
    pub fn next(self) -> (r: Rotation)
        ensures
            r == self.next_spec(),
    {
        match self {
            Rotation::Deg0 => Rotation::Deg90,
            Rotation::Deg90 => Rotation::Deg180,
            Rotation::Deg180 => Rotation::Deg270,
            Rotation::Deg270 => Rotation::Deg0,
        }
    }

    /// The angle, in degrees, that a rotation stands for.
    pub open spec fn degrees_spec(self) -> u16 {
        match self {
            Rotation::Deg0 => 0,
            Rotation::Deg90 => 90,
            Rotation::Deg180 => 180,
            Rotation::Deg270 => 270,
        }
    }

    /// Get rotation angle in degrees.
    pub fn degrees(self) -> (r: u16)
        ensures
            r == self.degrees_spec(),
    {
        match self {
            Rotation::Deg0 => 0,
            Rotation::Deg90 => 90,
            Rotation::Deg180 => 180,
            Rotation::Deg270 => 270,
        }
    }

    /// The rotation that undoes this one.
    pub open spec fn inverse_spec(self) -> Rotation {
        match self {
            Rotation::Deg0 => Rotation::Deg0,
            Rotation::Deg90 => Rotation::Deg270,
            Rotation::Deg180 => Rotation::Deg180,
            Rotation::Deg270 => Rotation::Deg90,
        }
    }

    /// Whether the rotation swaps the two axes of the frame.
    pub open spec fn swaps_axes(self) -> bool {
        self == Rotation::Deg90 || self == Rotation::Deg270
    }
}

/// Logical frame width under a rotation, for a physical frame `w` x `h`.
pub open spec fn logical_w(r: Rotation, w: u16, h: u16) -> u16 {
    if r.swaps_axes() {
        h
    } else {
        w
    }
}

/// Logical frame height under a rotation, for a physical frame `w` x `h`.
pub open spec fn logical_h(r: Rotation, w: u16, h: u16) -> u16 {
    if r.swaps_axes() {
        w
    } else {
        h
    }
}

/// The rotation state a set-rotation call leaves, given the state it found
/// and the physical frame `w` x `h`: the new rotation with its recomputed
/// logical dimensions. The state found does not enter the result.
pub open spec fn apply_set_rotation(
    state: (Rotation, u16, u16),
    r: Rotation,
    w: u16,
    h: u16,
) -> (Rotation, u16, u16) {
    (r, logical_w(r, w, h), logical_h(r, w, h))
}

/// Setting the same rotation twice leaves the rotation state — rotation
/// and logical dimensions — exactly as setting it once.
pub proof fn lemma_set_rotation_idempotent(state: (Rotation, u16, u16), r: Rotation, w: u16, h: u16)
    ensures
        apply_set_rotation(apply_set_rotation(state, r, w, h), r, w, h) == apply_set_rotation(
            state,
            r,
            w,
            h,
        ),
{
}

/// Map a point of the logical frame onto the physical frame. `lw` and `lh`
/// are the logical dimensions that belong to the rotation `r`.
pub open spec fn transform_pt(r: Rotation, lw: int, lh: int, x: int, y: int) -> (int, int) {
    match r {
        Rotation::Deg0 => (x, y),
        Rotation::Deg90 => (lh - 1 - y, x),
        Rotation::Deg180 => (lw - 1 - x, lh - 1 - y),
        Rotation::Deg270 => (y, lw - 1 - x),
    }
}

/// The point transform is a bijection between the logical rectangle and the
/// physical one: it lands inside the physical frame, and the transform of the
/// inverse rotation — read over the logical dimensions that belong to that
/// inverse rotation — recovers the original point.
pub proof fn lemma_transform_bijection(r: Rotation, w: u16, h: u16, x: int, y: int)
    requires
        1 <= w,
        1 <= h,
        0 <= x < logical_w(r, w, h),
        0 <= y < logical_h(r, w, h),
    ensures
        ({
            let (px, py) = transform_pt(
                r,
                logical_w(r, w, h) as int,
                logical_h(r, w, h) as int,
                x,
                y,
            );
            &&& 0 <= px < w
            &&& 0 <= py < h
            &&& transform_pt(r.inverse_spec(), w as int, h as int, px, py) == (x, y)
        }),
{
}

/// Physical axis-aligned bounding box `(min_x, min_y, max_x, max_y)` of a
/// logical rectangle given by its two corners: both corners are mapped
/// through the point transform and the element-wise minimum/maximum is
/// taken, since a rotation does not preserve which corner is top-left.
/// Reversed corner input is normalized by the same minimum/maximum.
pub open spec fn rect_window(
    r: Rotation,
    lw: int,
    lh: int,
    sx: int,
    sy: int,
    ex: int,
    ey: int,
) -> (int, int, int, int) {
    let (x1, y1) = transform_pt(r, lw, lh, sx, sy);
    let (x2, y2) = transform_pt(r, lw, lh, ex, ey);
    (
        if x1 <= x2 { x1 } else { x2 },
        if y1 <= y2 { y1 } else { y2 },
        if x1 <= x2 { x2 } else { x1 },
        if y1 <= y2 { y2 } else { y1 },
    )
}

/// Transforming a rectangle never distorts it: the resulting physical window
/// has exactly the width and height of the logical rectangle, swapped when
/// the rotation swaps the axes; and the window lies inside the physical
/// frame whenever the rectangle lies inside the logical one.
pub proof fn lemma_rect_window_dims(
    r: Rotation,
    w: u16,
    h: u16,
    x: int,
    y: int,
    rw: int,
    rh: int,
)
    requires
        1 <= w,
        1 <= h,
        1 <= rw,
        1 <= rh,
        0 <= x,
        0 <= y,
        x + rw <= logical_w(r, w, h),
        y + rh <= logical_h(r, w, h),
    ensures
        ({
            let (ax, ay, bx, by) = rect_window(
                r,
                logical_w(r, w, h) as int,
                logical_h(r, w, h) as int,
                x,
                y,
                x + rw - 1,
                y + rh - 1,
            );
            &&& bx - ax + 1 == if r.swaps_axes() { rh } else { rw }
            &&& by - ay + 1 == if r.swaps_axes() { rw } else { rh }
            &&& 0 <= ax <= bx < w
            &&& 0 <= ay <= by < h
        }),
{
}

/// The whole logical frame maps onto the whole physical frame: for every
/// rotation, the window of the rectangle that covers the logical frame is
/// the full physical frame.
pub proof fn lemma_full_frame_window(r: Rotation, w: u16, h: u16)
    requires
        1 <= w,
        1 <= h,
    ensures
        rect_window(
            r,
            logical_w(r, w, h) as int,
            logical_h(r, w, h) as int,
            0,
            0,
            logical_w(r, w, h) - 1,
            logical_h(r, w, h) - 1,
        ) == (0int, 0int, w - 1, h - 1),
{
}

/// The other direction of the bijection: starting from a physical point,
/// the inverse transform lands in the logical rectangle and the forward
/// transform brings it back.
pub proof fn lemma_transform_bijection_rev(r: Rotation, w: u16, h: u16, px: int, py: int)
    requires
        1 <= w,
        1 <= h,
        0 <= px < w,
        0 <= py < h,
    ensures
        ({
            let (x, y) = transform_pt(r.inverse_spec(), w as int, h as int, px, py);
            &&& 0 <= x < logical_w(r, w, h)
            &&& 0 <= y < logical_h(r, w, h)
            &&& transform_pt(r, logical_w(r, w, h) as int, logical_h(r, w, h) as int, x, y)
                == (px, py)
        }),
{
}

} // verus!
