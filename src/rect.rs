use vstd::prelude::*;

verus! {

/// An inclusive rectangle of grid cells: every cell `(x, y)` with
/// `left <= x <= right` and `top <= y <= bottom`.
#[derive(Clone, Copy, Debug, PartialEq, Eq, Structural)]
pub struct Rect {
    pub left: u16,
    pub top: u16,
    pub right: u16,
    pub bottom: u16,
}

impl Rect {
    /// The rectangle is not empty: its corners are ordered on both axes.
    pub open spec fn is_normal(self) -> bool {
        self.left <= self.right && self.top <= self.bottom
    }

    pub open spec fn contains(self, x: int, y: int) -> bool {
        self.left <= x <= self.right && self.top <= y <= self.bottom
    }

    /// The rectangle spanned by two corners given in any order.
    pub open spec fn spanning(ax: u16, ay: u16, bx: u16, by: u16) -> Rect {
        Rect {
            left: if ax < bx { ax } else { bx },
            top: if ay < by { ay } else { by },
            right: if ax < bx { bx } else { ax },
            bottom: if ay < by { by } else { ay },
        }
    }

    /// Builds the rectangle spanned by two corners, whichever order they
    /// come in.
    pub fn from_corners(ax: u16, ay: u16, bx: u16, by: u16) -> (r: Rect)
        ensures
            r == Rect::spanning(ax, ay, bx, by),
            r.is_normal(),
            r.contains(ax as int, ay as int),
            r.contains(bx as int, by as int),
    {
        let (left, right) = if ax < bx {
            (ax, bx)
        } else {
            (bx, ax)
        };
        let (top, bottom) = if ay < by {
            (ay, by)
        } else {
            (by, ay)
        };
        Rect { left, top, right, bottom }
    }
}

/// Dragging between two corners covers the same cells whichever corner the
/// drag starts from.
pub proof fn lemma_spanning_order_independent(ax: u16, ay: u16, bx: u16, by: u16)
    ensures
        Rect::spanning(ax, ay, bx, by) == Rect::spanning(bx, by, ax, ay),
        forall|x: int, y: int|
            Rect::spanning(ax, ay, bx, by).contains(x, y) <==> Rect::spanning(
                bx,
                by,
                ax,
                ay,
            ).contains(x, y),
{
}

} // verus!
