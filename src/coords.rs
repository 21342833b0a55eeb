//! Row-major enumeration of the coordinates of a rectangle of rows.
use vstd::prelude::*;

use crate::IndexType;

verus! {

/// The coordinate at flat position `p` in rows of `width` cells.
pub open spec fn coord_of(p: int, width: nat) -> IndexType {
    ((p % (width as int)) as i32, (p / (width as int)) as i32)
}

/// The coordinates at flat positions `from` up to, not including, `to`.
pub open spec fn coords_between(width: nat, from: int, to: int) -> Seq<IndexType> {
    Seq::new((to - from) as nat, |k: int| coord_of(from + k, width))
}

/// Walks `[0, width) x [y, height)` row by row, `x` fastest.
pub struct CoordIter {
    width: u16,
    height: u16,
    x: u16,
    y: u16,
}

impl CoordIter {
    pub closed spec fn wf(&self) -> bool {
        self.width > 0 && self.x < self.width
    }

    /// The width of the rows walked.
    pub closed spec fn row_width(&self) -> nat {
        self.width as nat
    }

    /// The coordinates still to come, in order.
    pub closed spec fn remaining(&self) -> Seq<IndexType> {
        if self.y >= self.height {
            Seq::empty()
        } else {
            coords_between(
                self.width as nat,
                self.y * self.width + self.x,
                self.height * self.width,
            )
        }
    }

    /// A walk over the rows `y_start` up to, not including, `y_end`.
    pub fn new(width: u16, y_start: u16, y_end: u16) -> (r: CoordIter)
        requires
            width > 0,
            y_start <= y_end,
        ensures
            r.wf(),
            r.row_width() == width,
            r.remaining() == coords_between(width as nat, y_start * width, y_end * width),
    {
        let r = CoordIter { width, height: y_end, x: 0, y: y_start };
        proof {
            if y_start >= y_end {
                assert(y_start * width == y_end * width);
                assert(coords_between(width as nat, y_start * width, y_end * width) =~= Seq::empty());
            }
        }
        r
    }

    /// The next coordinate, or `None` once the last row is done.
    pub fn next(&mut self) -> (r: Option<IndexType>)
        requires
            old(self).wf(),
        ensures
            final(self).wf(),
            final(self).row_width() == old(self).row_width(),
            r is None <==> old(self).remaining().len() == 0,
            r is None ==> final(self).remaining() == old(self).remaining(),
            r matches Some(c) ==> c == old(self).remaining()[0] && final(self).remaining()
                == old(self).remaining().drop_first(),
    {
        let o_x = self.x as i32;
        let o_y = self.y as i32;
        if self.y >= self.height {
            None
        } else {
            let ghost w = self.width as int;
            let ghost p = self.y * w + self.x;
            let ghost end = self.height * w;
            let ghost old_rem = self.remaining();
            let ghost ox = self.x as int;
            let ghost oy = self.y as int;
            proof {
                assert(p < end) by (nonlinear_arith)
                    requires p == self.y * w + self.x, self.x < w, self.y < self.height,
                        end == self.height * w;
                vstd::arithmetic::div_mod::lemma_fundamental_div_mod_converse(
                    p,
                    w,
                    self.y as int,
                    self.x as int,
                );
                assert(old_rem[0] == coord_of(p, w as nat));
            }
            self.x = self.x + 1;
            if self.x >= self.width {
                self.x = self.x - self.width;
                self.y = self.y + 1;
            }
            proof {
                assert(self.y * w + self.x == p + 1) by (nonlinear_arith)
                    requires
                        (self.y == oy && self.x == ox + 1) || (self.y == oy + 1 && self.x == 0
                            && ox + 1 == w),
                        p == oy * w + ox;
                if self.y >= self.height {
                    assert(p + 1 == end) by (nonlinear_arith)
                        requires
                            self.y * w + self.x == p + 1,
                            self.y == self.height,
                            self.x == 0,
                            end == self.height * w;
                    assert(old_rem.drop_first() =~= Seq::empty());
                } else {
                    assert(self.remaining() =~= old_rem.drop_first());
                }
            }
            Some((o_x, o_y))
        }
    }
}

} // verus!
