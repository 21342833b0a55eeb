//! Flat, row-major cell storage with toroidal neighbour lookup.
use vstd::prelude::*;

use crate::coords::coord_of;
use crate::{deref_all, DataType, IndexType, Size};

verus! {

/// The mathematical content of a grid: its extent and its cells, row by row.
pub ghost struct GridModel<D> {
    pub width: nat,
    pub height: nat,
    pub cells: Seq<D>,
}

/// `v` reduced into `[0, n)`, wrapping around at both ends.
pub open spec fn wrap(v: int, n: nat) -> int {
    v % (n as int)
}

impl<D> GridModel<D> {
    /// Every cell has its place: `cells[y * width + x]` for `x < width`, `y < height`.
    pub open spec fn wf(self) -> bool {
        &&& 0 < self.width <= u16::MAX
        &&& self.height <= u16::MAX
        &&& self.cells.len() == self.width * self.height
    }

    /// The cell at column `x`, row `y`.
    pub open spec fn at(self, x: int, y: int) -> D {
        self.cells[y * self.width + x]
    }

    /// Every cell with its coordinate, row by row.
    pub open spec fn pairs(self) -> Seq<(IndexType, D)> {
        Seq::new(
            self.width * self.height,
            |k: int| (coord_of(k, self.width), self.cells[k]),
        )
    }

    /// The `size` x `size` window centred on `(cx, cy)`, row by row, with both axes wrapped.
    pub open spec fn area(self, cx: int, cy: int, size: nat) -> Seq<D> {
        let half = (size / 2) as int;
        Seq::new(
            size * size,
            |k: int|
                self.at(
                    wrap(cx - half + k % (size as int), self.width),
                    wrap(cy - half + k / (size as int), self.height),
                ),
        )
    }
}

/// The grid is a torus: the 3 x 3 window centred on the corner `(0, 0)` wraps on both axes at
/// once, and its first cell is the opposite corner `(width - 1, height - 1)`.
pub proof fn lemma_corner_window_wraps<D>(m: GridModel<D>)
    requires
        m.wf(),
        m.height > 0,
    ensures
        m.area(0, 0, 3)[0] == m.at(m.width - 1, m.height - 1),
        m.area(0, 0, 3).contains(m.at(m.width - 1, m.height - 1)),
{
    let w = m.width as int;
    let h = m.height as int;
    vstd::arithmetic::div_mod::lemma_fundamental_div_mod_converse(-1, w, -1, w - 1);
    vstd::arithmetic::div_mod::lemma_fundamental_div_mod_converse(-1, h, -1, h - 1);
    assert(wrap(-1int, m.width) == w - 1);
    assert(wrap(-1int, m.height) == h - 1);
    assert(m.area(0, 0, 3)[0] == m.at(w - 1, h - 1));
}

/// A fixed-size rectangular buffer of cells, addressed as `data[y * width + x]`.
#[derive(Clone)]
pub struct Grid<D> {
    width: u16,
    height: u16,
    data: Vec<D>,
}

impl<D> View for Grid<D> {
    type V = GridModel<D>;

    closed spec fn view(&self) -> GridModel<D> {
        GridModel { width: self.width as nat, height: self.height as nat, cells: self.data@ }
    }
}

/// The position of `(x, y)` in a buffer of rows of `width` cells.
fn flat_index(x: usize, y: usize, width: u16, height: u16) -> (r: usize)
    requires
        x < width,
        y < height,
    ensures
        r == y * width + x,
        r < width * height,
{
    proof {
        assert(y * width + x < width * height) by (nonlinear_arith)
            requires
                x < width,
                y < height,
        ;
        assert(y * width <= 65535 * 65535) by (nonlinear_arith)
            requires
                y < height,
                height <= 65535,
                width <= 65535,
        ;
    }
    y * (width as usize) + x
}

/// `v` wrapped into `[0, n)`.
fn wrap_coord(v: i64, n: u16) -> (r: usize)
    requires
        n > 0,
    ensures
        r == wrap(v as int, n as nat),
        r < n,
{
    let m = v.checked_rem_euclid(n as i64).unwrap();
    m as usize
}

impl<D: DataType> Grid<D> {
    /// Builds a grid whose rows have `width` cells; fails when `init_data` does not split into
    /// whole rows.
    pub fn init_with_data(init_data: Vec<D>, width: u16) -> (r: Result<Grid<D>, crate::GError>)
        requires
            width > 0,
            init_data@.len() / (width as nat) <= u16::MAX,
        ensures
            init_data@.len() % (width as nat) == 0 <==> r is Ok,
            r matches Ok(g) ==> g@.wf() && g@.width == width && g@.height == init_data@.len()
                / (width as nat) && g@.cells == init_data@,
            r matches Err(e) ==> e == (crate::GError::InitializationError {
                size: init_data@.len() as usize,
                width,
            }),
    {
        let size = init_data.len();
        let uw = width as usize;
        if size % uw != 0 {
            Err(crate::GError::InitializationError { size, width })
        } else {
            proof {
                vstd::arithmetic::div_mod::lemma_fundamental_div_mod(size as int, uw as int);
            }
            Ok(Grid { width, height: (size / uw) as u16, data: init_data })
        }
    }

    pub fn get_size(&self) -> (s: Size)
        ensures
            s.width == self@.width,
            s.height == self@.height,
    {
        Size { width: self.width, height: self.height }
    }

    /// The `size` x `size` window of cells centred on `index`, row by row; coordinates outside
    /// the grid wrap around to the other side.
    pub fn get_area(&self, index: IndexType, size: u8) -> (v: Vec<&D>)
        requires
            self@.wf(),
            self@.height > 0,
            size % 2 == 1,
        ensures
            deref_all(v@) == self@.area(index.0 as int, index.1 as int, size as nat),
    {
        let ghost m = self@;
        let ghost sz = size as int;
        let mut v: Vec<&D> = Vec::new();
        let x = index.0 as i64;
        let y = index.1 as i64;
        let half = (size / 2) as i64;
        let side = size as i64;
        let mut row: i64 = 0;
        while row < side
            invariant
                self@ == m,
                m.wf(),
                m.height > 0,
                side == sz,
                half == sz / 2,
                x == index.0,
                y == index.1,
                0 <= row <= side,
                v@.len() == row * side,
                forall|k: int|
                    0 <= k < v@.len() ==> *v@[k] == m.area(x as int, y as int, sz as nat)[k],
            decreases side - row,
        {
            let mut col: i64 = 0;
            while col < side
                invariant
                    self@ == m,
                    m.wf(),
                    m.height > 0,
                    side == sz,
                    half == sz / 2,
                    x == index.0,
                    y == index.1,
                    0 <= row < side,
                    0 <= col <= side,
                    v@.len() == row * side + col,
                    forall|k: int|
                        0 <= k < v@.len() ==> *v@[k] == m.area(x as int, y as int, sz as nat)[k],
                decreases side - col,
            {
                let wx = wrap_coord(x - half + col, self.width);
                let wy = wrap_coord(y - half + row, self.height);
                let i = flat_index(wx, wy, self.width, self.height);
                let ghost k = row * side + col;
                proof {
                    assert(k < sz * sz) by (nonlinear_arith)
                        requires k == row * side + col, 0 <= row < side, 0 <= col < side, side == sz;
                    vstd::arithmetic::div_mod::lemma_fundamental_div_mod_converse(k, sz, row as int, col as int);
                }
                v.push(&self.data[i]);
                col = col + 1;
            }
            proof {
                assert(row * side + side == (row + 1) * side) by (nonlinear_arith);
            }
            row = row + 1;
        }
        proof {
            assert(deref_all(v@) =~= m.area(x as int, y as int, sz as nat));
        }
        v
    }

    /// The cells, row by row.
    pub fn get_raw_data(&self) -> (r: &[D])
        ensures
            r@ == self@.cells,
    {
        self.data.as_slice()
    }

    /// The cells, row by row, for writing in place; the extent stays as it is.
    pub fn get_raw_mut_data(&mut self) -> (r: &mut [D])
        ensures
            old(self)@.cells == r@,
            final(self)@ == (GridModel { cells: final(r)@, ..old(self)@ }),
    {
        self.data.as_mut_slice()
    }

    /// The cell at `index`, which must lie inside the grid (no wrapping).
    pub fn index(&self, index: IndexType) -> (r: &D)
        requires
            self@.wf(),
            0 <= index.0 < self@.width,
            0 <= index.1 < self@.height,
        ensures
            *r == self@.at(index.0 as int, index.1 as int),
    {
        let i = flat_index(index.0 as usize, index.1 as usize, self.width, self.height);
        &self.data[i]
    }

    /// The cell at `index`, which must lie inside the grid (no wrapping), for writing.
    pub fn index_mut(&mut self, index: IndexType) -> (r: &mut D)
        requires
            old(self)@.wf(),
            0 <= index.0 < old(self)@.width,
            0 <= index.1 < old(self)@.height,
        ensures
            *r == old(self)@.at(index.0 as int, index.1 as int),
            final(self)@ == (GridModel {
                cells: old(self)@.cells.update(
                    index.1 * old(self)@.width + index.0,
                    *final(r),
                ),
                ..old(self)@
            }),
    {
        let i = flat_index(index.0 as usize, index.1 as usize, self.width, self.height);
        &mut self.data[i]
    }

    /// Puts `data` in place of the cells, all at once; the extent stays as it is.
    pub fn replace_data(&mut self, data: Vec<D>)
        requires
            data@.len() == old(self)@.cells.len(),
        ensures
            final(self)@ == (GridModel { cells: data@, ..old(self)@ }),
    {
        self.data = data;
    }
}

} // verus!
