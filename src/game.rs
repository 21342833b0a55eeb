//! The simulation engine: one generation at a time, band by band, from a frozen snapshot.
use vstd::prelude::*;

use crate::coords::{coord_of, coords_between, CoordIter};
use crate::grid::{Grid, GridModel};
use crate::{
    deref_all, Color, ColoredDataType, GResult, IndexType, PrintableDataType, RandomInit, RuleSet,
    Size,
};

verus! {

/// How many row-bands a step is split into.
pub const NUMBER_OF_THREADS: u16 = 4;

/// The first row of band `index` when `height` rows are split into `threads` bands; band
/// `index` ends where band `index + 1` starts.
pub open spec fn band_start(index: int, threads: int, height: int) -> int {
    index * height / threads
}

/// Row `y` lies in band `index`.
pub open spec fn row_in_band(y: int, index: int, threads: int, height: int) -> bool {
    band_start(index, threads, height) <= y < band_start(index + 1, threads, height)
}

/// Row `y` lies in one of the `threads` bands.
pub open spec fn row_covered(y: int, threads: int, height: int) -> bool {
    exists|i: int| 0 <= i < threads && #[trigger] row_in_band(y, i, threads, height)
}

/// The next generation of `m` under `R`: every cell replaced by the rule applied to the window
/// around it.
pub open spec fn next_generation<R: RuleSet>(m: GridModel<R::Data>) -> Seq<R::Data> {
    Seq::new(
        m.width * m.height,
        |p: int|
            R::rule(
                m.area(p % (m.width as int), p / (m.width as int), R::SOURCE_SIZE as nat),
            ),
    )
}

/// Bands are ordered: a later band never starts before an earlier one.
proof fn lemma_band_start_monotonic(i: int, j: int, threads: int, height: int)
    requires
        0 <= i <= j,
        threads > 0,
        height >= 0,
    ensures
        band_start(i, threads, height) <= band_start(j, threads, height),
{
    vstd::arithmetic::mul::lemma_mul_inequality(i, j, height);
    vstd::arithmetic::div_mod::lemma_div_is_ordered(i * height, j * height, threads);
}

/// Below the end of band `hi`, every row lies in some band before `hi`.
proof fn lemma_row_in_some_band(y: int, threads: int, height: int, hi: int)
    requires
        threads > 0,
        height >= 0,
        0 < hi <= threads,
        0 <= y < band_start(hi, threads, height),
    ensures
        exists|i: int| 0 <= i < hi && #[trigger] row_in_band(y, i, threads, height),
    decreases hi,
{
    if band_start(hi - 1, threads, height) <= y {
        assert(band_start((hi - 1) + 1, threads, height) == band_start(hi, threads, height));
        assert(row_in_band(y, hi - 1, threads, height));
    } else {
        assert(band_start(0, threads, height) == 0);
        lemma_row_in_some_band(y, threads, height, hi - 1);
    }
}

/// Splitting `height` rows into `threads` bands covers `[0, height)` exactly once: the first
/// band starts at row 0, the last ends at `height`, each band ends where the next starts, and
/// every row lies in exactly one band, whether or not `threads` divides `height`.
pub proof fn lemma_bands_cover(height: nat, threads: nat)
    requires
        threads > 0,
    ensures
        band_start(0, threads as int, height as int) == 0,
        band_start(threads as int, threads as int, height as int) == height,
        forall|i: int, j: int|
            0 <= i <= j ==> #[trigger] band_start(i, threads as int, height as int)
                <= #[trigger] band_start(j, threads as int, height as int),
        forall|y: int| 0 <= y < height ==> #[trigger] row_covered(y, threads as int, height as int),
        forall|y: int, i: int, j: int|
            0 <= i < threads && 0 <= j < threads && #[trigger] row_in_band(
                y,
                i,
                threads as int,
                height as int,
            ) && #[trigger] row_in_band(y, j, threads as int, height as int) ==> i == j,
{
    let t = threads as int;
    let h = height as int;
    assert(band_start(0, t, h) == 0);
    vstd::arithmetic::div_mod::lemma_div_by_multiple(h, t);
    assert(t * h == h * t) by (nonlinear_arith);
    assert forall|i: int, j: int|
        0 <= i <= j implies #[trigger] band_start(i, t, h) <= #[trigger] band_start(j, t, h) by {
        lemma_band_start_monotonic(i, j, t, h);
    }
    assert forall|y: int| 0 <= y < height implies #[trigger] row_covered(y, t, h) by {
        lemma_row_in_some_band(y, t, h, t);
    }
    assert forall|y: int, i: int, j: int|
        0 <= i < threads && 0 <= j < threads && #[trigger] row_in_band(y, i, t, h)
            && #[trigger] row_in_band(y, j, t, h) implies i == j by {
        if i < j {
            lemma_band_start_monotonic(i + 1, j, t, h);
        } else if j < i {
            lemma_band_start_monotonic(j + 1, i, t, h);
        }
    }
}

/// The rows `[y_start, y_end)` of band `index` when `height` rows are split into `threads`
/// bands.
pub fn band_bounds(index: u16, threads: u16, height: u16) -> (r: (u16, u16))
    requires
        threads > 0,
        index < threads,
    ensures
        r.0 == band_start(index as int, threads as int, height as int),
        r.1 == band_start(index + 1, threads as int, height as int),
        r.0 <= r.1 <= height,
{
    proof {
        lemma_bands_cover(height as nat, threads as nat);
        assert(band_start(index as int, threads as int, height as int) <= band_start(
            index + 1,
            threads as int,
            height as int,
        ));
        assert(band_start(index + 1, threads as int, height as int) <= band_start(
            threads as int,
            threads as int,
            height as int,
        ));
        assert(0 <= index * height <= (index + 1) * height <= 65536 * 65535) by (nonlinear_arith)
            requires
                0 <= index < 65535,
                0 <= height <= 65535,
        ;
    }
    let s = (index as u32 * height as u32) / threads as u32;
    let e = ((index as u32 + 1) * height as u32) / threads as u32;
    (s as u16, e as u16)
}

/// A simulation session: a grid that advances one generation at a time under the rule `R`.
pub struct Game<R: RuleSet> {
    grid: Grid<R::Data>,
}

impl<R: RuleSet> View for Game<R> {
    type V = GridModel<R::Data>;

    closed spec fn view(&self) -> GridModel<R::Data> {
        self.grid@
    }
}

impl<R: RuleSet> Game<R> {
    /// Starts a session on `init_data`, in rows of `width` cells; fails when the cells do not
    /// split into whole rows.
    pub fn init_with_data(init_data: Vec<R::Data>, width: u16) -> (r: GResult<Game<R>>)
        requires
            width > 0,
            init_data@.len() / (width as nat) <= u16::MAX,
        ensures
            init_data@.len() % (width as nat) == 0 <==> r is Ok,
            r matches Ok(g) ==> g@.wf() && g@.width == width && g@.height == init_data@.len()
                / (width as nat) && g@.cells == init_data@,
            r matches Err(e) ==> e == (crate::GError::InitializationError {
                size: init_data@.len() as usize,
                width,
            }),
    {
        match Grid::init_with_data(init_data, width) {
            Ok(grid) => Ok(Game { grid }),
            Err(e) => Err(e),
        }
    }

    /// A walk over every coordinate of the grid, row by row.
    fn get_coord_iter(&self) -> (r: CoordIter)
        requires
            self@.wf(),
        ensures
            r.wf(),
            r.row_width() == self@.width,
            r.remaining() == coords_between(self@.width, 0, (self@.width * self@.height) as int),
    {
        let size = self.grid.get_size();
        CoordIter::new(size.width, 0, size.height)
    }

    /// The next values of the cells of rows `[y_start, y_end)`, row by row, computed from the
    /// grid as it stands.
    pub fn compute_band(&self, y_start: u16, y_end: u16) -> (v: Vec<R::Data>)
        requires
            self@.wf(),
            R::SOURCE_SIZE % 2 == 1,
            y_start <= y_end <= self@.height,
        ensures
            v@ == next_generation::<R>(self@).subrange(
                y_start * self@.width,
                y_end * self@.width,
            ),
    {
        let ghost m = self@;
        let ghost w = m.width as int;
        let ghost from = y_start * w;
        let ghost to = y_end * w;
        let size = self.grid.get_size();
        let mut iter = CoordIter::new(size.width, y_start, y_end);
        let mut v: Vec<R::Data> = Vec::new();
        proof {
            assert(to <= w * m.height) by (nonlinear_arith)
                requires
                    to == y_end * w,
                    y_end <= m.height,
                    w > 0,
            ;
            assert(0 <= from <= to) by (nonlinear_arith)
                requires
                    from == y_start * w,
                    to == y_end * w,
                    y_start <= y_end,
                    w > 0,
            ;
        }
        loop
            invariant
                self@ == m,
                m.wf(),
                w == m.width,
                R::SOURCE_SIZE % 2 == 1,
                iter.wf(),
                iter.row_width() == w,
                0 <= from <= to <= w * m.height,
                from + v@.len() <= to,
                iter.remaining() == coords_between(w as nat, from + v@.len(), to),
                v@ == next_generation::<R>(m).subrange(from, from + v@.len()),
            ensures
                v@ == next_generation::<R>(m).subrange(from, to),
            decreases iter.remaining().len(),
        {
            let ghost p = from + v@.len();
            match iter.next() {
                None => {
                    break ;
                },
                Some(c) => {
                    proof {
                        assert(c == coord_of(p, w as nat));
                        assert(p < w * m.height);
                        vstd::arithmetic::div_mod::lemma_div_pos_is_pos(p, w);
                        vstd::arithmetic::div_mod::lemma_mod_bound(p, w);
                        vstd::arithmetic::div_mod::lemma_multiply_divide_lt(p, w, m.height as int);
                        assert(c.0 as int == p % w);
                        assert(c.1 as int == p / w);
                    }
                    let area = self.grid.get_area(c, R::SOURCE_SIZE);
                    assert(area@.len() == deref_all(area@).len());
                    let d = R::next(area.as_slice());
                    v.push(d);
                    proof {
                        assert(v@ =~= next_generation::<R>(m).subrange(from, p + 1));
                        assert(iter.remaining() =~= coords_between(w as nat, p + 1, to));
                    }
                },
            }
        }
        v
    }

    /// Advances the grid by one generation. Every cell is computed from the grid as it stood
    /// before the call, band by band; the new cells replace the old ones all at once.
    pub fn next_step(&mut self)
        requires
            old(self)@.wf(),
            R::SOURCE_SIZE % 2 == 1,
        ensures
            final(self)@ == (GridModel { cells: next_generation::<R>(old(self)@), ..old(self)@ }),
            final(self)@.wf(),
    {
        let ghost m = self@;
        let ghost w = m.width as int;
        let ghost h = m.height as int;
        let size = self.grid.get_size();
        let height = size.height;
        let mut out: Vec<R::Data> = Vec::new();
        let mut index: u16 = 0;
        proof {
            lemma_bands_cover(h as nat, NUMBER_OF_THREADS as nat);
        }
        while index < NUMBER_OF_THREADS
            invariant
                self@ == m,
                m.wf(),
                R::SOURCE_SIZE % 2 == 1,
                w == m.width,
                h == m.height,
                height == h,
                index <= NUMBER_OF_THREADS,
                out@ == next_generation::<R>(m).subrange(
                    0,
                    band_start(index as int, NUMBER_OF_THREADS as int, h) * w,
                ),
                band_start(0, NUMBER_OF_THREADS as int, h) == 0,
                band_start(NUMBER_OF_THREADS as int, NUMBER_OF_THREADS as int, h) == h,
            decreases NUMBER_OF_THREADS - index,
        {
            let bounds = band_bounds(index, NUMBER_OF_THREADS, height);
            let y_start = bounds.0;
            let y_end = bounds.1;
            let mut band = self.compute_band(y_start, y_end);
            proof {
                assert(y_start * w <= y_end * w) by (nonlinear_arith)
                    requires y_start <= y_end, w > 0;
                assert(y_end * w <= h * w) by (nonlinear_arith)
                    requires y_end <= h, w > 0;
                assert(h * w == w * h) by (nonlinear_arith);
            }
            out.append(&mut band);
            proof {
                assert(out@ =~= next_generation::<R>(m).subrange(0, y_end * w));
            }
            index = index + 1;
        }
        proof {
            assert(h * w == w * h) by (nonlinear_arith);
            assert(out@ =~= next_generation::<R>(m));
        }
        self.commit(out);
    }

    /// Puts a whole generation, row by row, in place of the cells at once; the size stays as it
    /// is.
    pub fn commit(&mut self, cells: Vec<R::Data>)
        requires
            cells@.len() == old(self)@.cells.len(),
        ensures
            final(self)@ == (GridModel { cells: cells@, ..old(self)@ }),
    {
        self.grid.replace_data(cells);
    }

    /// The width and height of the grid.
    pub fn get_size(&self) -> (s: Size)
        ensures
            s.width == self@.width,
            s.height == self@.height,
    {
        self.grid.get_size()
    }
}

impl<R: RuleSet> Game<R> {
    /// The cell at `index`, which must lie inside the grid (no wrapping).
    pub fn index(&self, index: IndexType) -> (r: &R::Data)
        requires
            self@.wf(),
            0 <= index.0 < self@.width,
            0 <= index.1 < self@.height,
        ensures
            *r == self@.at(index.0 as int, index.1 as int),
    {
        self.grid.index(index)
    }

    /// A fresh walk over every cell with its coordinate, row by row from `(0, 0)`.
    pub fn iter(&self) -> (r: GameIter<'_, R::Data>)
        requires
            self@.wf(),
        ensures
            r.wf(),
            r.rest() == self@.pairs(),
    {
        let coord = self.get_coord_iter();
        let data = self.grid.get_raw_data();
        let r = GameIter { coord, data, i: 0 };
        proof {
            assert(r.rest() =~= self@.pairs());
        }
        r
    }
}

/// Byte `j` of the RGBA colour `c`.
pub open spec fn color_component(c: Color, j: int) -> u8 {
    if j == 0 {
        c.0
    } else if j == 1 {
        c.1
    } else if j == 2 {
        c.2
    } else {
        c.3
    }
}

/// The colours of `cells`, in order, four bytes (R, G, B, A) for each cell.
pub open spec fn color_bytes<D: ColoredDataType>(cells: Seq<D>) -> Seq<u8> {
    Seq::new(4 * cells.len(), |k: int| color_component(cells[k / 4].color(), k % 4))
}

/// The grid as text: each row its cells' characters, followed by a line break.
pub open spec fn text_of<D: PrintableDataType>(m: GridModel<D>) -> Seq<char> {
    let line = m.width + 1;
    Seq::new(
        m.height * line,
        |k: int|
            if k % (line as int) == m.width {
                '\n'
            } else {
                m.at(k % (line as int), k / (line as int)).glyph()
            },
    )
}

impl<R: RuleSet> Game<R> where R::Data: ColoredDataType {
    /// The colours of all cells, row by row, four bytes (R, G, B, A) for each, with the size of
    /// the grid.
    pub fn to_raw_colors(&self) -> (r: (Vec<u8>, Size))
        requires
            self@.wf(),
        ensures
            r.0@ == color_bytes(self@.cells),
            r.1.width == self@.width,
            r.1.height == self@.height,
    {
        let ghost m = self@;
        let size = self.grid.get_size();
        let mut v: Vec<u8> = Vec::new();
        let mut it = self.iter();
        let ghost mut j: int = 0;
        loop
            invariant
                self@ == m,
                m.wf(),
                it.wf(),
                0 <= j <= m.cells.len(),
                it.rest() == m.pairs().subrange(j, m.cells.len() as int),
                v@ == color_bytes(m.cells.subrange(0, j)),
            ensures
                v@ == color_bytes(m.cells),
            decreases it.rest().len(),
        {
            match it.next() {
                None => {
                    proof {
                        assert(m.cells.subrange(0, j) =~= m.cells);
                    }
                    break ;
                },
                Some(p) => {
                    let d = p.1;
                    let (r, g, b, a) = d.get_color();
                    v.push(r);
                    v.push(g);
                    v.push(b);
                    v.push(a);
                    proof {
                        assert(*d == m.cells[j]);
                        assert(v@ =~= color_bytes(m.cells.subrange(0, j + 1)));
                        j = j + 1;
                        assert(it.rest() =~= m.pairs().subrange(j, m.cells.len() as int));
                    }
                },
            }
        }
        (v, size)
    }
}

impl<R: RuleSet> Game<R> where R::Data: PrintableDataType {
    /// The grid as text: each row its cells' characters, followed by a line break.
    pub fn to_text(&self) -> (r: Vec<char>)
        requires
            self@.wf(),
        ensures
            r@ == text_of(self@),
    {
        let ghost m = self@;
        let ghost line = m.width + 1;
        let size = self.grid.get_size();
        let mut v: Vec<char> = Vec::new();
        let mut y: u16 = 0;
        while y < size.height
            invariant
                self@ == m,
                m.wf(),
                line == m.width + 1,
                size.width == m.width,
                size.height == m.height,
                y <= m.height,
                v@ == text_of(m).subrange(0, y * line),
            decreases size.height - y,
        {
            let mut x: u16 = 0;
            while x < size.width
                invariant
                    self@ == m,
                    m.wf(),
                    line == m.width + 1,
                    size.width == m.width,
                    size.height == m.height,
                    y < m.height,
                    x <= m.width,
                    v@ == text_of(m).subrange(0, y * line + x),
                decreases size.width - x,
            {
                let c = self.grid.index((x as i32, y as i32)).get_char();
                proof {
                    let k = y * line + x;
                    assert(k < m.height * line) by (nonlinear_arith)
                        requires k == y * line + x, x < line, y < m.height;
                    vstd::arithmetic::div_mod::lemma_fundamental_div_mod_converse(
                        k,
                        line as int,
                        y as int,
                        x as int,
                    );
                }
                v.push(c);
                proof {
                    assert(v@ =~= text_of(m).subrange(0, y * line + x + 1));
                }
                x = x + 1;
            }
            proof {
                let k = y * line + m.width;
                assert(k < m.height * line) by (nonlinear_arith)
                    requires k == y * line + m.width, line == m.width + 1, y < m.height;
                vstd::arithmetic::div_mod::lemma_fundamental_div_mod_converse(
                    k,
                    line as int,
                    y as int,
                    m.width as int,
                );
            }
            v.push('\n');
            proof {
                assert(y * line + m.width + 1 == (y + 1) * line) by (nonlinear_arith)
                    requires line == m.width + 1;
                assert(v@ =~= text_of(m).subrange(0, (y + 1) * line));
            }
            y = y + 1;
        }
        proof {
            assert(v@ =~= text_of(m));
        }
        v
    }
}

impl<R: RuleSet> Game<R> where R::Data: RandomInit {
    /// Starts a session on a grid of `game_size.0` x `game_size.1` cells, each drawn at random.
    pub fn init_random_data(game_size: (u16, u16)) -> (r: GResult<Game<R>>)
        requires
            game_size.0 > 0,
        ensures
            r matches Ok(g) && g@.wf() && g@.width == game_size.0 && g@.height == game_size.1,
    {
        proof {
            assert(game_size.0 * game_size.1 <= 65535 * 65535) by (nonlinear_arith)
                requires
                    game_size.0 <= 65535,
                    game_size.1 <= 65535,
            ;
        }
        let total_size = game_size.0 as usize * game_size.1 as usize;
        let mut data: Vec<R::Data> = Vec::with_capacity(total_size);
        let mut i: usize = 0;
        while i < total_size
            invariant
                i <= total_size,
                data@.len() == i,
            decreases total_size - i,
        {
            data.push(R::Data::rnd());
            i = i + 1;
        }
        proof {
            assert(total_size == game_size.0 * game_size.1);
            vstd::arithmetic::div_mod::lemma_div_multiples_vanish(game_size.1 as int, game_size.0 as int);
            vstd::arithmetic::div_mod::lemma_mod_multiples_basic(game_size.1 as int, game_size.0 as int);
            assert(game_size.0 * game_size.1 == game_size.1 * game_size.0) by (nonlinear_arith);
        }
        Game::init_with_data(data, game_size.0)
    }
}

/// A walk over the cells of a game with their coordinates, row by row.
pub struct GameIter<'a, D> {
    coord: CoordIter,
    data: &'a [D],
    i: usize,
}

impl<'a, D> GameIter<'a, D> {
    pub closed spec fn wf(&self) -> bool {
        &&& self.coord.wf()
        &&& self.i <= self.data@.len()
        &&& self.coord.remaining().len() == self.data@.len() - self.i
    }

    /// The coordinates and cells still to come, in order.
    pub closed spec fn rest(&self) -> Seq<(IndexType, D)> {
        Seq::new(
            self.coord.remaining().len(),
            |k: int| (self.coord.remaining()[k], self.data@[self.i + k]),
        )
    }

    /// The next coordinate and cell, or `None` once every cell has been seen.
    pub fn next(&mut self) -> (r: Option<(IndexType, &'a D)>)
        requires
            old(self).wf(),
        ensures
            final(self).wf(),
            r is None <==> old(self).rest().len() == 0,
            r is None ==> final(self).rest() == old(self).rest(),
            r matches Some(p) ==> (p.0, *p.1) == old(self).rest()[0] && final(self).rest()
                == old(self).rest().drop_first(),
    {
        let ghost old_rest = self.rest();
        let ghost n = self.coord.remaining().len();
        match self.coord.next() {
            None => {
                proof {
                    assert(self.rest() =~= old_rest);
                }
                None
            },
            Some(c) => {
                let i = self.i;
                let len = self.data.len();
                assert(n > 0 && n == len - i);
                self.i = self.i + 1;
                proof {
                    assert(self.rest() =~= old_rest.drop_first());
                }
                Some((c, &self.data[i]))
            },
        }
    }
}

/// Two walks over one grid, with no step in between, yield the same coordinates and cells in
/// the same order.
pub proof fn lemma_iteration_repeatable<D>(m: GridModel<D>, a: GameIter<D>, b: GameIter<D>)
    requires
        a.rest() == m.pairs(),
        b.rest() == m.pairs(),
    ensures
        a.rest() == b.rest(),
        forall|k: int|
            0 <= k < a.rest().len() ==> #[trigger] a.rest()[k] == (
                coord_of(k, m.width),
                m.cells[k],
            ),
{
}

/// Two steps taken from equal grids, under one rule, give equal grids.
pub proof fn lemma_step_deterministic<R: RuleSet>(a: GridModel<R::Data>, b: GridModel<R::Data>)
    requires
        a == b,
    ensures
        next_generation::<R>(a) == next_generation::<R>(b),
{
}

} // verus!
