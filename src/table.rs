use vstd::prelude::*;
use vstd::arithmetic::div_mod::{
    lemma_mod_add_multiples_vanish,
    lemma_mod_multiples_basic,
    lemma_mod_self_0,
    lemma_small_mod,
};
use vstd::string::StringExecFns;

use crate::cell_state::CellState;
use crate::grid::{Grid, bool_rows, is_rectangular, lemma_index_coords, next_state};
use crate::rows::Rows;
use crate::point::Point;

verus! {

/// A Game of Life grid on a torus: `width × height` cells in row-major order.
pub struct Table {
    height: usize,
    width: usize,
    values: Vec<CellState>,
}

impl View for Table {
    type V = Grid;

    closed spec fn view(&self) -> Grid {
        Grid { width: self.width as nat, height: self.height as nat, cells: self.values@ }
    }
}

/// Why a nested boolean grid could not become a table.
#[derive(Debug, Clone, Copy, PartialEq, Eq, Structural)]
pub enum TableError {
    /// Fewer than three rows, or a first row of fewer than three cells.
    TooSmall,
    /// A row whose length differs from the first row's.
    Ragged,
}

/// A cell's current state paired with the number of its live neighbours: what
/// decides the cell's state in the next generation.
#[derive(Debug, Clone, Copy, PartialEq, Eq, Structural)]
pub struct Block {
    pub value: CellState,
    pub live_count: u8,
}

impl Block {
    /// This block is the one of the cell at position `i` of grid `g`.
    pub open spec fn describes(self, g: Grid, i: int) -> bool {
        &&& self.value == g.cells[i]
        &&& self.live_count as nat == g.live_count_at(i)
    }

    /// The cell's state in the next generation.
    pub fn next_value(&self) -> (r: CellState)
        ensures
            r == next_state(self.value, self.live_count as nat),
    {
        match self.value {
            // A live cell with fewer than two or more than three live
            // neighbours dies; with two or three it lives on.
            CellState::Alive => if self.live_count < 2 || self.live_count > 3 {
                CellState::Dead
            } else {
                CellState::Alive
            },
            // A dead cell with exactly three live neighbours comes to life.
            CellState::Dead => if self.live_count == 3 {
                CellState::Alive
            } else {
                CellState::Dead
            },
        }
    }
}

/// The index before `i` on a cycle of `len` positions.
fn wrap_prev(i: usize, len: usize) -> (r: usize)
    requires
        i < len,
    ensures
        r as int == (i - 1) % (len as int),
{
    proof {
        if i == 0 {
            lemma_mod_add_multiples_vanish(-1, len as int);
            lemma_small_mod((len - 1) as nat, len as nat);
        } else {
            lemma_small_mod((i - 1) as nat, len as nat);
        }
    }
    if i == 0 {
        len - 1
    } else {
        i - 1
    }
}

/// The index after `i` on a cycle of `len` positions.
fn wrap_next(i: usize, len: usize) -> (r: usize)
    requires
        i < len,
    ensures
        r as int == (i + 1) % (len as int),
{
    proof {
        if i == len - 1 {
            lemma_mod_self_0(len as int);
        } else {
            lemma_small_mod((i + 1) as nat, len as nat);
        }
    }
    if i >= len - 1 {
        0
    } else {
        i + 1
    }
}

/// A vector of `len` dead cells.
fn dead_cells(len: usize) -> (r: Vec<CellState>)
    ensures
        r@ == Seq::new(len as nat, |i: int| CellState::Dead),
{
    let mut values: Vec<CellState> = Vec::new();
    let mut i: usize = 0;
    while i < len
        invariant
            i <= len,
            values@ == Seq::new(i as nat, |j: int| CellState::Dead),
        decreases len - i,
    {
        values.push(CellState::Dead);
        i = i + 1;
        assert(values@ =~= Seq::new(i as nat, |j: int| CellState::Dead));
    }
    values
}

impl Table {
    /// A square grid of `size × size` dead cells.
    pub fn new(size: usize) -> (r: Table)
        requires
            size >= 3,
            size * size <= usize::MAX,
        ensures
            r@ == Grid::dead(size as nat, size as nat),
            r@.wf(),
    {
        let values = dead_cells(size * size);
        Table { height: size, width: size, values }
    }

    /// A grid of `width` columns and `height` rows, every cell dead.
    pub fn of_size(width: u32, height: u32) -> (r: Table)
        requires
            width >= 3,
            height >= 3,
            width * height <= usize::MAX,
        ensures
            r@ == Grid::dead(width as nat, height as nat),
            r@.wf(),
    {
        let w = width as usize;
        let h = height as usize;
        let values = dead_cells(w * h);
        Table { height: h, width: w, values }
    }

    pub fn height(&self) -> (r: usize)
        ensures
            r == self@.height,
    {
        self.height
    }

    pub fn width(&self) -> (r: usize)
        ensures
            r == self@.width,
    {
        self.width
    }

    /// The number of cells.
    pub fn len(&self) -> (r: usize)
        ensures
            r == self@.cells.len(),
    {
        self.values.len()
    }

    /// The cell at position `i` of the row-major buffer.
    pub fn at(&self, i: usize) -> (r: CellState)
        requires
            i < self@.cells.len(),
        ensures
            r == self@.cells[i as int],
    {
        self.values[i]
    }

    /// The position of cell `(x, y)` in the row-major buffer.
    fn index_of(&self, x: usize, y: usize) -> (i: usize)
        requires
            self@.wf(),
            x < self@.width,
            y < self@.height,
        ensures
            i as int == self@.index(x as int, y as int),
            i < self@.cells.len(),
    {
        let len = self.values.len();
        proof {
            lemma_index_coords(self.width as int, self.height as int, x as int, y as int);
            assert(y * self.width + x < len);
        }
        y * self.width + x
    }

    /// The cell in column `x` of row `y`.
    pub fn get(&self, x: usize, y: usize) -> (r: CellState)
        requires
            self@.wf(),
            x < self@.width,
            y < self@.height,
        ensures
            r == self@.cell(x as int, y as int),
    {
        self.values[self.index_of(x, y)]
    }

    /// Writes `value` at position `i` of the row-major buffer.
    pub fn set(&mut self, i: usize, value: CellState)
        requires
            i < old(self)@.cells.len(),
        ensures
            final(self)@ == (Grid { cells: old(self)@.cells.update(i as int, value), ..old(self)@ }),
    {
        self.values.set(i, value);
    }

    /// Writes `value` in column `p.x` of row `p.y`.
    pub fn set_point(&mut self, p: &Point, value: CellState)
        requires
            old(self)@.wf(),
            p.x < old(self)@.width,
            p.y < old(self)@.height,
        ensures
            final(self)@ == (Grid {
                cells: old(self)@.cells.update(old(self)@.index(p.x as int, p.y as int), value),
                ..old(self)@
            }),
    {
        let i = self.index_of(p.x, p.y);
        self.values.set(i, value);
    }

    /// Row `r` of the grid, as a window into the buffer.
    fn row(&self, r: usize) -> (s: &[CellState])
        requires
            self@.wf(),
            r < self@.height,
        ensures
            s@ == self@.cells.subrange(r * self@.width, r * self@.width + self@.width),
    {
        let len = self.values.len();
        proof {
            lemma_index_coords(self.width as int, self.height as int, self.width - 1, r as int);
            assert(r * self.width + self.width <= len);
        }
        let start = r * self.width;
        vstd::slice::slice_subrange(self.values.as_slice(), start, start + self.width)
    }

    /// The block of every cell, in the order of the buffer: each cell's state
    /// with the count of live cells among its eight toroidal neighbours.
    pub fn blocks(&self) -> (r: Vec<Block>)
        requires
            self@.wf(),
        ensures
            r@.len() == self@.cells.len(),
            forall|i: int| 0 <= i < r@.len() ==> (#[trigger] r@[i]).describes(self@, i),
    {
        let ghost g = self@;
        let h = self.height;
        let w = self.width;
        let mut blocks: Vec<Block> = Vec::new();
        let mut y: usize = 0;
        while y < h
            invariant
                g == self@,
                g.wf(),
                h == g.height,
                w == g.width,
                y <= h,
                blocks@.len() == y * w,
                forall|i: int| 0 <= i < blocks@.len() ==> (#[trigger] blocks@[i]).describes(g, i),
            decreases h - y,
        {
            let py = wrap_prev(y, h);
            let ny = wrap_next(y, h);
            let prev_row = self.row(py);
            let curr_row = self.row(y);
            let next_row = self.row(ny);
            proof {
                lemma_index_coords(w as int, h as int, w - 1, py as int);
                lemma_index_coords(w as int, h as int, w - 1, y as int);
                lemma_index_coords(w as int, h as int, w - 1, ny as int);
            }
            let mut x: usize = 0;
            while x < w
                invariant
                    g == self@,
                    g.wf(),
                    h == g.height,
                    w == g.width,
                    y < h,
                    x <= w,
                    py < h,
                    ny < h,
                    py as int == (y - 1) % (h as int),
                    ny as int == (y + 1) % (h as int),
                    py * w + w <= g.cells.len(),
                    y * w + w <= g.cells.len(),
                    ny * w + w <= g.cells.len(),
                    prev_row@ == g.cells.subrange(py * w, py * w + w),
                    curr_row@ == g.cells.subrange(y * w, y * w + w),
                    next_row@ == g.cells.subrange(ny * w, ny * w + w),
                    blocks@.len() == y * w + x,
                    forall|i: int| 0 <= i < blocks@.len() ==> (#[trigger] blocks@[i]).describes(g, i),
                decreases w - x,
            {
                let px = wrap_prev(x, w);
                let nx = wrap_next(x, w);
                let live_count = prev_row[px].to_count() + prev_row[x].to_count()
                    + prev_row[nx].to_count() + curr_row[px].to_count() + curr_row[nx].to_count()
                    + next_row[px].to_count() + next_row[x].to_count() + next_row[nx].to_count();
                let block = Block { value: curr_row[x], live_count };
                proof {
                    lemma_index_coords(w as int, h as int, x as int, y as int);
                    lemma_small_mod(x as nat, w as nat);
                    lemma_small_mod(y as nat, h as nat);
                    assert(block.describes(g, y * w + x));
                }
                blocks.push(block);
                x = x + 1;
            }
            assert((y + 1) * w == y * w + w) by (nonlinear_arith);
            y = y + 1;
        }
        assert(h * w == w * h) by (nonlinear_arith);
        blocks
    }

    /// Moves the whole grid on by one generation. Every successor state is
    /// computed from the current generation before any cell is written.
    pub fn tick(&mut self)
        requires
            old(self)@.wf(),
        ensures
            final(self)@ == old(self)@.ticked(),
            final(self)@.wf(),
    {
        let ghost g = self@;
        let blocks = self.blocks();
        let mut i: usize = 0;
        while i < blocks.len()
            invariant
                g.wf(),
                self.width == g.width,
                self.height == g.height,
                blocks@.len() == g.cells.len(),
                self.values@.len() == g.cells.len(),
                forall|j: int| 0 <= j < blocks@.len() ==> (#[trigger] blocks@[j]).describes(g, j),
                forall|j: int| 0 <= j < i ==> #[trigger] self.values@[j] == g.ticked().cells[j],
            decreases blocks.len() - i,
        {
            let next = blocks[i].next_value();
            self.values.set(i, next);
            i = i + 1;
        }
        assert(self.values@ =~= g.ticked().cells);
    }

    /// Reads a grid from rows of booleans, `true` for a live cell. Fails with
    /// `TooSmall` when there are fewer than three rows or the first row has
    /// fewer than three cells, and with `Ragged` when a row's length differs
    /// from the first row's.
    pub fn from_boolean_grid(rows: Vec<Vec<bool>>) -> (r: Result<Table, TableError>)
        ensures
            r is Ok <==> is_rectangular(bool_rows(rows@)),
            r is Ok ==> r->Ok_0@ == Grid::from_bools(bool_rows(rows@)) && r->Ok_0@.wf(),
            r == Err::<Table, TableError>(TableError::TooSmall) <==> (rows@.len() < 3 || rows@[0]@.len()
                < 3),
            r == Err::<Table, TableError>(TableError::Ragged) <==> (rows@.len() >= 3 && rows@[0]@.len()
                >= 3 && !is_rectangular(bool_rows(rows@))),
    {
        let ghost g = bool_rows(rows@);
        let height = rows.len();
        if height < 3 {
            return Err(TableError::TooSmall);
        }
        let width = rows[0].len();
        assert(g[0] == rows@[0]@);
        if width < 3 {
            return Err(TableError::TooSmall);
        }
        let mut y: usize = 0;
        while y < height
            invariant
                g == bool_rows(rows@),
                height == g.len(),
                width == g[0].len(),
                width == rows@[0]@.len(),
                height == rows@.len(),
                height >= 3,
                width >= 3,
                y <= height,
                forall|j: int| 0 <= j < y ==> #[trigger] g[j].len() == width,
            decreases height - y,
        {
            assert(g[y as int] == rows@[y as int]@);
            if rows[y].len() != width {
                return Err(TableError::Ragged);
            }
            y = y + 1;
        }
        let ghost want = Grid::from_bools(g);
        proof {
            crate::grid::lemma_bools_round_trip(g);
        }
        let mut values: Vec<CellState> = Vec::new();
        let mut y: usize = 0;
        while y < height
            invariant
                g == bool_rows(rows@),
                is_rectangular(g),
                want == Grid::from_bools(g),
                height == g.len(),
                width == g[0].len(),
                y <= height,
                values@.len() == y * width,
                forall|i: int| 0 <= i < values@.len() ==> #[trigger] values@[i] == want.cells[i],
            decreases height - y,
        {
            let mut x: usize = 0;
            while x < width
                invariant
                    g == bool_rows(rows@),
                    is_rectangular(g),
                    want == Grid::from_bools(g),
                    height == g.len(),
                    width == g[0].len(),
                    y < height,
                    x <= width,
                    values@.len() == y * width + x,
                    forall|i: int| 0 <= i < values@.len() ==> #[trigger] values@[i] == want.cells[i],
                decreases width - x,
            {
                proof {
                    lemma_index_coords(width as int, height as int, x as int, y as int);
                    assert(g[y as int] == rows@[y as int]@);
                    assert(g[y as int].len() == width);
                    assert(width * height == height * width) by (nonlinear_arith);
                }
                values.push(CellState::from_bool(rows[y][x]));
                x = x + 1;
            }
            assert((y + 1) * width == y * width + width) by (nonlinear_arith);
            y = y + 1;
        }
        assert(values@ =~= want.cells);
        Ok(Table { height, width, values })
    }

    /// The grid as `height` rows of `width` booleans, `true` for a live cell.
    pub fn to_boolean_grid(&self) -> (r: Vec<Vec<bool>>)
        requires
            self@.wf(),
        ensures
            bool_rows(r@) == self@.to_bools(),
    {
        let ghost g = self@;
        let mut out: Vec<Vec<bool>> = Vec::new();
        let mut y: usize = 0;
        while y < self.height
            invariant
                g == self@,
                g.wf(),
                y <= g.height,
                out@.len() == y,
                forall|j: int| 0 <= j < y ==> #[trigger] out@[j]@ == g.to_bools()[j],
            decreases g.height - y,
        {
            let row = self.row(y);
            proof {
                lemma_index_coords(g.width as int, g.height as int, g.width - 1, y as int);
            }
            let mut line: Vec<bool> = Vec::new();
            let mut x: usize = 0;
            while x < self.width
                invariant
                    g == self@,
                    g.wf(),
                    y < g.height,
                    x <= g.width,
                    y * g.width + g.width <= g.cells.len(),
                    row@ == g.cells.subrange(y * g.width, y * g.width + g.width),
                    line@.len() == x,
                    forall|k: int| 0 <= k < x ==> #[trigger] line@[k] == g.to_bools()[y as int][k],
                decreases g.width - x,
            {
                proof {
                    lemma_index_coords(g.width as int, g.height as int, x as int, y as int);
                }
                line.push(row[x].to_bool());
                x = x + 1;
            }
            assert(line@ =~= g.to_bools()[y as int]);
            out.push(line);
            y = y + 1;
        }
        assert(bool_rows(out@) =~= g.to_bools());
        out
    }

    /// A fresh row window over the buffer.
    fn rows(&self) -> (r: Rows<'_>)
        requires
            self@.wf(),
        ensures
            r.wf(),
            r.data() == self@.cells,
            r.row_width() == self@.width,
            r.front() == 0,
            r.back() == self@.cells.len(),
    {
        proof {
            lemma_mod_multiples_basic(self.height as int, self.width as int);
            assert(self.width * self.height == self.height * self.width) by (nonlinear_arith);
        }
        Rows::new(self.values.as_slice(), self.width)
    }

    /// Appends the border line `+-`, a dash per column, `-+`, newline.
    fn push_border(&self, s: &mut String)
        ensures
            final(s)@ == old(s)@ + self@.border_text(),
    {
        proof {
            reveal_strlit("+-");
            reveal_strlit("-");
            reveal_strlit("-+\n");
        }
        s.append("+-");
        let ghost start = s@;
        let mut i: usize = 0;
        while i < self.width
            invariant
                i <= self@.width,
                s@ == start + Seq::new(i as nat, |k: int| '-'),
            decreases self@.width - i,
        {
            proof {
                reveal_strlit("-");
            }
            s.append("-");
            i = i + 1;
            assert(s@ =~= start + Seq::new(i as nat, |k: int| '-'));
        }
        s.append("-+\n");
        assert(s@ =~= old(s)@ + self@.border_text());
    }

    /// The grid drawn as a bordered block of text: a border line, one line per
    /// row with a glyph per cell between `| ` and ` |`, and a border line.
    pub fn render(&self) -> (r: String)
        requires
            self@.wf(),
        ensures
            r@ == self@.rendered(),
    {
        let ghost g = self@;
        let mut s = String::new();
        self.push_border(&mut s);
        let ghost top = s@;
        let mut rows = self.rows();
        let mut y: usize = 0;
        loop
            invariant
                g == self@,
                g.wf(),
                rows.wf(),
                rows.data() == g.cells,
                rows.row_width() == g.width,
                rows.front() == y * g.width,
                y <= g.height,
                top == g.border_text(),
                s@ == top + g.rows_text(y as nat),
            ensures
                y == g.height,
            decreases g.height - y,
        {
            match rows.next() {
                Some(row) => {
                    proof {
                        reveal_strlit("| ");
                        reveal_strlit(" |\n");
                        assert(y < g.height) by (nonlinear_arith)
                            requires
                                y * g.width < g.width * g.height,
                                g.width > 0,
                        ;
                        lemma_index_coords(g.width as int, g.height as int, g.width - 1, y as int);
                    }
                    let ghost before = s@;
                    s.append("| ");
                    let ghost mid = s@;
                    let mut x: usize = 0;
                    while x < self.width
                        invariant
                            g == self@,
                            g.wf(),
                            y < g.height,
                            x <= g.width,
                            y * g.width + g.width <= g.cells.len(),
                            row@ == g.cells.subrange(y * g.width, y * g.width + g.width),
                            s@ == mid + Seq::new(
                                x as nat,
                                |k: int| g.cell(k, y as int).glyph_spec(),
                            ),
                        decreases g.width - x,
                    {
                        s.append(row[x].glyph_str());
                        x = x + 1;
                        assert(s@ =~= mid + Seq::new(
                            x as nat,
                            |k: int| g.cell(k, y as int).glyph_spec(),
                        ));
                    }
                    s.append(" |\n");
                    assert(s@ =~= before + g.row_text(y as int));
                    assert((y + 1) * g.width == y * g.width + g.width) by (nonlinear_arith);
                    y = y + 1;
                },
                None => {
                    proof {
                        assert(y == g.height) by (nonlinear_arith)
                            requires
                                y * g.width >= g.width * g.height,
                                y <= g.height,
                                g.width > 0,
                        ;
                    }
                    break ;
                },
            }
        }
        self.push_border(&mut s);
        assert(s@ =~= g.rendered());
        s
    }

    /// Whether any cell is alive.
    pub fn is_alive(&self) -> (r: bool)
        ensures
            r == self@.any_alive(),
    {
        let mut i: usize = 0;
        while i < self.values.len()
            invariant
                i <= self@.cells.len(),
                forall|j: int| 0 <= j < i ==> !(#[trigger] self@.cells[j]).is_alive_spec(),
            decreases self@.cells.len() - i,
        {
            if self.values[i].to_bool() {
                return true;
            }
            i = i + 1;
        }
        false
    }

    /// The cells in row-major order.
    pub fn cells(&self) -> (r: &[CellState])
        ensures
            r@ == self@.cells,
    {
        self.values.as_slice()
    }
}

} // verus!
