use vstd::prelude::*;
use vstd::arithmetic::div_mod::lemma_fundamental_div_mod_converse;

use crate::cell_state::CellState;

verus! {

/// The mathematical model of a grid: `width` columns, `height` rows, and the
/// cells in row-major order, so that cell `(x, y)` sits at `y * width + x`.
pub ghost struct Grid {
    pub width: nat,
    pub height: nat,
    pub cells: Seq<CellState>,
}

/// The state a cell takes in the next generation, given its current state and
/// the number of its live neighbours.
pub open spec fn next_state(value: CellState, live_count: nat) -> CellState {
    match value {
        CellState::Alive => if live_count == 2 || live_count == 3 {
            CellState::Alive
        } else {
            CellState::Dead
        },
        CellState::Dead => if live_count == 3 {
            CellState::Alive
        } else {
            CellState::Dead
        },
    }
}

/// The rows of a nested boolean vector, each as a sequence of booleans.
pub open spec fn bool_rows(v: Seq<Vec<bool>>) -> Seq<Seq<bool>> {
    v.map_values(|r: Vec<bool>| r@)
}

/// A nested boolean grid that can become a grid: at least three rows, the
/// first of at least three columns, and every row as long as the first.
pub open spec fn is_rectangular(g: Seq<Seq<bool>>) -> bool {
    &&& g.len() >= 3
    &&& g[0].len() >= 3
    &&& forall|y: int| 0 <= y < g.len() ==> #[trigger] g[y].len() == g[0].len()
}

impl Grid {
    pub open spec fn wf(self) -> bool {
        &&& self.width >= 3
        &&& self.height >= 3
        &&& self.cells.len() == self.width * self.height
    }

    /// The grid of the given size with every cell dead.
    pub open spec fn dead(width: nat, height: nat) -> Grid {
        Grid { width, height, cells: Seq::new(width * height, |i: int| CellState::Dead) }
    }

    /// The position of cell `(x, y)` in `cells`.
    pub open spec fn index(self, x: int, y: int) -> int {
        y * self.width + x
    }

    pub open spec fn cell(self, x: int, y: int) -> CellState {
        self.cells[self.index(x, y)]
    }

    /// What the neighbour at offset `(dx, dy)` of `(x, y)` adds to its count,
    /// wrapping around both edges.
    pub open spec fn neighbor(self, x: int, y: int, dx: int, dy: int) -> nat {
        self.cell((x + dx) % (self.width as int), (y + dy) % (self.height as int)).count_spec()
    }

    /// The number of live cells among the eight toroidal neighbours of `(x, y)`.
    pub open spec fn live_count(self, x: int, y: int) -> nat {
        self.neighbor(x, y, -1, -1) + self.neighbor(x, y, 0, -1) + self.neighbor(x, y, 1, -1)
            + self.neighbor(x, y, -1, 0) + self.neighbor(x, y, 1, 0)
            + self.neighbor(x, y, -1, 1) + self.neighbor(x, y, 0, 1) + self.neighbor(x, y, 1, 1)
    }

    /// The live-neighbour count of the cell at position `i` of `cells`.
    pub open spec fn live_count_at(self, i: int) -> nat {
        self.live_count(i % (self.width as int), i / (self.width as int))
    }

    /// The next generation: every cell moves by `next_state`, all reading the
    /// current generation only.
    pub open spec fn ticked(self) -> Grid {
        Grid {
            width: self.width,
            height: self.height,
            cells: Seq::new(
                self.cells.len(),
                |i: int| next_state(self.cells[i], self.live_count_at(i)),
            ),
        }
    }

    /// Whether any cell is alive.
    pub open spec fn any_alive(self) -> bool {
        exists|i: int| 0 <= i < self.cells.len() && #[trigger] self.cells[i].is_alive_spec()
    }

    /// The grid read from a nested boolean grid, row by row.
    pub open spec fn from_bools(g: Seq<Seq<bool>>) -> Grid {
        let w = g[0].len();
        Grid {
            width: w,
            height: g.len(),
            cells: Seq::new(
                g.len() * w,
                |i: int| CellState::from_bool_spec(g[i / (w as int)][i % (w as int)]),
            ),
        }
    }

    /// The grid as `height` rows of `width` booleans, `true` for a live cell.
    pub open spec fn to_bools(self) -> Seq<Seq<bool>> {
        Seq::new(
            self.height,
            |y: int| Seq::new(self.width, |x: int| self.cell(x, y).is_alive_spec()),
        )
    }

    /// The top and bottom border: `+-`, a dash per column, `-+`, newline.
    pub open spec fn border_text(self) -> Seq<char> {
        seq!['+', '-'] + Seq::new(self.width, |i: int| '-') + seq!['-', '+', '\n']
    }

    /// Row `y` drawn between `| ` and ` |`, one glyph per cell, then a newline.
    pub open spec fn row_text(self, y: int) -> Seq<char> {
        seq!['|', ' '] + Seq::new(self.width, |x: int| self.cell(x, y).glyph_spec()) + seq![
            ' ',
            '|',
            '\n',
        ]
    }

    /// The first `n` rows drawn one after another.
    pub open spec fn rows_text(self, n: nat) -> Seq<char>
        decreases n,
    {
        if n == 0 {
            Seq::empty()
        } else {
            self.rows_text((n - 1) as nat) + self.row_text(n - 1)
        }
    }

    /// The whole grid drawn as a bordered block of text.
    pub open spec fn rendered(self) -> Seq<char> {
        self.border_text() + self.rows_text(self.height) + self.border_text()
    }
}

/// Cell `(x, y)` of a grid of width `w` sits at `y * w + x`, and that position
/// gives `(x, y)` back.
pub proof fn lemma_index_coords(w: int, h: int, x: int, y: int)
    requires
        w > 0,
        0 <= x < w,
        0 <= y < h,
    ensures
        0 <= y * w + x < w * h,
        (y * w + x) % w == x,
        (y * w + x) / w == y,
{
    lemma_fundamental_div_mod_converse(y * w + x, w, y, x);
    assert(0 <= y * w + x < w * h) by (nonlinear_arith)
        requires
            w > 0,
            0 <= x < w,
            0 <= y < h,
    ;
}

/// Reading a rectangular boolean grid into a grid and writing it back out gives
/// the same booleans.
pub proof fn lemma_bools_round_trip(g: Seq<Seq<bool>>)
    requires
        is_rectangular(g),
    ensures
        Grid::from_bools(g).wf(),
        Grid::from_bools(g).to_bools() == g,
{
    let t = Grid::from_bools(g);
    let w = g[0].len() as int;
    let h = g.len() as int;
    assert(t.cells.len() == t.width * t.height) by (nonlinear_arith)
        requires
            t.cells.len() == h * w,
            t.width == w,
            t.height == h,
    ;
    assert forall|y: int, x: int| 0 <= y < h && 0 <= x < w implies #[trigger] t.to_bools()[y][x]
        == g[y][x] by {
        lemma_index_coords(w, h, x, y);
        assert(g[y].len() == w);
    }
    assert forall|y: int| 0 <= y < h implies #[trigger] t.to_bools()[y] == g[y] by {
        assert(g[y].len() == w);
        assert(t.to_bools()[y] =~= g[y]);
    }
    assert(t.to_bools() =~= g);
}

/// In the next generation, cell `(x, y)` follows the rules of the game on its
/// current state and live-neighbour count: a live cell with fewer than two or
/// more than three live neighbours dies, one with two or three lives on, and a
/// dead cell comes to life with exactly three and stays dead otherwise.
pub proof fn lemma_ticked_cell(g: Grid, x: int, y: int)
    requires
        g.wf(),
        0 <= x < g.width,
        0 <= y < g.height,
    ensures
        g.ticked().wf(),
        g.ticked().cell(x, y) == next_state(g.cell(x, y), g.live_count(x, y)),
        g.cell(x, y) == CellState::Alive && (g.live_count(x, y) < 2 || g.live_count(x, y) > 3)
            ==> g.ticked().cell(x, y) == CellState::Dead,
        g.cell(x, y) == CellState::Alive && (g.live_count(x, y) == 2 || g.live_count(x, y) == 3)
            ==> g.ticked().cell(x, y) == CellState::Alive,
        g.cell(x, y) == CellState::Dead && g.live_count(x, y) == 3 ==> g.ticked().cell(x, y)
            == CellState::Alive,
        g.cell(x, y) == CellState::Dead && g.live_count(x, y) != 3 ==> g.ticked().cell(x, y)
            == CellState::Dead,
{
    lemma_index_coords(g.width as int, g.height as int, x, y);
}

} // verus!
