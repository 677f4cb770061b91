//! Conway's Game of Life on a toroidal (edge-wrapping) grid, with every
//! operation proved against a mathematical model of the grid.

pub mod cell_state;
pub mod grid;
pub mod point;
pub mod rows;
pub mod table;

pub use cell_state::CellState;
pub use grid::Grid;
pub use point::Point;
pub use rows::Rows;
pub use table::{Block, Table, TableError};

use vstd::prelude::*;

verus! {

/// A `width × height` table whose cells are read from `values` in row-major
/// order: 1 is alive, any other byte dead.
pub fn create_table(values: Box<[u8]>, width: u32, height: u32) -> (r: Table)
    requires
        width >= 3,
        height >= 3,
        values@.len() == width * height,
    ensures
        r@.wf(),
        r@.width == width,
        r@.height == height,
        r@.cells == values@.map_values(|v: u8| CellState::from_u8_spec(v)),
{
    let len = values.len();
    let mut table = Table::of_size(width, height);
    let mut i: usize = 0;
    while i < len
        invariant
            len == values@.len(),
            table@.wf(),
            table@.width == width,
            table@.height == height,
            table@.cells.len() == len,
            forall|j: int| 0 <= j < i ==> #[trigger] table@.cells[j] == CellState::from_u8_spec(values@[j]),
        decreases len - i,
    {
        table.set(i, CellState::from_u8(values[i]));
        i = i + 1;
    }
    assert(table@.cells =~= values@.map_values(|v: u8| CellState::from_u8_spec(v)));
    table
}

} // verus!
