use wasm_rs::{create_table, CellState, Point, Table, TableError};

fn alive_at(table: &Table, cells: &[usize]) -> bool {
    cells.iter().all(|&i| table.at(i) == CellState::Alive)
}

fn alive_count(table: &Table) -> usize {
    table.cells().iter().filter(|c| **c == CellState::Alive).count()
}

#[test]
fn can_create_table_of_n_size() {
    let table = Table::new(42);

    assert_eq!(table.height(), 42);
    assert_eq!(table.width(), 42);
}

#[test]
fn can_convert_to_blocks() {
    let table = Table::new(5);
    let blocks = table.blocks();

    assert_eq!(blocks.len(), 5 * 5);
}

#[test]
fn count_is_correct() {
    let mut table = Table::new(5);

    table.set(0, CellState::Alive);
    table.set(24, CellState::Alive);

    let blocks = table.blocks();

    assert_eq!(blocks.len(), 5 * 5);
    assert_eq!(blocks[0].live_count, 1);
    assert_eq!(blocks[1].live_count, 1);
    assert_eq!(blocks[2].live_count, 0);
    assert_eq!(blocks[5].live_count, 1);
    assert_eq!(blocks[6].live_count, 1);
    assert_eq!(blocks[7].live_count, 0);

    assert_eq!(blocks[24].live_count, 1);
    assert_eq!(blocks[23].live_count, 1);
}

#[test]
fn can_tick_block_table_to_table() {
    let mut table = Table::new(5);
    table.tick();

    assert_eq!(table.width(), 5);
    assert_eq!(table.height(), 5);
    assert_eq!(table.cells().len(), 25);
}

#[test]
fn tick_calc_is_correct() {
    let mut table = Table::new(5);

    table.set(0, CellState::Alive);
    table.set(5, CellState::Alive);
    table.set(10, CellState::Alive);
    table.set(15, CellState::Alive);
    table.set(20, CellState::Alive);

    table.tick();

    assert_eq!(table.len(), 5 * 5);

    assert_eq!(table.at(0), CellState::Alive);
    assert_eq!(table.at(5), CellState::Alive);
    assert_eq!(table.at(10), CellState::Alive);
    assert_eq!(table.at(15), CellState::Alive);
    assert_eq!(table.at(20), CellState::Alive);

    assert_eq!(table.at(1), CellState::Alive);
    assert_eq!(table.at(6), CellState::Alive);
    assert_eq!(table.at(11), CellState::Alive);
    assert_eq!(table.at(16), CellState::Alive);
    assert_eq!(table.at(21), CellState::Alive);

    assert_eq!(table.at(4), CellState::Alive);
    assert_eq!(table.at(9), CellState::Alive);
    assert_eq!(table.at(14), CellState::Alive);
    assert_eq!(table.at(19), CellState::Alive);
    assert_eq!(table.at(24), CellState::Alive);
}

#[test]
fn can_convert_string() {
    let table = Table::new(5);

    let s = table.render();

    assert_eq!(s.lines().count(), 7);
}

#[test]
fn main() {
    let mut rows: Vec<Vec<bool>> = (0..5).map(|_| (0..10).map(|_| false).collect()).collect();

    rows[0][0] = true;
    rows[1][0] = true;
    rows[2][0] = true;
    rows[3][0] = true;
    rows[4][0] = true;

    let mut table = Table::from_boolean_grid(rows).unwrap();

    for _ in 0..10 {
        println!("{}", table.render());
        table.tick();
    }
}

#[test]
fn of_size_is_all_dead() {
    let table = Table::of_size(4, 3);
    assert_eq!(table.width(), 4);
    assert_eq!(table.height(), 3);
    assert_eq!(table.cells().len(), 12);
    assert!(table.cells().iter().all(|c| *c == CellState::Dead));
    assert!(!table.is_alive());
}

#[test]
fn smallest_table_is_three_by_three() {
    let table = Table::of_size(3, 3);
    assert_eq!(table.len(), 9);
    let square = Table::new(3);
    assert_eq!(square.len(), 9);
}

#[test]
fn neighbor_counts_wrap_around_both_edges() {
    let mut table = Table::new(5);
    table.set_point(&Point::new(0, 0), CellState::Alive);
    table.set_point(&Point::new(4, 4), CellState::Alive);
    let blocks = table.blocks();
    let count = |x: usize, y: usize| blocks[y * 5 + x].live_count;
    assert_eq!(count(1, 1), 1);
    assert_eq!(count(0, 1), 1);
    assert_eq!(count(1, 0), 1);
    assert_eq!(count(3, 3), 1);
    assert_eq!(count(4, 0), 2);
    assert_eq!(count(0, 4), 2);
    assert_eq!(count(2, 2), 0);
    assert_eq!(count(2, 0), 0);
    assert_eq!(count(0, 2), 0);
    assert_eq!(count(2, 3), 0);
    assert_eq!(blocks[0].value, CellState::Alive);
    assert_eq!(blocks[1].value, CellState::Dead);
}

#[test]
fn block_still_life_is_unchanged() {
    let mut table = Table::new(6);
    for &(x, y) in &[(1, 1), (2, 1), (1, 2), (2, 2)] {
        table.set_point(&Point::new(x, y), CellState::Alive);
    }
    let blocks = table.blocks();
    for &i in &[7, 8, 13, 14] {
        assert_eq!(blocks[i].live_count, 3);
    }
    let before = table.to_boolean_grid();
    table.tick();
    assert_eq!(table.to_boolean_grid(), before);
    table.tick();
    assert_eq!(table.to_boolean_grid(), before);
}

#[test]
fn full_column_spreads_to_its_neighbours() {
    let mut table = Table::new(5);
    for y in 0..5 {
        table.set_point(&Point::new(0, y), CellState::Alive);
    }
    table.tick();
    for y in 0..5 {
        assert_eq!(table.get(0, y), CellState::Alive);
        assert_eq!(table.get(1, y), CellState::Alive);
        assert_eq!(table.get(4, y), CellState::Alive);
        assert_eq!(table.get(2, y), CellState::Dead);
        assert_eq!(table.get(3, y), CellState::Dead);
    }
}

#[test]
fn lonely_cell_dies() {
    let mut table = Table::new(5);
    table.set_point(&Point::new(2, 2), CellState::Alive);
    assert!(table.is_alive());
    table.tick();
    assert_eq!(table.get(2, 2), CellState::Dead);
    assert!(!table.is_alive());
}

#[test]
fn crowded_cell_dies() {
    let mut table = Table::new(5);
    for y in 1..4 {
        for x in 1..4 {
            table.set_point(&Point::new(x, y), CellState::Alive);
        }
    }
    assert_eq!(table.blocks()[2 * 5 + 2].live_count, 8);
    table.tick();
    assert_eq!(table.get(2, 2), CellState::Dead);
    // corners of the square keep three neighbours and live on
    assert_eq!(table.get(1, 1), CellState::Alive);
    assert_eq!(table.get(3, 3), CellState::Alive);
    // edge middles have five and die
    assert_eq!(table.get(2, 1), CellState::Dead);
}

#[test]
fn dead_cell_with_three_neighbours_is_born() {
    let mut table = Table::new(5);
    for &(x, y) in &[(1, 1), (2, 1), (3, 1)] {
        table.set_point(&Point::new(x, y), CellState::Alive);
    }
    assert_eq!(table.blocks()[2 * 5 + 2].live_count, 3);
    table.tick();
    assert_eq!(table.get(2, 2), CellState::Alive);
}

#[test]
fn dead_cell_with_two_neighbours_stays_dead() {
    let mut table = Table::new(5);
    table.set_point(&Point::new(1, 1), CellState::Alive);
    table.set_point(&Point::new(3, 1), CellState::Alive);
    assert_eq!(table.blocks()[2 * 5 + 2].live_count, 2);
    table.tick();
    assert_eq!(table.get(2, 2), CellState::Dead);
}

#[test]
fn dead_cell_with_four_neighbours_stays_dead() {
    let mut table = Table::new(5);
    for &(x, y) in &[(1, 1), (3, 1), (1, 3), (3, 3)] {
        table.set_point(&Point::new(x, y), CellState::Alive);
    }
    assert_eq!(table.blocks()[2 * 5 + 2].live_count, 4);
    table.tick();
    assert_eq!(table.get(2, 2), CellState::Dead);
}

#[test]
fn live_cell_with_two_neighbours_survives() {
    let mut table = Table::new(5);
    for &(x, y) in &[(1, 2), (2, 2), (3, 2)] {
        table.set_point(&Point::new(x, y), CellState::Alive);
    }
    table.tick();
    assert_eq!(table.get(2, 2), CellState::Alive);
    assert_eq!(table.get(2, 1), CellState::Alive);
    assert_eq!(table.get(2, 3), CellState::Alive);
    assert_eq!(table.get(1, 2), CellState::Dead);
    assert_eq!(table.get(3, 2), CellState::Dead);
    assert_eq!(alive_count(&table), 3);
}

#[test]
fn render_fresh_five_by_five_has_seven_lines() {
    let table = Table::new(5);
    let text = table.render();
    let lines: Vec<&str> = text.lines().collect();
    assert_eq!(lines.len(), 7);
    assert_eq!(lines[0], "+-------+");
    assert_eq!(lines[1], "|       |");
    assert_eq!(lines[6], "+-------+");
}

#[test]
fn render_draws_live_cells() {
    let mut table = Table::of_size(4, 3);
    table.set_point(&Point::new(1, 1), CellState::Alive);
    table.set_point(&Point::new(3, 2), CellState::Alive);
    assert_eq!(
        table.render(),
        "+------+\n|      |\n|  *   |\n|    * |\n+------+\n"
    );
}

#[test]
fn boolean_grid_round_trip() {
    let g = vec![
        vec![true, false, false, true],
        vec![false, true, false, false],
        vec![false, false, true, true],
    ];
    let table = Table::from_boolean_grid(g.clone()).unwrap();
    assert_eq!(table.width(), 4);
    assert_eq!(table.height(), 3);
    assert_eq!(table.get(0, 0), CellState::Alive);
    assert_eq!(table.get(3, 0), CellState::Alive);
    assert_eq!(table.get(1, 1), CellState::Alive);
    assert_eq!(table.get(1, 0), CellState::Dead);
    assert!(alive_at(&table, &[0, 3, 5, 10, 11]));
    assert_eq!(alive_count(&table), 5);
    assert_eq!(table.to_boolean_grid(), g);
}

#[test]
fn boolean_grid_with_too_few_rows_is_refused() {
    let g = vec![vec![true, false, true], vec![false, false, false]];
    assert_eq!(Table::from_boolean_grid(g).err(), Some(TableError::TooSmall));
    assert_eq!(Table::from_boolean_grid(Vec::new()).err(), Some(TableError::TooSmall));
}

#[test]
fn boolean_grid_with_narrow_rows_is_refused() {
    let g = vec![vec![true, false], vec![false, false], vec![true, true]];
    assert_eq!(Table::from_boolean_grid(g).err(), Some(TableError::TooSmall));
}

#[test]
fn ragged_boolean_grid_is_refused() {
    let g = vec![
        vec![true, false, true],
        vec![false, false, false, true],
        vec![true, true, true],
    ];
    assert_eq!(Table::from_boolean_grid(g).err(), Some(TableError::Ragged));
    let short = vec![vec![true, false, true], vec![false, false, false], vec![true, true]];
    assert_eq!(Table::from_boolean_grid(short).err(), Some(TableError::Ragged));
}

#[test]
fn set_and_get_by_index_and_point() {
    let mut table = Table::of_size(5, 4);
    table.set(7, CellState::Alive);
    assert_eq!(table.get(2, 1), CellState::Alive);
    table.set_point(&Point::new(4, 3), CellState::Alive);
    assert_eq!(table.at(19), CellState::Alive);
    table.set(7, CellState::Dead);
    assert_eq!(table.get(2, 1), CellState::Dead);
    assert_eq!(alive_count(&table), 1);
}

#[test]
fn create_table_reads_bytes() {
    let bytes: Vec<u8> = vec![1, 0, 0, 0, 1, 0, 2, 0, 1];
    let table = create_table(bytes.into_boxed_slice(), 3, 3);
    assert_eq!(table.width(), 3);
    assert_eq!(table.height(), 3);
    assert!(alive_at(&table, &[0, 4, 8]));
    assert_eq!(alive_count(&table), 3);
    assert_eq!(table.at(6), CellState::Dead);
}

#[test]
fn rectangular_grid_ticks_with_wraparound() {
    let mut table = Table::of_size(6, 3);
    for x in 0..6 {
        table.set_point(&Point::new(x, 1), CellState::Alive);
    }
    table.tick();
    // every cell sees the full row: cells in it have two live neighbours,
    // cells above and below have three
    assert_eq!(alive_count(&table), 18);
}
