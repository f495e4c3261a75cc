use life::grid::Grid;
use life::sim::{display_grid, update_cells};

fn dead_grid(width: i32, height: i32) -> Grid {
    let mut g = Grid::new(width, height);
    g.fill();
    g
}

fn alive_indices(g: &Grid) -> Vec<usize> {
    g.data
        .iter()
        .enumerate()
        .filter(|(_, c)| c.is_alive)
        .map(|(i, _)| i)
        .collect()
}

#[test]
fn blinker_turns_horizontal() {
    // vertical blinker in the middle column of a bounded 3x3 grid
    let mut g = dead_grid(3, 3);
    g.data[1].is_alive = true;
    g.data[4].is_alive = true;
    g.data[7].is_alive = true;
    // the dead left-middle cell sees all three; the top of the blinker
    // sees only the middle
    assert_eq!(g.cell_neighbors(3), 3);
    assert_eq!(g.cell_neighbors(1), 1);
    update_cells(&mut g);
    // the blinker now runs horizontally through the middle row
    assert_eq!(alive_indices(&g), vec![3, 4, 5]);
}

#[test]
fn blinker_swings_back() {
    let mut g = dead_grid(3, 3);
    g.data[1].is_alive = true;
    g.data[4].is_alive = true;
    g.data[7].is_alive = true;
    update_cells(&mut g);
    update_cells(&mut g);
    assert_eq!(alive_indices(&g), vec![1, 4, 7]);
}

#[test]
fn isolated_cell_dies() {
    let mut g = dead_grid(3, 3);
    g.data[4].is_alive = true;
    assert_eq!(g.cell_neighbors(4), 0);
    update_cells(&mut g);
    assert_eq!(alive_indices(&g), Vec::<usize>::new());
}

#[test]
fn all_dead_stays_all_dead() {
    let mut g = dead_grid(4, 4);
    update_cells(&mut g);
    assert_eq!(alive_indices(&g), Vec::<usize>::new());
}

#[test]
fn update_preserves_row_major_order() {
    let mut g = dead_grid(3, 2);
    g.data[0].is_alive = true;
    g.data[1].is_alive = true;
    let before: Vec<(i32, i32)> = g.data.iter().map(|c| (c.position.x, c.position.y)).collect();
    update_cells(&mut g);
    let after: Vec<(i32, i32)> = g.data.iter().map(|c| (c.position.x, c.position.y)).collect();
    assert_eq!(before, after);
}

#[test]
fn two_live_neighbors_leave_a_cell_unchanged() {
    // in a 3x1 row with live ends, the middle cell has exactly two live
    // neighbors and the ends one each
    let mut g = dead_grid(3, 1);
    g.data[0].is_alive = true;
    g.data[2].is_alive = true;
    assert_eq!(g.cell_neighbors(1), 2);
    update_cells(&mut g);
    // the dead middle cell stays dead under count 2, the ends die
    assert_eq!(alive_indices(&g), Vec::<usize>::new());
}

#[test]
fn render_marks_rows_and_glyphs() {
    let mut g = dead_grid(2, 2);
    g.data[1].is_alive = true;
    let out = display_grid(&g);
    let dead = " \x1b[31m.\x1b[0m ";
    let live = " \x1b[32m#\x1b[0m ";
    let expected = format!("{dead}{live}\n{dead}{dead}");
    assert_eq!(out, expected);
}

#[test]
fn render_single_row_has_no_break() {
    let g = dead_grid(3, 1);
    let out = display_grid(&g);
    let dead = " \x1b[31m.\x1b[0m ";
    assert_eq!(out, format!("{dead}{dead}{dead}"));
}
