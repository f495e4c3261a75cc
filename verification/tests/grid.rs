use life::grid::{Cell, Grid, Position};

fn dead_grid(width: i32, height: i32) -> Grid {
    let mut g = Grid::new(width, height);
    g.fill();
    g
}

#[test]
fn fill_is_row_major_and_dead() {
    let g = dead_grid(3, 2);
    assert_eq!(g.data.len(), 6);
    let expected = [(0, 0), (1, 0), (2, 0), (0, 1), (1, 1), (2, 1)];
    for (i, (x, y)) in expected.iter().enumerate() {
        assert_eq!(g.data[i].position.x, *x);
        assert_eq!(g.data[i].position.y, *y);
        assert!(!g.data[i].is_alive);
    }
}

#[test]
fn fill_random_is_row_major() {
    let mut g = Grid::new(4, 3);
    g.fill_random();
    assert_eq!(g.data.len(), 12);
    for (i, cell) in g.data.iter().enumerate() {
        assert_eq!(cell.position.x, i as i32 % 4);
        assert_eq!(cell.position.y, i as i32 / 4);
    }
}

#[test]
fn new_grid_is_empty() {
    let g = Grid::new(5, 5);
    assert_eq!(g.data.len(), 0);
    assert_eq!(g.width, 5);
    assert_eq!(g.height, 5);
}

#[test]
fn add_cell_appends() {
    let mut g = Grid::new(1, 1);
    g.add_cell(Cell {
        position: Position { x: 0, y: 0 },
        is_alive: true,
    });
    assert_eq!(g.data.len(), 1);
    assert!(g.data[0].is_alive);
}

#[test]
fn find_cell_in_bounds() {
    let mut g = dead_grid(3, 3);
    g.data[4].is_alive = true;
    let c = g.find_cell(Position { x: 1, y: 1 }).expect("cell exists");
    assert_eq!(c.position.x, 1);
    assert_eq!(c.position.y, 1);
    assert!(c.is_alive);
}

#[test]
fn find_cell_out_of_bounds() {
    let g = dead_grid(3, 3);
    assert!(g.find_cell(Position { x: -1, y: 0 }).is_none());
    assert!(g.find_cell(Position { x: 0, y: -1 }).is_none());
    assert!(g.find_cell(Position { x: 3, y: 0 }).is_none());
    assert!(g.find_cell(Position { x: 0, y: 3 }).is_none());
}

#[test]
fn neighbor_count_bounds_on_full_grid() {
    let mut g = dead_grid(3, 3);
    for cell in g.data.iter_mut() {
        cell.is_alive = true;
    }
    // corner, edge, interior of an all-live bounded grid
    assert_eq!(g.cell_neighbors(0), 3);
    assert_eq!(g.cell_neighbors(1), 5);
    assert_eq!(g.cell_neighbors(4), 8);
}

#[test]
fn neighbor_count_does_not_wrap() {
    let mut g = dead_grid(3, 3);
    // live cells in the rightmost column; the leftmost column must not see
    // them as neighbors through a wraparound
    g.data[2].is_alive = true;
    g.data[5].is_alive = true;
    g.data[8].is_alive = true;
    assert_eq!(g.cell_neighbors(0), 0);
    assert_eq!(g.cell_neighbors(3), 0);
    assert_eq!(g.cell_neighbors(6), 0);
    assert_eq!(g.cell_neighbors(5), 2);
}
