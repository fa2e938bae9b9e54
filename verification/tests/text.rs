use game_of_life::{Cell, Universe};

#[test]
fn render_two_by_two() {
    let cells = vec![Cell::Alive, Cell::Dead, Cell::Dead, Cell::Alive];
    let universe = Universe::from_cells(2, 2, cells).expect("a grid");
    assert_eq!(universe.render(), "[x][ ]\n[ ][x]\n");
}

#[test]
fn render_single_cells() {
    let dead = Universe::from_cells(1, 1, vec![Cell::Dead]).expect("a grid");
    assert_eq!(dead.render(), "[ ]\n");
    let alive = Universe::from_cells(1, 1, vec![Cell::Alive]).expect("a grid");
    assert_eq!(alive.render(), "[x]\n");
}

#[test]
fn render_breaks_lines_by_width() {
    let cells = vec![Cell::Alive, Cell::Alive, Cell::Dead, Cell::Dead, Cell::Dead, Cell::Alive];
    let wide = Universe::from_cells(3, 2, cells.clone()).expect("a grid");
    assert_eq!(wide.render(), "[x][x][ ]\n[ ][ ][x]\n");
    let tall = Universe::from_cells(2, 3, cells.clone()).expect("a grid");
    assert_eq!(tall.render(), "[x][x]\n[ ][ ]\n[ ][x]\n");
    let row = Universe::from_cells(6, 1, cells.clone()).expect("a grid");
    assert_eq!(row.render(), "[x][x][ ][ ][ ][x]\n");
    let column = Universe::from_cells(1, 6, cells).expect("a grid");
    assert_eq!(column.render(), "[x]\n[x]\n[ ]\n[ ]\n[ ]\n[x]\n");
}

#[test]
fn render_of_the_seed() {
    let universe = Universe::new();
    let text = universe.render();
    assert_eq!(text.len(), 64 * (3 * 64 + 1));
    let lines: Vec<&str> = text.lines().collect();
    assert_eq!(lines.len(), 64);
    assert!(text.ends_with('\n'));
    assert!(lines[0].starts_with("[x][ ][x][ ][x][ ][x][x][x][ ][x]"));
    for (row, line) in lines.iter().enumerate() {
        assert_eq!(line.len(), 3 * 64);
        for col in 0..64 {
            let index = row * 64 + col;
            let glyph = if index % 2 == 0 || index % 7 == 0 { "[x]" } else { "[ ]" };
            assert_eq!(&line[3 * col..3 * col + 3], glyph, "row {} column {}", row, col);
        }
    }
}

#[test]
fn render_does_not_change_the_universe() {
    let universe = Universe::new();
    let before = universe.cells().to_vec();
    let first = universe.render();
    let second = universe.render();
    assert_eq!(first, second);
    assert_eq!(universe.cells(), &before[..]);
}

#[test]
fn render_follows_tick() {
    let cells = vec![
        Cell::Dead, Cell::Dead, Cell::Dead, Cell::Dead,
        Cell::Alive, Cell::Alive, Cell::Alive, Cell::Dead,
        Cell::Dead, Cell::Dead, Cell::Dead, Cell::Dead,
        Cell::Dead, Cell::Dead, Cell::Dead, Cell::Dead,
    ];
    let mut universe = Universe::from_cells(4, 4, cells).expect("a grid");
    assert_eq!(universe.render(), "[ ][ ][ ][ ]\n[x][x][x][ ]\n[ ][ ][ ][ ]\n[ ][ ][ ][ ]\n");
    universe.tick();
    assert_eq!(universe.render(), "[ ][x][ ][ ]\n[ ][x][ ][ ]\n[ ][x][ ][ ]\n[ ][ ][ ][ ]\n");
}
