use cctiles::config::Config;
use cctiles::grid::{
    layout_tiles, on_key, tile_row, tile_title, Area, Key, Step, GRID_COLS, GRID_ROWS,
};

fn press(focused: (usize, usize), key: Key) -> (usize, usize) {
    match on_key(focused, key, true) {
        Step::Focus(row, col) => (row, col),
        Step::Quit => panic!("quit"),
    }
}

#[test]
fn q_quits_when_pressed() {
    assert_eq!(on_key((1, 2), Key::Char('q'), true), Step::Quit);
    assert_eq!(on_key((1, 2), Key::Char('q'), false), Step::Focus(1, 2));
}

#[test]
fn arrows_move_by_one_tile() {
    assert_eq!(press((0, 1), Key::Down), (1, 1));
    assert_eq!(press((1, 1), Key::Up), (0, 1));
    assert_eq!(press((0, 1), Key::Right), (0, 2));
    assert_eq!(press((0, 1), Key::Left), (0, 0));
}

#[test]
fn letters_move_as_arrows_do() {
    for row in 0..GRID_ROWS {
        for col in 0..GRID_COLS {
            let focused = (row, col);
            assert_eq!(press(focused, Key::Char('k')), press(focused, Key::Up));
            assert_eq!(press(focused, Key::Char('j')), press(focused, Key::Down));
            assert_eq!(press(focused, Key::Char('h')), press(focused, Key::Left));
            assert_eq!(press(focused, Key::Char('l')), press(focused, Key::Right));
        }
    }
}

#[test]
fn the_focus_stops_at_the_edges() {
    assert_eq!(press((0, 0), Key::Up), (0, 0));
    assert_eq!(press((0, 0), Key::Left), (0, 0));
    assert_eq!(press((GRID_ROWS - 1, 0), Key::Down), (GRID_ROWS - 1, 0));
    assert_eq!(press((0, GRID_COLS - 1), Key::Right), (0, GRID_COLS - 1));
}

#[test]
fn a_move_and_its_opposite_lead_back() {
    assert_eq!(press(press((0, 1), Key::Down), Key::Up), (0, 1));
    assert_eq!(press(press((0, 1), Key::Right), Key::Left), (0, 1));
    assert_eq!(press(press((1, 1), Key::Up), Key::Down), (1, 1));
    assert_eq!(press(press((1, 1), Key::Left), Key::Right), (1, 1));
}

#[test]
fn other_keys_and_releases_do_nothing() {
    assert_eq!(press((1, 1), Key::Char('x')), (1, 1));
    assert_eq!(press((1, 1), Key::Other), (1, 1));
    assert_eq!(on_key((1, 1), Key::Up, false), Step::Focus(1, 1));
}

#[test]
fn titles_give_the_place_of_a_tile() {
    assert_eq!(tile_title(0, 0), " Tile 0,0 ");
    assert_eq!(tile_title(1, 12), " Tile 1,12 ");
}

#[test]
fn a_row_of_tiles_highlights_the_focused_one() {
    let areas = [
        Area { x: 0, y: 5, width: 4, height: 2 },
        Area { x: 4, y: 5, width: 6, height: 2 },
    ];
    let tiles = tile_row(1, &areas, (1, 1));
    assert_eq!(tiles.len(), 2);
    assert_eq!(tiles[0].area, areas[0]);
    assert_eq!(tiles[0].title, " Tile 1,0 ");
    assert!(!tiles[0].highlighted);
    assert_eq!(tiles[1].area, areas[1]);
    assert_eq!(tiles[1].title, " Tile 1,1 ");
    assert!(tiles[1].highlighted);
}

#[test]
fn the_grid_fills_the_screen() {
    let whole = Area { x: 2, y: 1, width: 90, height: 40 };
    let grid = layout_tiles(whole, (1, 2));
    assert_eq!(grid.len(), GRID_ROWS);
    for (row, tiles) in grid.iter().enumerate() {
        assert_eq!(tiles.len(), GRID_COLS);
        for (col, tile) in tiles.iter().enumerate() {
            let area = Area { x: 2 + 30 * col as u16, y: 1 + 20 * row as u16, width: 30, height: 20 };
            assert_eq!(tile.area, area);
            assert_eq!(tile.title, format!(" Tile {row},{col} "));
            assert_eq!(tile.highlighted, (row, col) == (1, 2));
        }
    }
}

fn assert_even_split(parts: &[(u16, u16)], start: u16, len: u16) {
    let total = len.min(u16::MAX - start);
    let n = parts.len() as i64;
    let mut at = start;
    for (from, length) in parts {
        assert_eq!(*from, at);
        assert!((n * i64::from(*length) - i64::from(total)).abs() <= n);
        at += length;
    }
    assert_eq!(at, start + total);
}

#[test]
fn areas_of_any_size_are_split_evenly() {
    let sizes = [0, 1, 2, 3, 4, 5, 6, 7, 10, 23, 24, 79, 80, 100, 211, 1000, 9999, 32767, 65534, 65535];
    for start in [0, 1, 2, 3, 77, 500, 40000, 65530, 65535] {
        for width in sizes {
            for height in [width, 0, 1, 25, 65535] {
                let grid = layout_tiles(Area { x: start, y: start, width, height }, (0, 0));
                let rows: Vec<_> = grid.iter().map(|t| (t[0].area.y, t[0].area.height)).collect();
                assert_even_split(&rows, start, height);
                for tiles in &grid {
                    let cols: Vec<_> = tiles.iter().map(|t| (t.area.x, t.area.width)).collect();
                    assert_even_split(&cols, start, width);
                    assert!(tiles.iter().all(|t| (t.area.y, t.area.height)
                        == (tiles[0].area.y, tiles[0].area.height)));
                }
            }
        }
    }
}

#[test]
fn every_width_up_to_a_few_hundred_is_split_evenly() {
    for size in 0..400 {
        let grid = layout_tiles(Area { x: size % 5, y: size % 3, width: size, height: size }, (0, 0));
        let rows: Vec<_> = grid.iter().map(|t| (t[0].area.y, t[0].area.height)).collect();
        assert_even_split(&rows, size % 3, size);
        let cols: Vec<_> = grid[1].iter().map(|t| (t.area.x, t.area.width)).collect();
        assert_even_split(&cols, size % 5, size);
    }
}

#[test]
fn a_configuration_holds_the_layout() {
    let config = Config { rows: 2, cols: 3, tile_dirs: vec!["/proj".to_string()] };
    assert_eq!(config.rows * config.cols, 6);
    assert_eq!(config.tile_dirs, vec!["/proj"]);
    assert_eq!(config.clone().tile_dirs, config.tile_dirs);
}
