use tilescript::SplitDirection;
use tilescript::Tile;
use tilescript::TileGrid;
use tilescript::Window;

fn win(id: i32) -> Window {
    Window { id, name: format!("w{}", id) }
}

#[test]
fn first_split_fills_the_grid() {
    let mut g = TileGrid::new();
    g.split(win(1));
    assert_eq!(g.rows, 1);
    assert_eq!(g.columns, 1);
    assert_eq!(g.focused_window_id, Some(1));
    assert_eq!(g.tiles.len(), 1);
    assert_eq!(g.tiles[0].row, None);
    assert_eq!(g.tiles[0].column, None);
}

#[test]
fn vertical_split_adds_a_column() {
    let mut g = TileGrid::new();
    g.split(win(1));
    g.split(win(2));
    assert_eq!(g.columns, 2);
    assert_eq!(g.focused_window_id, Some(2));
    assert_eq!(g.tiles[0].column, Some(1));
    assert_eq!(g.tiles[1].column, Some(2));
}

#[test]
fn horizontal_split_adds_a_row() {
    let mut g = TileGrid::new();
    g.split(win(1));
    g.set_focused_split_direction(SplitDirection::Horizontal);
    g.split(win(2));
    assert_eq!(g.rows, 1 + 1);
    assert_eq!(g.tiles[0].row, Some(1));
    assert_eq!(g.tiles[1].row, Some(2));
}

#[test]
fn splitting_a_known_window_changes_nothing() {
    let mut g = TileGrid::new();
    g.split(win(1));
    let before = g.tiles.len();
    g.split(win(1));
    assert_eq!(g.tiles.len(), before);
}

#[test]
fn get_focused_tile_finds_the_tile() {
    let mut g = TileGrid::new();
    g.split(win(7));
    let t = g.get_focused_tile().unwrap();
    assert_eq!(t.window.id, 7);
}

#[test]
fn get_focused_tile_mut_writes_through() {
    let mut g = TileGrid::new();
    g.split(win(7));
    if let Some(t) = g.get_focused_tile_mut() {
        t.split_direction = SplitDirection::Horizontal;
    }
    assert_eq!(g.tiles[0].split_direction, SplitDirection::Horizontal);
}

#[test]
fn close_collapses_an_empty_column() {
    let mut g = TileGrid::new();
    g.split(win(1));
    g.split(win(2));
    let removed = g.close_tile_by_window_id(2).unwrap();
    assert_eq!(removed.window.id, 2);
    assert_eq!(g.columns, 1);
    assert_eq!(g.tiles.len(), 1);
}

#[test]
fn close_unknown_window_returns_none() {
    let mut g = TileGrid::new();
    g.split(win(1));
    assert!(g.close_tile_by_window_id(99).is_none());
}

#[test]
fn focus_moves_right_and_left() {
    let mut g = TileGrid::new();
    g.split(win(1));
    g.split(win(2));
    assert_eq!(g.focused_window_id, Some(2));
    assert_eq!(g.focus_left(), Some(1));
    assert_eq!(g.focused_window_id, Some(1));
    assert_eq!(g.focus_right(), Some(2));
    assert_eq!(g.focused_window_id, Some(2));
    assert_eq!(g.focus_right(), None);
}

#[test]
fn apply_resolution_keeps_title_bar_margins() {
    let mut g = TileGrid::new();
    let hide = g.apply_resolution(1920, 1080, 5, 1040, 1080, false, false);
    assert!(!hide);
    assert_eq!(g.width, 1920 + 15);
    assert_eq!(g.height, 1080 - 20 + 9 - (1080 - 1040));
    assert_eq!(g.taskbar_window, 5);
}

#[test]
fn apply_resolution_can_hide_the_taskbar() {
    let mut g = TileGrid::new();
    let hide = g.apply_resolution(800, 600, 5, 560, 600, true, true);
    assert!(hide);
    assert_eq!(g.height, 600 - 20);
    assert_eq!(g.width, 800);
}

#[test]
fn tile_rect_divides_the_screen() {
    let mut g = TileGrid::new();
    g.split(win(1));
    g.split(win(2));
    g.width = 800;
    g.height = 600;
    let t = Tile {
        window: win(2),
        row: None,
        column: Some(2),
        split_direction: SplitDirection::Vertical,
    };
    let (x, y, w, h) = g.tile_rect(&t, false);
    assert_eq!((x, y, w, h), (400, 20, 400, 600));
}

#[test]
fn grid_cells_paint_by_coordinates() {
    let mut g = TileGrid::new();
    g.split(win(1));
    g.split(win(2));
    let cells = g.grid_cells();
    assert_eq!(cells.len(), 1);
    assert_eq!(cells[0], vec![Some(1), Some(2)]);
}
