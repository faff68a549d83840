use vstd::prelude::*;

use crate::tile::Tile;
use crate::tile::Window;

verus! {

/// The axis along which the focused tile is split when a new window arrives.
#[derive(Debug, Clone, Copy, PartialEq, Eq)]
pub enum SplitDirection {
    Horizontal,
    Vertical,
}

/// The tiling grid: the open tiles, the focused window, and the screen
/// geometry the host measured. Rows and columns count the grid's axes.
#[derive(Debug, Clone)]
pub struct TileGrid {
    pub tiles: Vec<Tile>,
    pub focused_window_id: Option<i32>,
    pub taskbar_window: i32,
    pub rows: i32,
    pub columns: i32,
    pub height: i32,
    pub width: i32,
}

/// The grid as a mathematical value: the tiles as a sequence, the counters as
/// unbounded integers.
pub struct GridView {
    pub tiles: Seq<Tile>,
    pub focused_window_id: Option<i32>,
    pub taskbar_window: int,
    pub rows: int,
    pub columns: int,
    pub height: int,
    pub width: int,
}

impl View for TileGrid {
    type V = GridView;

    open spec fn view(&self) -> GridView {
        GridView {
            tiles: self.tiles@,
            focused_window_id: self.focused_window_id,
            taskbar_window: self.taskbar_window as int,
            rows: self.rows as int,
            columns: self.columns as int,
            height: self.height as int,
            width: self.width as int,
        }
    }
}

/// The first position at or after `from` whose tile owns window `id`.
pub open spec fn spec_find_index(tiles: Seq<Tile>, id: i32, from: int) -> Option<int>
    decreases tiles.len() - from,
{
    if from < 0 || from >= tiles.len() {
        None
    } else if tiles[from].window.id == id {
        Some(from)
    } else {
        spec_find_index(tiles, id, from + 1)
    }
}

/// The position of the focused tile, if a focused window is set and present.
pub open spec fn spec_focused_index(g: GridView) -> Option<int> {
    match g.focused_window_id {
        None => None,
        Some(id) => spec_find_index(g.tiles, id, 0),
    }
}

impl TileGrid {
    /// An empty grid: no tiles, nothing focused, zero geometry.
    pub fn new() -> (g: TileGrid)
        ensures
            g@.tiles == Seq::<Tile>::empty(),
            g@.focused_window_id is None,
            g@.taskbar_window == 0,
            g@.rows == 0,
            g@.columns == 0,
            g@.height == 0,
            g@.width == 0,
    {
        TileGrid {
            tiles: Vec::new(),
            focused_window_id: None,
            taskbar_window: 0,
            rows: 0,
            columns: 0,
            height: 0,
            width: 0,
        }
    }

    /// Where the focused tile sits in `tiles`, by first match on the focused
    /// window id.
    pub fn focused_tile_index(&self) -> (r: Option<usize>)
        ensures
            match r {
                Some(i) => i < self.tiles.len() && spec_focused_index(self@) == Some(i as int),
                None => spec_focused_index(self@) is None,
            },
    {
        match self.focused_window_id {
            None => None,
            Some(id) => {
                let mut i: usize = 0;
                while i < self.tiles.len()
                    invariant
                        i <= self.tiles.len(),
                        self.focused_window_id == Some(id),
                        spec_find_index(self.tiles@, id, 0) == spec_find_index(
                            self.tiles@,
                            id,
                            i as int,
                        ),
                    decreases self.tiles.len() - i,
                {
                    if self.tiles[i].window.id == id {
                        return Some(i);
                    }
                    i = i + 1;
                }
                None
            },
        }
    }

    /// The focused tile, if any.
    pub fn get_focused_tile(&self) -> (r: Option<&Tile>)
        ensures
            match spec_focused_index(self@) {
                Some(i) => r matches Some(t) && *t == self@.tiles[i],
                None => r is None,
            },
    {
        match self.focused_tile_index() {
            Some(i) => Some(&self.tiles[i]),
            None => None,
        }
    }

    /// The focused tile, mutably: the caller's writes land at its position.
    pub fn get_focused_tile_mut(&mut self) -> (r: Option<&mut Tile>)
        ensures
            match spec_focused_index(old(self)@) {
                Some(i) => r matches Some(t) && *t == old(self)@.tiles[i] && final(self)@.tiles
                    == old(self)@.tiles.update(i, *final(t)) && same_but_tiles(
                    final(self)@,
                    old(self)@,
                ),
                None => r is None && *final(self) == *old(self),
            },
    {
        match self.focused_tile_index() {
            Some(i) => Some(&mut self.tiles[i]),
            None => None,
        }
    }

    /// Sets the split direction of the focused tile; without one, does nothing.
    pub fn set_focused_split_direction(&mut self, direction: SplitDirection)
        ensures
            match spec_focused_index(old(self)@) {
                Some(i) => final(self)@.tiles == old(self)@.tiles.update(
                    i,
                    Tile { split_direction: direction, ..old(self)@.tiles[i] },
                ) && same_but_tiles(final(self)@, old(self)@),
                None => *final(self) == *old(self),
            },
    {
        match self.focused_tile_index() {
            Some(i) => {
                let t = &mut self.tiles[i];
                t.split_direction = direction;
            },
            None => {},
        }
    }
}

/// Some window in `tiles` has id `id`.
pub open spec fn spec_contains_window(tiles: Seq<Tile>, id: i32) -> bool {
    exists|i: int| 0 <= i < tiles.len() && tiles[i].window.id == id
}

/// The grid after `split`: unchanged when the window is already tiled; the
/// first tile when the grid was empty; otherwise a new tile beside or below
/// the focused one, which becomes row/column 1 if it spanned the axis.
pub open spec fn spec_split(g: GridView, window: Window) -> GridView {
    if spec_contains_window(g.tiles, window.id) {
        g
    } else {
        match spec_focused_index(g) {
            None => GridView {
                tiles: g.tiles.push(
                    Tile {
                        window: window,
                        row: None,
                        column: None,
                        split_direction: SplitDirection::Vertical,
                    },
                ),
                focused_window_id: Some(window.id),
                rows: 1,
                columns: 1,
                ..g
            },
            Some(i) => {
                let f = g.tiles[i];
                match f.split_direction {
                    SplitDirection::Horizontal => {
                        let new_row = match f.row {
                            Some(r) => Some((r + 1) as i32),
                            None => Some(2i32),
                        };
                        let kept = match f.row {
                            Some(_) => g.tiles,
                            None => g.tiles.update(i, Tile { row: Some(1i32), ..f }),
                        };
                        let nt = Tile {
                            window: window,
                            row: new_row,
                            column: f.column,
                            split_direction: SplitDirection::Vertical,
                        };
                        GridView {
                            tiles: kept.push(nt),
                            rows: g.rows + 1,
                            focused_window_id: Some(nt.window.id),
                            ..g
                        }
                    },
                    SplitDirection::Vertical => {
                        let new_col = match f.column {
                            Some(c) => Some((c + 1) as i32),
                            None => Some(2i32),
                        };
                        let kept = match f.column {
                            Some(_) => g.tiles,
                            None => g.tiles.update(i, Tile { column: Some(1i32), ..f }),
                        };
                        let nt = Tile {
                            window: window,
                            row: f.row,
                            column: new_col,
                            split_direction: SplitDirection::Vertical,
                        };
                        GridView {
                            tiles: kept.push(nt),
                            columns: g.columns + 1,
                            focused_window_id: Some(nt.window.id),
                            ..g
                        }
                    },
                }
            },
        }
    }
}

impl TileGrid {
    /// Tiles `window` next to the focused tile — below it for a horizontal
    /// split, beside it for a vertical one — focusing the new tile; an
    /// already-tiled window is left alone; the first window fills the grid.
    pub fn split(&mut self, window: Window)
        requires
            old(self).rows < i32::MAX,
            old(self).columns < i32::MAX,
            match spec_focused_index(old(self)@) {
                Some(i) => (old(self)@.tiles[i].row matches Some(r) ==> r < i32::MAX) && (old(
                    self,
                )@.tiles[i].column matches Some(c) ==> c < i32::MAX),
                None => true,
            },
        ensures
            final(self)@ == spec_split(old(self)@, window),
    {
        if contains_window(&self.tiles, window.id) {
            return ;
        }
        match self.focused_tile_index() {
            Some(i) => {
                let dir = self.tiles[i].split_direction;
                let frow = self.tiles[i].row;
                let fcol = self.tiles[i].column;
                let mut new_tile = Tile::new(window);
                match dir {
                    SplitDirection::Horizontal => {
                        new_tile.column = fcol;
                        match frow {
                            Some(row) => {
                                new_tile.row = Some(row + 1);
                            },
                            None => {
                                let t = &mut self.tiles[i];
                                t.row = Some(1);
                                new_tile.row = Some(2);
                            },
                        }
                        self.rows = self.rows + 1;
                    },
                    SplitDirection::Vertical => {
                        new_tile.row = frow;
                        match fcol {
                            Some(col) => {
                                new_tile.column = Some(col + 1);
                            },
                            None => {
                                let t = &mut self.tiles[i];
                                t.column = Some(1);
                                new_tile.column = Some(2);
                            },
                        }
                        self.columns = self.columns + 1;
                    },
                }
                self.focused_window_id = Some(new_tile.window.id);
                self.tiles.push(new_tile);
            },
            None => {
                self.rows = 1;
                self.columns = 1;
                self.focused_window_id = Some(window.id);
                self.tiles.push(Tile::new(window));
            },
        }
    }
}

/// Whether some tile in `tiles` owns window `id`.
fn contains_window(tiles: &Vec<Tile>, id: i32) -> (r: bool)
    ensures
        r == spec_contains_window(tiles@, id),
{
    let mut i: usize = 0;
    while i < tiles.len()
        invariant
            i <= tiles.len(),
            forall|j: int| 0 <= j < i ==> tiles@[j].window.id != id,
        decreases tiles.len() - i,
    {
        if tiles[i].window.id == id {
            return true;
        }
        i = i + 1;
    }
    false
}

/// `a` is greater than `b` under the usual option order: any value beats
/// `None`, two values compare as integers.
pub open spec fn spec_opt_gt(a: Option<i32>, b: Option<i32>) -> bool {
    match (a, b) {
        (Option::None, _) => false,
        (Option::Some(_), Option::None) => true,
        (Option::Some(x), Option::Some(y)) => x > y,
    }
}

/// `t` with its row pulled one step up when it sat past `row`.
pub open spec fn spec_dec_row(t: Tile, row: Option<i32>) -> Tile {
    if spec_opt_gt(t.row, row) {
        Tile {
            row: match t.row {
                Some(x) => Some((x - 1) as i32),
                None => None,
            },
            ..t
        }
    } else {
        t
    }
}

/// `t` with its column pulled one step left when it sat past `column`.
pub open spec fn spec_dec_col(t: Tile, column: Option<i32>) -> Tile {
    if spec_opt_gt(t.column, column) {
        Tile {
            column: match t.column {
                Some(x) => Some((x - 1) as i32),
                None => None,
            },
            ..t
        }
    } else {
        t
    }
}

/// No tile in `tiles` sits in `row`.
pub open spec fn spec_row_empty(tiles: Seq<Tile>, row: Option<i32>) -> bool {
    !exists|i: int| 0 <= i < tiles.len() && tiles[i].row == row
}

/// No tile in `tiles` sits in `column`.
pub open spec fn spec_col_empty(tiles: Seq<Tile>, column: Option<i32>) -> bool {
    !exists|i: int| 0 <= i < tiles.len() && tiles[i].column == column
}

/// The first position at or after `from` whose tile sits at exactly
/// (`row`, `column`).
pub open spec fn spec_first_at(
    tiles: Seq<Tile>,
    row: Option<i32>,
    column: Option<i32>,
    from: int,
) -> Option<int>
    decreases tiles.len() - from,
{
    if from < 0 || from >= tiles.len() {
        None
    } else if tiles[from].column == column && tiles[from].row == row {
        Some(from)
    } else {
        spec_first_at(tiles, row, column, from + 1)
    }
}

/// The grid after closing window `id`, paired with the removed tile: the tile
/// leaves the list; a row or column left empty is collapsed and later tiles
/// shift back; focus moves to the tile now in the removed tile's place, when
/// one exists.
pub open spec fn spec_close(g: GridView, id: i32) -> (GridView, Option<Tile>) {
    match spec_find_index(g.tiles, id, 0) {
        None => (g, None),
        Some(idx) => {
            let removed = g.tiles[idx];
            let rest = g.tiles.remove(idx);
            let empty_row = spec_row_empty(rest, removed.row);
            let empty_col = spec_col_empty(rest, removed.column);
            let rows2 = if empty_row {
                g.rows - 1
            } else {
                g.rows
            };
            let cols2 = if empty_col {
                g.columns - 1
            } else {
                g.columns
            };
            let t1 = if empty_row {
                rest.map_values(|t: Tile| spec_dec_row(t, removed.row))
            } else {
                rest
            };
            let t2 = if empty_col {
                t1.map_values(|t: Tile| spec_dec_col(t, removed.column))
            } else {
                t1
            };
            let focused = if t2.len() == 0 {
                None::<i32>
            } else {
                match g.focused_window_id {
                    Some(fid) => if fid == removed.window.id {
                        let next_col = match removed.column {
                            Some(c) => Some((if c > cols2 {
                                c - 1
                            } else {
                                c as int
                            }) as i32),
                            None => None,
                        };
                        let next_row = match removed.row {
                            Some(r) => Some((if r > rows2 {
                                r - 1
                            } else {
                                r as int
                            }) as i32),
                            None => None,
                        };
                        match spec_first_at(t2, next_row, next_col, 0) {
                            Some(j) => Some(t2[j].window.id),
                            None => g.focused_window_id,
                        }
                    } else {
                        g.focused_window_id
                    },
                    None => g.focused_window_id,
                }
            };
            (
                GridView {
                    tiles: t2,
                    rows: rows2,
                    columns: cols2,
                    focused_window_id: focused,
                    ..g
                },
                Some(removed),
            )
        },
    }
}

/// The first position at or after `from` whose tile owns window `id`.
fn find_index(tiles: &Vec<Tile>, id: i32) -> (r: Option<usize>)
    ensures
        match r {
            Some(i) => i < tiles.len() && spec_find_index(tiles@, id, 0) == Some(i as int),
            None => spec_find_index(tiles@, id, 0) is None,
        },
{
    let mut i: usize = 0;
    while i < tiles.len()
        invariant
            i <= tiles.len(),
            spec_find_index(tiles@, id, 0) == spec_find_index(tiles@, id, i as int),
        decreases tiles.len() - i,
    {
        if tiles[i].window.id == id {
            return Some(i);
        }
        i = i + 1;
    }
    None
}

/// Whether some tile of `tiles` sits in `row`.
fn row_used(tiles: &Vec<Tile>, row: &Option<i32>) -> (r: bool)
    ensures
        r == !spec_row_empty(tiles@, *row),
{
    let mut i: usize = 0;
    while i < tiles.len()
        invariant
            i <= tiles.len(),
            forall|j: int| 0 <= j < i ==> tiles@[j].row != *row,
        decreases tiles.len() - i,
    {
        if tiles[i].row == *row {
            return true;
        }
        i = i + 1;
    }
    false
}

/// Whether some tile of `tiles` sits in `column`.
fn col_used(tiles: &Vec<Tile>, column: &Option<i32>) -> (r: bool)
    ensures
        r == !spec_col_empty(tiles@, *column),
{
    let mut i: usize = 0;
    while i < tiles.len()
        invariant
            i <= tiles.len(),
            forall|j: int| 0 <= j < i ==> tiles@[j].column != *column,
        decreases tiles.len() - i,
    {
        if tiles[i].column == *column {
            return true;
        }
        i = i + 1;
    }
    false
}

/// The first position at or after `from` of a tile at exactly
/// (`row`, `column`).
fn find_at(tiles: &Vec<Tile>, row: &Option<i32>, column: &Option<i32>) -> (r: Option<usize>)
    ensures
        match r {
            Some(i) => i < tiles.len() && spec_first_at(tiles@, *row, *column, 0) == Some(i as int),
            None => spec_first_at(tiles@, *row, *column, 0) is None,
        },
{
    let mut i: usize = 0;
    while i < tiles.len()
        invariant
            i <= tiles.len(),
            spec_first_at(tiles@, *row, *column, 0) == spec_first_at(
                tiles@,
                *row,
                *column,
                i as int,
            ),
        decreases tiles.len() - i,
    {
        if tiles[i].column == *column && tiles[i].row == *row {
            return Some(i);
        }
        i = i + 1;
    }
    None
}

impl TileGrid {
    /// Removes the tile owning window `id` and returns it, collapsing a row
    /// or column it leaves empty and re-aiming focus as `spec_close` states;
    /// without such a tile the grid is unchanged.
    pub fn close_tile_by_window_id(&mut self, id: i32) -> (r: Option<Tile>)
        requires
            old(self).rows > i32::MIN,
            old(self).columns > i32::MIN,
            forall|i: int|
                0 <= i < old(self)@.tiles.len() ==> ((#[trigger] old(self)@.tiles[i]).row matches Some(v) ==> v > i32::MIN),
            forall|i: int|
                0 <= i < old(self)@.tiles.len() ==> ((#[trigger] old(self)@.tiles[i]).column matches Some(v) ==> v > i32::MIN),
        ensures
            final(self)@ == spec_close(old(self)@, id).0,
            r == spec_close(old(self)@, id).1,
    {
        let idx = match find_index(&self.tiles, id) {
            None => {
                return None;
            },
            Some(i) => i,
        };
        let removed = self.tiles.remove(idx);
        let ghost rest = self.tiles@;
        proof {
            old(self)@.tiles.remove_ensures(idx as int);
            assert forall|j: int| 0 <= j < rest.len() implies ((#[trigger] rest[j]).row
                matches Some(v) ==> v > i32::MIN) && (rest[j].column matches Some(c) ==> c
                > i32::MIN) by {
                if j < idx {
                    assert(rest[j] == old(self)@.tiles[j]);
                } else {
                    assert(rest[j] == old(self)@.tiles[j + 1]);
                }
            }
        }
        let empty_row = !row_used(&self.tiles, &removed.row);
        let empty_col = !col_used(&self.tiles, &removed.column);
        if empty_row {
            self.rows = self.rows - 1;
            let mut i: usize = 0;
            while i < self.tiles.len()
                invariant
                    i <= self.tiles.len(),
                    self.tiles@.len() == rest.len(),
                    forall|j: int| 0 <= j < i ==> self.tiles@[j] == spec_dec_row(rest[j], removed.row),
                    forall|j: int| i <= j < rest.len() ==> self.tiles@[j] == rest[j],
                    forall|j: int|
                        0 <= j < rest.len() ==> ((#[trigger] rest[j]).row matches Some(v) ==> v > i32::MIN),
                    self.rows == old(self).rows - 1,
                    self.columns == old(self).columns,
                    self.focused_window_id == old(self).focused_window_id,
                    self.taskbar_window == old(self).taskbar_window,
                    self.height == old(self).height,
                    self.width == old(self).width,
                decreases self.tiles.len() - i,
            {
                let shift = match (&self.tiles[i].row, &removed.row) {
                    (Option::Some(x), Option::Some(y)) => *x > *y,
                    (Option::Some(_), Option::None) => true,
                    _ => false,
                };
                if shift {
                    let t = &mut self.tiles[i];
                    match t.row {
                        Some(x) => {
                            t.row = Some(x - 1);
                        },
                        None => {},
                    }
                }
                i = i + 1;
            }
            proof {
                assert(self.tiles@ =~= rest.map_values(|t: Tile| spec_dec_row(t, removed.row)));
            }
        }
        let ghost t1 = self.tiles@;
        if empty_col {
            self.columns = self.columns - 1;
            let mut i: usize = 0;
            while i < self.tiles.len()
                invariant
                    i <= self.tiles.len(),
                    self.tiles@.len() == t1.len(),
                    forall|j: int|
                        0 <= j < i ==> self.tiles@[j] == spec_dec_col(t1[j], removed.column),
                    forall|j: int| i <= j < t1.len() ==> self.tiles@[j] == t1[j],
                    forall|j: int|
                        0 <= j < t1.len() ==> ((#[trigger] t1[j]).column matches Some(v) ==> v
                            > i32::MIN),
                    forall|j: int|
                        0 <= j < rest.len() ==> ((#[trigger] rest[j]).column matches Some(v) ==> v
                            > i32::MIN),
                    self.rows == (if empty_row {
                        old(self).rows - 1
                    } else {
                        old(self).rows as int
                    }),
                    self.columns == old(self).columns - 1,
                    self.focused_window_id == old(self).focused_window_id,
                    self.taskbar_window == old(self).taskbar_window,
                    self.height == old(self).height,
                    self.width == old(self).width,
                decreases self.tiles.len() - i,
            {
                let shift = match (&self.tiles[i].column, &removed.column) {
                    (Option::Some(x), Option::Some(y)) => *x > *y,
                    (Option::Some(_), Option::None) => true,
                    _ => false,
                };
                if shift {
                    let t = &mut self.tiles[i];
                    match t.column {
                        Some(x) => {
                            t.column = Some(x - 1);
                        },
                        None => {},
                    }
                }
                i = i + 1;
            }
            proof {
                assert(self.tiles@ =~= t1.map_values(|t: Tile| spec_dec_col(t, removed.column)));
            }
        }
        if self.tiles.len() == 0 {
            self.focused_window_id = None;
        } else {
            let refocus = match self.focused_window_id {
                Some(fid) => fid == removed.window.id,
                None => false,
            };
            if refocus {
                let next_col = match removed.column {
                    Some(c) => if c > self.columns {
                        Some(c - 1)
                    } else {
                        Some(c)
                    },
                    None => None,
                };
                let next_row = match removed.row {
                    Some(r) => if r > self.rows {
                        Some(r - 1)
                    } else {
                        Some(r)
                    },
                    None => None,
                };
                match find_at(&self.tiles, &next_row, &next_col) {
                    Some(j) => {
                        self.focused_window_id = Some(self.tiles[j].window.id);
                    },
                    None => {},
                }
            }
        }
        Some(removed)
    }
}

/// The first position at or after `from` of a tile in column `target` whose
/// row spans the axis or equals `frow`.
pub open spec fn spec_neighbor_col(
    tiles: Seq<Tile>,
    frow: Option<i32>,
    target: int,
    from: int,
) -> Option<int>
    decreases tiles.len() - from,
{
    if from < 0 || from >= tiles.len() {
        None
    } else if (tiles[from].row is None || tiles[from].row == frow) && (match tiles[from].column {
        Some(cc) => cc == target,
        None => false,
    }) {
        Some(from)
    } else {
        spec_neighbor_col(tiles, frow, target, from + 1)
    }
}

/// The first position at or after `from` of a tile in row `target` whose
/// column spans the axis or equals `fcol`.
pub open spec fn spec_neighbor_row(
    tiles: Seq<Tile>,
    fcol: Option<i32>,
    target: int,
    from: int,
) -> Option<int>
    decreases tiles.len() - from,
{
    if from < 0 || from >= tiles.len() {
        None
    } else if (tiles[from].column is None || tiles[from].column == fcol) && (match tiles[from].row {
        Some(rr) => rr == target,
        None => false,
    }) {
        Some(from)
    } else {
        spec_neighbor_row(tiles, fcol, target, from + 1)
    }
}

/// The tile that takes focus on a move right: the one a column over from the
/// focused tile, unless focus sits in the last column or spans the axis.
pub open spec fn spec_focus_right_idx(g: GridView) -> Option<int> {
    match spec_focused_index(g) {
        None => None,
        Some(i) => {
            let f = g.tiles[i];
            match f.column {
                None => None,
                Some(c) => if c == g.columns {
                    None
                } else {
                    spec_neighbor_col(g.tiles, f.row, c + 1, 0)
                },
            }
        },
    }
}

/// The tile that takes focus on a move left.
pub open spec fn spec_focus_left_idx(g: GridView) -> Option<int> {
    match spec_focused_index(g) {
        None => None,
        Some(i) => {
            let f = g.tiles[i];
            match f.column {
                None => None,
                Some(c) => if c == 1 {
                    None
                } else {
                    spec_neighbor_col(g.tiles, f.row, c - 1, 0)
                },
            }
        },
    }
}

/// The tile that takes focus on a move up.
pub open spec fn spec_focus_up_idx(g: GridView) -> Option<int> {
    match spec_focused_index(g) {
        None => None,
        Some(i) => {
            let f = g.tiles[i];
            match f.row {
                None => None,
                Some(r) => if r == 1 {
                    None
                } else {
                    spec_neighbor_row(g.tiles, f.column, r - 1, 0)
                },
            }
        },
    }
}

/// The tile that takes focus on a move down.
pub open spec fn spec_focus_down_idx(g: GridView) -> Option<int> {
    match spec_focused_index(g) {
        None => None,
        Some(i) => {
            let f = g.tiles[i];
            match f.row {
                None => None,
                Some(r) => if r == g.rows {
                    None
                } else {
                    spec_neighbor_row(g.tiles, f.column, r + 1, 0)
                },
            }
        },
    }
}

/// The first position at or after `from` of a tile in column `target` (an
/// exact value) whose row spans the axis or equals `frow`.
fn neighbor_col(tiles: &Vec<Tile>, frow: &Option<i32>, target: i32) -> (r: Option<usize>)
    ensures
        match r {
            Some(j) => j < tiles.len() && spec_neighbor_col(tiles@, *frow, target as int, 0)
                == Some(j as int),
            None => spec_neighbor_col(tiles@, *frow, target as int, 0) is None,
        },
{
    let mut j: usize = 0;
    while j < tiles.len()
        invariant
            j <= tiles.len(),
            spec_neighbor_col(tiles@, *frow, target as int, 0) == spec_neighbor_col(
                tiles@,
                *frow,
                target as int,
                j as int,
            ),
        decreases tiles.len() - j,
    {
        let row_ok = tiles[j].row.is_none() || tiles[j].row == *frow;
        let col_ok = match tiles[j].column {
            Some(cc) => cc == target,
            None => false,
        };
        if row_ok && col_ok {
            return Some(j);
        }
        j = j + 1;
    }
    None
}

/// The first position at or after `from` of a tile in row `target` (an exact
/// value) whose column spans the axis or equals `fcol`.
fn neighbor_row(tiles: &Vec<Tile>, fcol: &Option<i32>, target: i32) -> (r: Option<usize>)
    ensures
        match r {
            Some(j) => j < tiles.len() && spec_neighbor_row(tiles@, *fcol, target as int, 0)
                == Some(j as int),
            None => spec_neighbor_row(tiles@, *fcol, target as int, 0) is None,
        },
{
    let mut j: usize = 0;
    while j < tiles.len()
        invariant
            j <= tiles.len(),
            spec_neighbor_row(tiles@, *fcol, target as int, 0) == spec_neighbor_row(
                tiles@,
                *fcol,
                target as int,
                j as int,
            ),
        decreases tiles.len() - j,
    {
        let col_ok = tiles[j].column.is_none() || tiles[j].column == *fcol;
        let row_ok = match tiles[j].row {
            Some(rr) => rr == target,
            None => false,
        };
        if col_ok && row_ok {
            return Some(j);
        }
        j = j + 1;
    }
    None
}

impl TileGrid {
    /// Moves focus one column right; returns the window id to raise, `None`
    /// when focus stays put.
    pub fn focus_right(&mut self) -> (r: Option<i32>)
        requires
            match spec_focused_index(old(self)@) {
                Some(i) => old(self)@.tiles[i].column matches Some(c) ==> c < i32::MAX,
                None => true,
            },
        ensures
            match spec_focus_right_idx(old(self)@) {
                Some(j) => final(self)@ == (GridView {
                    focused_window_id: Some(old(self)@.tiles[j].window.id),
                    ..old(self)@
                }) && r == Some(old(self)@.tiles[j].window.id),
                None => *final(self) == *old(self) && r is None,
            },
    {
        let i = match self.focused_tile_index() {
            None => {
                return None;
            },
            Some(i) => i,
        };
        let frow = self.tiles[i].row;
        let c = match self.tiles[i].column {
            None => {
                return None;
            },
            Some(c) => c,
        };
        if c == self.columns {
            return None;
        }
        match neighbor_col(&self.tiles, &frow, c + 1) {
            Some(j) => {
                let id = self.tiles[j].window.id;
                self.focused_window_id = Some(id);
                Some(id)
            },
            None => None,
        }
    }

    /// Moves focus one column left; returns the window id to raise, `None`
    /// when focus stays put.
    pub fn focus_left(&mut self) -> (r: Option<i32>)
        requires
            match spec_focused_index(old(self)@) {
                Some(i) => old(self)@.tiles[i].column matches Some(c) ==> c > i32::MIN,
                None => true,
            },
        ensures
            match spec_focus_left_idx(old(self)@) {
                Some(j) => final(self)@ == (GridView {
                    focused_window_id: Some(old(self)@.tiles[j].window.id),
                    ..old(self)@
                }) && r == Some(old(self)@.tiles[j].window.id),
                None => *final(self) == *old(self) && r is None,
            },
    {
        let i = match self.focused_tile_index() {
            None => {
                return None;
            },
            Some(i) => i,
        };
        let frow = self.tiles[i].row;
        let c = match self.tiles[i].column {
            None => {
                return None;
            },
            Some(c) => c,
        };
        if c == 1 {
            return None;
        }
        match neighbor_col(&self.tiles, &frow, c - 1) {
            Some(j) => {
                let id = self.tiles[j].window.id;
                self.focused_window_id = Some(id);
                Some(id)
            },
            None => None,
        }
    }

    /// Moves focus one row up; returns the window id to raise, `None` when
    /// focus stays put.
    pub fn focus_up(&mut self) -> (r: Option<i32>)
        requires
            match spec_focused_index(old(self)@) {
                Some(i) => old(self)@.tiles[i].row matches Some(v) ==> v > i32::MIN,
                None => true,
            },
        ensures
            match spec_focus_up_idx(old(self)@) {
                Some(j) => final(self)@ == (GridView {
                    focused_window_id: Some(old(self)@.tiles[j].window.id),
                    ..old(self)@
                }) && r == Some(old(self)@.tiles[j].window.id),
                None => *final(self) == *old(self) && r is None,
            },
    {
        let i = match self.focused_tile_index() {
            None => {
                return None;
            },
            Some(i) => i,
        };
        let fcol = self.tiles[i].column;
        let rw = match self.tiles[i].row {
            None => {
                return None;
            },
            Some(rw) => rw,
        };
        if rw == 1 {
            return None;
        }
        match neighbor_row(&self.tiles, &fcol, rw - 1) {
            Some(j) => {
                let id = self.tiles[j].window.id;
                self.focused_window_id = Some(id);
                Some(id)
            },
            None => None,
        }
    }

    /// Moves focus one row down; returns the window id to raise, `None` when
    /// focus stays put.
    pub fn focus_down(&mut self) -> (r: Option<i32>)
        requires
            match spec_focused_index(old(self)@) {
                Some(i) => old(self)@.tiles[i].row matches Some(v) ==> v < i32::MAX,
                None => true,
            },
        ensures
            match spec_focus_down_idx(old(self)@) {
                Some(j) => final(self)@ == (GridView {
                    focused_window_id: Some(old(self)@.tiles[j].window.id),
                    ..old(self)@
                }) && r == Some(old(self)@.tiles[j].window.id),
                None => *final(self) == *old(self) && r is None,
            },
    {
        let i = match self.focused_tile_index() {
            None => {
                return None;
            },
            Some(i) => i,
        };
        let fcol = self.tiles[i].column;
        let rw = match self.tiles[i].row {
            None => {
                return None;
            },
            Some(rw) => rw,
        };
        if rw == self.rows {
            return None;
        }
        match neighbor_row(&self.tiles, &fcol, rw + 1) {
            Some(j) => {
                let id = self.tiles[j].window.id;
                self.focused_window_id = Some(id);
                Some(id)
            },
            None => None,
        }
    }
}

/// The grid geometry derived from a measured screen, and whether the host
/// should hide the taskbar: 20 units are reserved; keeping the title bar
/// widens the working area by (15, 9); a visible taskbar is either hidden or
/// subtracted from the height.
pub open spec fn spec_apply_resolution(
    g: GridView,
    screen_width: int,
    screen_height: int,
    taskbar_window: int,
    taskbar_top: int,
    taskbar_bottom: int,
    remove_title_bar: bool,
    remove_task_bar: bool,
) -> (GridView, bool) {
    let h1 = if !remove_title_bar {
        screen_height - 20 + 9
    } else {
        screen_height - 20
    };
    let w1 = if !remove_title_bar {
        screen_width + 15
    } else {
        screen_width
    };
    let visible = taskbar_top + 2 < h1;
    let hide = visible && remove_task_bar;
    let h2 = if visible && !remove_task_bar {
        h1 - (taskbar_bottom - taskbar_top)
    } else {
        h1
    };
    (GridView { height: h2, width: w1, taskbar_window: taskbar_window, ..g }, hide)
}

/// The position and size of a tile on screen: an equal share of each axis,
/// shifted by small fixed margins when the title bar is kept.
pub open spec fn spec_tile_rect(g: GridView, t: Tile, with_title_bar: bool) -> (int, int, int, int) {
    let cw = g.width / g.columns;
    let rh = g.height / g.rows;
    if with_title_bar {
        let cd: int = match t.column {
            Some(c) => if c > 1 {
                15
            } else {
                0
            },
            None => 0,
        };
        let rd: int = match t.row {
            Some(r) => if r > 1 {
                10
            } else {
                0
            },
            None => 0,
        };
        let x = match t.column {
            Some(c) => cw * (c - 1) - 8 - cd,
            None => -8,
        };
        let y = match t.row {
            Some(r) => rh * (r - 1) - rd - 1,
            None => -1,
        };
        let h = match t.row {
            Some(_) => rh + rd,
            None => g.height,
        };
        let w = match t.column {
            Some(_) => cw + cd,
            None => g.width,
        };
        (x, y + 20, w, h)
    } else {
        let x = match t.column {
            Some(c) => cw * (c - 1),
            None => 0,
        };
        let y = match t.row {
            Some(r) => rh * (r - 1),
            None => 0,
        };
        let h = match t.row {
            Some(_) => rh,
            None => g.height,
        };
        let w = match t.column {
            Some(_) => cw,
            None => g.width,
        };
        (x, y + 20, w, h)
    }
}

impl TileGrid {
    /// Stores the working area computed from the measured screen and taskbar;
    /// returns whether the host should hide the taskbar.
    pub fn apply_resolution(
        &mut self,
        screen_width: i32,
        screen_height: i32,
        taskbar_window: i32,
        taskbar_top: i32,
        taskbar_bottom: i32,
        remove_title_bar: bool,
        remove_task_bar: bool,
    ) -> (hide: bool)
        requires
            -1000000 <= screen_width <= 1000000,
            -1000000 <= screen_height <= 1000000,
            -1000000 <= taskbar_top <= 1000000,
            -1000000 <= taskbar_bottom <= 1000000,
        ensures
            final(self)@ == spec_apply_resolution(
                old(self)@,
                screen_width as int,
                screen_height as int,
                taskbar_window as int,
                taskbar_top as int,
                taskbar_bottom as int,
                remove_title_bar,
                remove_task_bar,
            ).0,
            hide == spec_apply_resolution(
                old(self)@,
                screen_width as int,
                screen_height as int,
                taskbar_window as int,
                taskbar_top as int,
                taskbar_bottom as int,
                remove_title_bar,
                remove_task_bar,
            ).1,
    {
        self.height = screen_height - 20;
        self.width = screen_width;
        if !remove_title_bar {
            self.height = self.height + 9;
            self.width = self.width + 15;
        }
        self.taskbar_window = taskbar_window;
        let taskbar_is_visible = (taskbar_top + 2) < self.height;
        let mut hide_it: bool = false;
        if taskbar_is_visible {
            if remove_task_bar {
                hide_it = true;
            } else {
                self.height = self.height - (taskbar_bottom - taskbar_top);
            }
        }
        hide_it
    }

    /// The on-screen rectangle (x, y, width, height) of `t`.
    pub fn tile_rect(&self, t: &Tile, with_title_bar: bool) -> (r: (i32, i32, i32, i32))
        requires
            1 <= self.rows,
            1 <= self.columns,
            0 <= self.width <= 1000000,
            0 <= self.height <= 1000000,
            t.column matches Some(c) ==> 1 <= c <= self.columns,
            t.row matches Some(v) ==> 1 <= v <= self.rows,
        ensures
            (r.0 as int, r.1 as int, r.2 as int, r.3 as int) == spec_tile_rect(
                self@,
                *t,
                with_title_bar,
            ),
    {
        let column_width = self.width / self.columns;
        let row_height = self.height / self.rows;
        proof {
            vstd::arithmetic::div_mod::lemma_fundamental_div_mod(
                self.width as int,
                self.columns as int,
            );
            vstd::arithmetic::div_mod::lemma_fundamental_div_mod(
                self.height as int,
                self.rows as int,
            );
            if t.column is Some {
                vstd::arithmetic::mul::lemma_mul_inequality(
                    t.column->0 - 1,
                    self.columns as int,
                    column_width as int,
                );
            }
            if t.row is Some {
                vstd::arithmetic::mul::lemma_mul_inequality(
                    t.row->0 - 1,
                    self.rows as int,
                    row_height as int,
                );
            }
        }
        if with_title_bar {
            let column_delta: i32 = match t.column {
                Some(column) => if column > 1 {
                    15
                } else {
                    0
                },
                None => 0,
            };
            let row_delta: i32 = match t.row {
                Some(row) => if row > 1 {
                    10
                } else {
                    0
                },
                None => 0,
            };
            let x = match t.column {
                Some(column) => {
                    proof {
                        assert(0 <= column_width as int && column_width as int * (column - 1)
                            <= self.width as int) by (nonlinear_arith)
                            requires
                                0 <= self.width as int,
                                1 <= self.columns as int,
                                column_width as int == self.width as int / self.columns as int,
                                1 <= column <= self.columns as int,
                        ;
                    }
                    column_width * (column - 1) - 8 - column_delta
                },
                None => -8,
            };
            let y = match t.row {
                Some(row) => {
                    proof {
                        assert(0 <= row_height as int && row_height as int * (row - 1)
                            <= self.height as int) by (nonlinear_arith)
                            requires
                                0 <= self.height as int,
                                1 <= self.rows as int,
                                row_height as int == self.height as int / self.rows as int,
                                1 <= row <= self.rows as int,
                        ;
                    }
                    row_height * (row - 1) - row_delta - 1
                },
                None => -1,
            };
            let h = match t.row {
                Some(_) => row_height + row_delta,
                None => self.height,
            };
            let w = match t.column {
                Some(_) => column_width + column_delta,
                None => self.width,
            };
            (x, y + 20, w, h)
        } else {
            let x = match t.column {
                Some(column) => {
                    proof {
                        assert(0 <= column_width as int && column_width as int * (column - 1)
                            <= self.width as int) by (nonlinear_arith)
                            requires
                                0 <= self.width as int,
                                1 <= self.columns as int,
                                column_width as int == self.width as int / self.columns as int,
                                1 <= column <= self.columns as int,
                        ;
                    }
                    column_width * (column - 1)
                },
                None => 0,
            };
            let y = match t.row {
                Some(row) => {
                    proof {
                        assert(0 <= row_height as int && row_height as int * (row - 1)
                            <= self.height as int) by (nonlinear_arith)
                            requires
                                0 <= self.height as int,
                                1 <= self.rows as int,
                                row_height as int == self.height as int / self.rows as int,
                                1 <= row <= self.rows as int,
                        ;
                    }
                    row_height * (row - 1)
                },
                None => 0,
            };
            let h = match t.row {
                Some(_) => row_height,
                None => self.height,
            };
            let w = match t.column {
                Some(_) => column_width,
                None => self.width,
            };
            (x, y + 20, w, h)
        }
    }
}

/// Whether tile `t` covers the zero-based grid cell (`r`, `c`): exact
/// coordinates cover one cell, a spanning axis covers its whole stripe, a
/// tile with no coordinates covers the origin.
pub open spec fn spec_covers(t: Tile, r: int, c: int, rows: int, columns: int) -> bool {
    match (t.row, t.column) {
        (Option::Some(tr), Option::Some(tc)) => tr - 1 == r && tc - 1 == c,
        (Option::Some(tr), Option::None) => tr - 1 == r && 0 <= c < columns,
        (Option::None, Option::Some(tc)) => tc - 1 == c && 0 <= r < rows,
        (Option::None, Option::None) => r == 0 && c == 0,
    }
}

/// The window shown in cell (`r`, `c`): of the tiles covering it, the last
/// wins.
pub open spec fn spec_cell(tiles: Seq<Tile>, r: int, c: int, rows: int, columns: int) -> Option<
    i32,
>
    decreases tiles.len(),
{
    if tiles.len() == 0 {
        None
    } else if spec_covers(tiles[tiles.len() - 1], r, c, rows, columns) {
        Some(tiles[tiles.len() - 1].window.id)
    } else {
        spec_cell(tiles.drop_last(), r, c, rows, columns)
    }
}

/// The window shown in cell (`r`, `c`).
fn cell(tiles: &Vec<Tile>, r: i32, c: i32, rows: i32, columns: i32) -> (res: Option<i32>)
    requires
        forall|i: int|
            0 <= i < tiles@.len() ==> ((#[trigger] tiles@[i]).row matches Some(v) ==> v >= 1),
        forall|i: int|
            0 <= i < tiles@.len() ==> ((#[trigger] tiles@[i]).column matches Some(v) ==> v >= 1),
    ensures
        res == spec_cell(tiles@, r as int, c as int, rows as int, columns as int),
{
    let mut k: usize = tiles.len();
    proof {
        assert(tiles@.subrange(0, tiles@.len() as int) =~= tiles@);
    }
    while k > 0
        invariant
            k <= tiles.len(),
            forall|i: int|
                0 <= i < tiles@.len() ==> ((#[trigger] tiles@[i]).row matches Some(v) ==> v >= 1),
            forall|i: int|
                0 <= i < tiles@.len() ==> ((#[trigger] tiles@[i]).column matches Some(v) ==> v
                    >= 1),
            spec_cell(tiles@, r as int, c as int, rows as int, columns as int) == spec_cell(
                tiles@.subrange(0, k as int),
                r as int,
                c as int,
                rows as int,
                columns as int,
            ),
        decreases k,
    {
        let t = &tiles[k - 1];
        let covered = match (&t.row, &t.column) {
            (Option::Some(tr), Option::Some(tc)) => *tr - 1 == r && *tc - 1 == c,
            (Option::Some(tr), Option::None) => *tr - 1 == r && 0 <= c && c < columns,
            (Option::None, Option::Some(tc)) => *tc - 1 == c && 0 <= r && r < rows,
            (Option::None, Option::None) => r == 0 && c == 0,
        };
        proof {
            assert(tiles@.subrange(0, k as int).drop_last() =~= tiles@.subrange(0, k as int - 1));
            assert(tiles@.subrange(0, k as int).last() == tiles@[k as int - 1]);
        }
        if covered {
            return Some(t.window.id);
        }
        k = k - 1;
    }
    proof {
        assert(tiles@.subrange(0, 0) =~= Seq::<Tile>::empty());
    }
    None
}

impl TileGrid {
    /// The grid's cells row by row: for each cell the id of the window shown
    /// there, later tiles painting over earlier ones.
    pub fn grid_cells(&self) -> (res: Vec<Vec<Option<i32>>>)
        requires
            1 <= self.rows <= 10,
            1 <= self.columns <= 10,
            forall|i: int|
                0 <= i < self@.tiles.len() ==> ((#[trigger] self@.tiles[i]).row matches Some(v)
                    ==> v >= 1),
            forall|i: int|
                0 <= i < self@.tiles.len() ==> ((#[trigger] self@.tiles[i]).column matches Some(v)
                    ==> v >= 1),
        ensures
            res@.len() == self@.rows,
            forall|r: int| 0 <= r < res@.len() ==> (#[trigger] res@[r])@.len() == self@.columns,
            forall|r: int, c: int|
                0 <= r < res@.len() && 0 <= c < res@[r]@.len() ==> #[trigger] res@[r]@[c]
                    == spec_cell(self@.tiles, r, c, self@.rows, self@.columns),
    {
        let mut rows_out: Vec<Vec<Option<i32>>> = Vec::new();
        let mut r: i32 = 0;
        while r < self.rows
            invariant
                0 <= r <= self.rows,
                self.rows <= 10,
                self.columns <= 10,
                1 <= self.columns,
                forall|i: int|
                    0 <= i < self@.tiles.len() ==> ((#[trigger] self@.tiles[i]).row matches Some(v)
                        ==> v >= 1),
                forall|i: int|
                    0 <= i < self@.tiles.len() ==> ((#[trigger] self@.tiles[i]).column
                        matches Some(v) ==> v >= 1),
                rows_out@.len() == r as int,
                forall|rr: int|
                    0 <= rr < rows_out@.len() ==> (#[trigger] rows_out@[rr])@.len()
                        == self@.columns,
                forall|rr: int, cc: int|
                    0 <= rr < rows_out@.len() && 0 <= cc < rows_out@[rr]@.len()
                        ==> #[trigger] rows_out@[rr]@[cc] == spec_cell(
                        self@.tiles,
                        rr,
                        cc,
                        self@.rows,
                        self@.columns,
                    ),
            decreases self.rows - r,
        {
            let mut row_out: Vec<Option<i32>> = Vec::new();
            let mut c: i32 = 0;
            while c < self.columns
                invariant
                    0 <= c <= self.columns,
                    self.columns <= 10,
                    0 <= r < self.rows,
                    forall|i: int|
                        0 <= i < self@.tiles.len() ==> ((#[trigger] self@.tiles[i]).row
                            matches Some(v) ==> v >= 1),
                    forall|i: int|
                        0 <= i < self@.tiles.len() ==> ((#[trigger] self@.tiles[i]).column
                            matches Some(v) ==> v >= 1),
                    row_out@.len() == c as int,
                    forall|cc: int|
                        0 <= cc < row_out@.len() ==> #[trigger] row_out@[cc] == spec_cell(
                            self@.tiles,
                            r as int,
                            cc,
                            self@.rows,
                            self@.columns,
                        ),
                decreases self.columns - c,
            {
                let v = cell(&self.tiles, r, c, self.rows, self.columns);
                row_out.push(v);
                c = c + 1;
            }
            rows_out.push(row_out);
            r = r + 1;
        }
        rows_out
    }
}

/// Both grids agree on every field but the tiles.
pub open spec fn same_but_tiles(a: GridView, b: GridView) -> bool {
    &&& a.focused_window_id == b.focused_window_id
    &&& a.taskbar_window == b.taskbar_window
    &&& a.rows == b.rows
    &&& a.columns == b.columns
    &&& a.height == b.height
    &&& a.width == b.width
}

} // verus!
