use vstd::prelude::*;

use crate::tile_grid::SplitDirection;

verus! {

/// A host window, identified by a numeric handle and a title.
#[derive(Debug, Clone)]
pub struct Window {
    pub id: i32,
    pub name: String,
}

/// One cell of the tiling grid: a window plus its (optional) row and column.
/// `None` for a coordinate means the tile spans the whole axis.
#[derive(Debug, Clone)]
pub struct Tile {
    pub window: Window,
    pub row: Option<i32>,
    pub column: Option<i32>,
    pub split_direction: SplitDirection,
}

impl Tile {
    /// A fresh tile for `window`, spanning both axes, splitting vertically.
    pub fn new(window: Window) -> (t: Tile)
        ensures
            t == (Tile {
                window: window,
                row: None::<i32>,
                column: None::<i32>,
                split_direction: SplitDirection::Vertical,
            }),
    {
        Tile { window, row: None, column: None, split_direction: SplitDirection::Vertical }
    }
}

} // verus!
