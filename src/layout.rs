use crate::input::WindowState;
use crate::level::{LEVEL_MAP_WIDTH, LEVEL_SIZE};
use vstd::prelude::*;

verus! {

/// Width of the editor's sidebar, in character columns.
pub const SIDEBAR_WIDTH: u16 = 25;

/// The narrowest window that the screens fit in.
pub const MIN_WIDTH: u16 = LEVEL_MAP_WIDTH + SIDEBAR_WIDTH;

/// The lowest window that the screens fit in.
pub const MIN_HEIGHT: u16 = LEVEL_SIZE;

/// The margins leave room for the screens on a terminal of `u16` columns
/// and rows.
pub open spec fn margins_fit(horizontal_margin: u16, vertical_margin: u16) -> bool {
    horizontal_margin + MIN_WIDTH <= u16::MAX && vertical_margin + MIN_HEIGHT <= u16::MAX
}

/// Where the screens stand in a window: `None` when the window is too small
/// for them, else the left and top margins that center them.
pub open spec fn margins_spec(w: WindowState) -> Option<(u16, u16)> {
    if w.width < MIN_WIDTH || w.height < MIN_HEIGHT {
        None
    } else {
        Some((((w.width - MIN_WIDTH) / 2) as u16, ((w.height - MIN_HEIGHT) / 2) as u16))
    }
}

/// The left and top margins that center the screens in the window, or
/// `None` when the window is too small for them.
pub fn margins_for(window: &WindowState) -> (r: Option<(u16, u16)>)
    ensures
        r == margins_spec(*window),
        r is Some ==> r->Some_0.0 + MIN_WIDTH <= window.width && r->Some_0.1 + MIN_HEIGHT
            <= window.height && margins_fit(r->Some_0.0, r->Some_0.1),
{
    if window.width < MIN_WIDTH || window.height < MIN_HEIGHT {
        None
    } else {
        Some(((window.width - MIN_WIDTH) / 2, (window.height - MIN_HEIGHT) / 2))
    }
}

/// The grid cell under the character cell `(column, row)` of the map drawn
/// with its top-left corner at `(horizontal_margin, vertical_margin)`: each
/// grid column takes two character columns.
pub fn screen_to_map(column: u16, row: u16, horizontal_margin: u16, vertical_margin: u16) -> (r: (
    u16,
    u16,
))
    requires
        horizontal_margin <= column,
        vertical_margin <= row,
    ensures
        r.0 == (column - horizontal_margin) / 2,
        r.1 == row - vertical_margin,
{
    ((column - horizontal_margin) / 2, row - vertical_margin)
}

/// The character cell where the grid cell `(x, y)` starts on screen.
pub fn map_to_screen(x: u16, y: u16, horizontal_margin: u16, vertical_margin: u16) -> (r: (u16, u16))
    requires
        x < LEVEL_SIZE,
        y < LEVEL_SIZE,
        horizontal_margin + LEVEL_MAP_WIDTH <= u16::MAX,
        vertical_margin + LEVEL_SIZE <= u16::MAX,
    ensures
        r.0 == 2 * x + horizontal_margin,
        r.1 == y + vertical_margin,
{
    (2 * x + horizontal_margin, y + vertical_margin)
}

} // verus!
