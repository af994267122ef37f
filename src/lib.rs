//! Level editor core of a terminal tank-battle game: the grid of terrain
//! tiles and tanks, the editing tools, the mouse-driven editor controller
//! and the navigation between screens.

pub mod editor;
pub mod input;
pub mod layout;
pub mod level;
pub mod modes;
pub mod rect;
pub mod tool;
