use crate::input::MouseState;
use crate::layout::margins_fit;
use vstd::prelude::*;

verus! {

/// Width of a main-menu button, in character columns.
pub const BUTTON_WIDTH: u16 = 51;

/// Height of a main-menu button, in character rows.
pub const BUTTON_HEIGHT: u16 = 6;

/// The screen to switch to.
#[derive(Clone, Copy, Debug, PartialEq, Eq, Structural)]
pub enum NextMode {
    Menu,
    GamePicker,
    Editor,
}

/// The main menu.
#[derive(Clone, Copy, Debug, PartialEq, Eq, Structural)]
pub struct Menu;

impl Menu {
    pub fn new() -> (r: Menu)
        ensures
            r == Menu,
    {
        Menu
    }

    /// The screen that a click on the menu leads to: the upper button opens
    /// the game picker, the lower one the editor.
    pub fn next_mode(&self, mouse_state: &MouseState, horizontal_margin: u16, vertical_margin: u16) -> (r: Option<NextMode>)
        requires
            margins_fit(horizontal_margin, vertical_margin),
        ensures
            r == if mouse_state.left_button != crate::input::ButtonState::GettingReleased {
                None
            } else if mouse_state.hovers(horizontal_margin + 35, vertical_margin + 20, BUTTON_WIDTH as int, BUTTON_HEIGHT as int) {
                Some(NextMode::GamePicker)
            } else if mouse_state.hovers(horizontal_margin + 35, vertical_margin + 30, BUTTON_WIDTH as int, BUTTON_HEIGHT as int) {
                Some(NextMode::Editor)
            } else {
                None
            },
    {
        if mouse_state.is_clicked(horizontal_margin + 35, vertical_margin + 20, BUTTON_WIDTH, BUTTON_HEIGHT) {
            Some(NextMode::GamePicker)
        } else if mouse_state.is_clicked(horizontal_margin + 35, vertical_margin + 30, BUTTON_WIDTH, BUTTON_HEIGHT) {
            Some(NextMode::Editor)
        } else {
            None
        }
    }
}

/// The tab shown by the game picker.
#[derive(Clone, Copy, Debug, PartialEq, Eq, Structural)]
pub enum Section {
    OfflineGame,
    OnlineGame,
}

/// The screen where a game is picked.
#[derive(Clone, Copy, Debug, PartialEq, Eq, Structural)]
pub struct GamePicker {
    pub current_section: Section,
}

/// What a click on the game picker did.
#[derive(Clone, Copy, Debug, PartialEq, Eq, Structural)]
pub struct PickerOutcome {
    /// The screen to switch to, if any.
    pub next: Option<NextMode>,
    /// The tab changed, so the picker must be drawn anew.
    pub refresh: bool,
}

impl GamePicker {
    /// A game picker on the offline tab.
    pub fn new() -> (r: GamePicker)
        ensures
            r.current_section == Section::OfflineGame,
    {
        GamePicker { current_section: Section::OfflineGame }
    }

    /// Handles a click: on the other tab's title it switches tabs; on the
    /// offline tab, the editor button opens the editor; the back arrow
    /// returns to the menu.
    pub fn handle_clicks(&mut self, mouse_state: &MouseState, horizontal_margin: u16, vertical_margin: u16) -> (r: PickerOutcome)
        requires
            margins_fit(horizontal_margin, vertical_margin),
        ensures
            ({
                let clicked = |x: int, y: int, w: int, h: int|
                    mouse_state.hovers(x, y, w, h) && mouse_state.left_button == crate::input::ButtonState::GettingReleased;
                let hm = horizontal_margin as int;
                let vm = vertical_margin as int;
                let to_online = old(self).current_section == Section::OfflineGame && clicked(hm + 22, vm + 2, 15, 3);
                let to_offline = old(self).current_section == Section::OnlineGame && clicked(hm + 7, vm + 2, 15, 3);
                let to_editor = old(self).current_section == Section::OfflineGame && !to_online && clicked(hm + 107, vm + 4, 9, 5);
                &&& final(self).current_section == if to_online {
                    Section::OnlineGame
                } else if to_offline {
                    Section::OfflineGame
                } else {
                    old(self).current_section
                }
                &&& r.refresh == (to_online || to_offline)
                &&& r.next == if to_editor {
                    Some(NextMode::Editor)
                } else if clicked(hm, vm + 5, 6, 3) {
                    Some(NextMode::Menu)
                } else {
                    None
                }
            }),
    {
        let mut refresh = false;
        match self.current_section {
            Section::OfflineGame => {
                if mouse_state.is_clicked(horizontal_margin + 22, vertical_margin + 2, 15, 3) {
                    self.current_section = Section::OnlineGame;
                    refresh = true;
                } else if mouse_state.is_clicked(horizontal_margin + 107, vertical_margin + 4, 9, 5) {
                    return PickerOutcome { next: Some(NextMode::Editor), refresh };
                }
            },
            Section::OnlineGame => {
                if mouse_state.is_clicked(horizontal_margin + 7, vertical_margin + 2, 15, 3) {
                    self.current_section = Section::OfflineGame;
                    refresh = true;
                }
            },
        }
        if mouse_state.is_clicked(horizontal_margin, vertical_margin + 5, 6, 3) {
            return PickerOutcome { next: Some(NextMode::Menu), refresh };
        }
        PickerOutcome { next: None, refresh }
    }
}

} // verus!
