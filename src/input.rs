use vstd::prelude::*;

verus! {

/// The scroll wheel's movement since the last snapshot.
#[derive(Clone, Copy, Debug, PartialEq, Eq, Structural)]
pub enum ScrollState {
    Up,
    Down,
    /// No scroll since the last snapshot.
    Still,
}

/// The left mouse button. `GettingPressed` and `GettingReleased` are edges:
/// a snapshot shows each once, then it settles to `Pressed` or `Released`.
#[derive(Clone, Copy, Debug, PartialEq, Eq, Structural)]
pub enum ButtonState {
    Pressed,
    Released,
    GettingPressed,
    GettingReleased,
}

/// A mouse event as the input reader hands it over.
#[derive(Clone, Copy, Debug, PartialEq, Eq, Structural)]
pub enum MouseAction {
    LeftDown,
    LeftUp,
    ScrollUp,
    ScrollDown,
    /// Any other event: a move, a drag or another button. Only the pointer
    /// position is taken from it.
    Other,
}

/// The pointer position in character cells, the left button and the
/// scroll wheel.
#[derive(Clone, Copy, Debug, PartialEq, Eq, Structural)]
pub struct MouseState {
    pub column: u16,
    pub row: u16,
    pub left_button: ButtonState,
    pub scroll: ScrollState,
}

/// The button after a release event.
pub open spec fn after_release(b: ButtonState) -> ButtonState {
    match b {
        ButtonState::GettingPressed => ButtonState::GettingReleased,
        ButtonState::GettingReleased => ButtonState::Released,
        ButtonState::Pressed => ButtonState::GettingReleased,
        ButtonState::Released => ButtonState::Released,
    }
}

/// The button after a press event.
pub open spec fn after_press(b: ButtonState) -> ButtonState {
    match b {
        ButtonState::GettingPressed => ButtonState::Pressed,
        ButtonState::GettingReleased => ButtonState::GettingPressed,
        ButtonState::Released => ButtonState::GettingPressed,
        ButtonState::Pressed => ButtonState::Pressed,
    }
}

/// The button once a snapshot has shown its edge.
pub open spec fn settled(b: ButtonState) -> ButtonState {
    match b {
        ButtonState::GettingPressed => ButtonState::Pressed,
        ButtonState::GettingReleased => ButtonState::Released,
        _ => b,
    }
}

/// The mouse state after an event at `(column, row)`.
pub open spec fn mouse_after(m: MouseState, column: u16, row: u16, action: MouseAction) -> MouseState {
    MouseState {
        column,
        row,
        left_button: match action {
            MouseAction::LeftDown => after_press(m.left_button),
            MouseAction::LeftUp => after_release(m.left_button),
            _ => m.left_button,
        },
        scroll: match action {
            MouseAction::ScrollUp => ScrollState::Up,
            MouseAction::ScrollDown => ScrollState::Down,
            _ => m.scroll,
        },
    }
}

impl MouseState {
    /// The pointer position is inside the inclusive rectangle from
    /// `(x, y)` to `(x + width, y + height)`.
    pub open spec fn hovers(self, x: int, y: int, width: int, height: int) -> bool {
        x <= self.column <= x + width && y <= self.row <= y + height
    }

    /// The mouse before any event: at (1, 1), the button up, no scroll.
    pub fn new() -> (r: MouseState)
        ensures
            r == (MouseState { column: 1, row: 1, left_button: ButtonState::Released, scroll: ScrollState::Still }),
    {
        MouseState { column: 1, row: 1, left_button: ButtonState::Released, scroll: ScrollState::Still }
    }

    /// Records an event at `(column, row)`.
    pub fn update(&mut self, column: u16, row: u16, action: MouseAction)
        ensures
            *final(self) == mouse_after(*old(self), column, row, action),
    {
        self.column = column;
        self.row = row;
        match action {
            MouseAction::LeftUp => {
                self.left_button = match self.left_button {
                    ButtonState::GettingPressed => ButtonState::GettingReleased,
                    ButtonState::GettingReleased => ButtonState::Released,
                    ButtonState::Pressed => ButtonState::GettingReleased,
                    ButtonState::Released => ButtonState::Released,
                };
            },
            MouseAction::LeftDown => {
                self.left_button = match self.left_button {
                    ButtonState::GettingPressed => ButtonState::Pressed,
                    ButtonState::GettingReleased => ButtonState::GettingPressed,
                    ButtonState::Released => ButtonState::GettingPressed,
                    ButtonState::Pressed => ButtonState::Pressed,
                };
            },
            MouseAction::ScrollUp => {
                self.scroll = ScrollState::Up;
            },
            MouseAction::ScrollDown => {
                self.scroll = ScrollState::Down;
            },
            MouseAction::Other => {},
        }
    }

    /// Takes a snapshot: returns the state as it is, then clears the scroll
    /// and settles the button's edge, so that each edge and each scroll is
    /// seen by one snapshot only.
    pub fn get_state(&mut self) -> (r: MouseState)
        ensures
            r == *old(self),
            *final(self) == (MouseState {
                scroll: ScrollState::Still,
                left_button: settled(old(self).left_button),
                ..*old(self)
            }),
    {
        let state = *self;
        self.scroll = ScrollState::Still;
        match self.left_button {
            ButtonState::GettingPressed => self.left_button = ButtonState::Pressed,
            ButtonState::GettingReleased => self.left_button = ButtonState::Released,
            _ => {},
        }
        state
    }

    /// Whether the pointer is inside the inclusive rectangle from `(x, y)`
    /// to `(x + width, y + height)`.
    pub fn is_hovered(&self, x: u16, y: u16, width: u16, height: u16) -> (r: bool)
        ensures
            r == self.hovers(x as int, y as int, width as int, height as int),
    {
        self.column >= x && self.column as u32 <= x as u32 + width as u32 && self.row >= y
            && self.row as u32 <= y as u32 + height as u32
    }

    /// Whether the button is being released over the inclusive rectangle
    /// from `(x, y)` to `(x + width, y + height)`.
    pub fn is_clicked(&self, x: u16, y: u16, width: u16, height: u16) -> (r: bool)
        ensures
            r == (self.hovers(x as int, y as int, width as int, height as int)
                && self.left_button == ButtonState::GettingReleased),
    {
        self.is_hovered(x, y, width, height) && matches!(self.left_button, ButtonState::GettingReleased)
    }
}

/// The terminal's size in character cells.
#[derive(Clone, Copy, Debug, PartialEq, Eq, Structural)]
pub struct WindowState {
    pub width: u16,
    pub height: u16,
}

impl WindowState {
    /// Records a resize.
    pub fn update(&mut self, width: u16, height: u16)
        ensures
            *final(self) == (WindowState { width, height }),
    {
        self.width = width;
        self.height = height;
    }

    /// A snapshot of the size.
    pub fn get_state(&self) -> (r: WindowState)
        ensures
            r == *self,
    {
        *self
    }
}

/// A key, by its code in the keyboard reader's numbering.
pub type KeyCode = u16;

/// The keys that one player steers with.
#[derive(Clone, Copy, Debug, PartialEq, Eq, Structural)]
pub struct PlayerKeybindings {
    pub up: KeyCode,
    pub down: KeyCode,
    pub left: KeyCode,
    pub right: KeyCode,
    pub shoot: KeyCode,
}

/// Which of one player's keys are down.
#[derive(Clone, Copy, Debug, PartialEq, Eq, Structural)]
pub struct PlayerKeysState {
    pub up: bool,
    pub down: bool,
    pub left: bool,
    pub right: bool,
    pub shoot: bool,
}

/// Whether `key` is among the keys that are down.
fn is_down(keys: &Vec<KeyCode>, key: KeyCode) -> (r: bool)
    ensures
        r == keys@.contains(key),
{
    let mut i: usize = 0;
    while i < keys.len()
        invariant
            i <= keys@.len(),
            forall|j: int| 0 <= j < i ==> keys@[j] != key,
        decreases keys@.len() - i,
    {
        if keys[i] == key {
            assert(keys@[i as int] == key);
            return true;
        }
        i += 1;
    }
    false
}

impl PlayerKeysState {
    /// The keys of `keybindings` that are among the keys down.
    pub open spec fn of(keys: Seq<KeyCode>, keybindings: PlayerKeybindings) -> PlayerKeysState {
        PlayerKeysState {
            up: keys.contains(keybindings.up),
            down: keys.contains(keybindings.down),
            left: keys.contains(keybindings.left),
            right: keys.contains(keybindings.right),
            shoot: keys.contains(keybindings.shoot),
        }
    }

    /// Which of the player's keys are among the keys down.
    pub fn new(keys: &Vec<KeyCode>, keybindings: &PlayerKeybindings) -> (r: PlayerKeysState)
        ensures
            r == PlayerKeysState::of(keys@, *keybindings),
    {
        PlayerKeysState {
            up: is_down(keys, keybindings.up),
            down: is_down(keys, keybindings.down),
            left: is_down(keys, keybindings.left),
            right: is_down(keys, keybindings.right),
            shoot: is_down(keys, keybindings.shoot),
        }
    }

    /// The state of each of the four players' keys.
    pub fn get_players_keys_state(keys: &Vec<KeyCode>, keybindings: &[PlayerKeybindings; 4]) -> (r: [PlayerKeysState; 4])
        ensures
            forall|p: int| 0 <= p < 4 ==> #[trigger] r@[p] == PlayerKeysState::of(keys@, keybindings@[p]),
    {
        let r = [
            PlayerKeysState::new(keys, &keybindings[0]),
            PlayerKeysState::new(keys, &keybindings[1]),
            PlayerKeysState::new(keys, &keybindings[2]),
            PlayerKeysState::new(keys, &keybindings[3]),
        ];
        assert(r@[0] == PlayerKeysState::of(keys@, keybindings@[0]));
        r
    }
}

} // verus!
