//! Backend-agnostic input types: keys, modifiers and mouse events.
//!
//! Terminal backends convert their own events into these types; the key
//! bindings and handlers of the library read only these.

use vstd::prelude::*;

verus! {

/// A key on the keyboard.
#[derive(Debug, Clone, Copy, PartialEq, Eq, Hash, Structural)]
pub enum KeyCode {
    /// Arrow up.
    Up,
    /// Arrow down.
    Down,
    /// Arrow left.
    Left,
    /// Arrow right.
    Right,
    /// A character key.
    Char(char),
    /// The Delete key.
    Delete,
    /// The Backspace key.
    Backspace,
    /// The Escape key.
    Esc,
    /// The Enter key.
    Enter,
    /// The Tab key.
    Tab,
    /// The Home key.
    Home,
    /// The End key.
    End,
    /// The Page Up key.
    PageUp,
    /// The Page Down key.
    PageDown,
    /// A function key, `F(1)` for F1.
    F(u8),
    /// Any other key.
    Other,
}

/// The modifier keys held during an input event.
#[derive(Debug, Clone, Copy, PartialEq, Eq, Hash, Default, Structural)]
pub struct Modifiers {
    /// Shift is held.
    pub shift: bool,
    /// Control is held.
    pub ctrl: bool,
    /// Alt is held.
    pub alt: bool,
}

impl Modifiers {
    /// No modifier held.
    pub fn none() -> (r: Modifiers)
        ensures
            r == (Modifiers { shift: false, ctrl: false, alt: false }),
    {
        Modifiers { shift: false, ctrl: false, alt: false }
    }

    /// Shift alone.
    pub fn shift() -> (r: Modifiers)
        ensures
            r == (Modifiers { shift: true, ctrl: false, alt: false }),
    {
        Modifiers { shift: true, ctrl: false, alt: false }
    }

    /// Control alone.
    pub fn ctrl() -> (r: Modifiers)
        ensures
            r == (Modifiers { shift: false, ctrl: true, alt: false }),
    {
        Modifiers { shift: false, ctrl: true, alt: false }
    }

    /// Alt alone.
    pub fn alt() -> (r: Modifiers)
        ensures
            r == (Modifiers { shift: false, ctrl: false, alt: true }),
    {
        Modifiers { shift: false, ctrl: false, alt: true }
    }

    /// Whether any modifier is held.
    pub fn any(&self) -> (r: bool)
        ensures
            r == (self.shift || self.ctrl || self.alt),
    {
        self.shift || self.ctrl || self.alt
    }
}

/// A key press with its modifiers.
#[derive(Debug, Clone, Copy, PartialEq, Eq, Structural)]
pub struct KeyEvent {
    /// The key.
    pub code: KeyCode,
    /// The modifiers held.
    pub modifiers: Modifiers,
}

impl KeyEvent {
    /// A key press without modifiers.
    pub fn new(code: KeyCode) -> (r: Self)
        ensures
            r.code == code,
            r.modifiers == (Modifiers { shift: false, ctrl: false, alt: false }),
    {
        KeyEvent { code, modifiers: Modifiers::none() }
    }

    /// A key press with the given modifiers.
    pub fn with_modifiers(code: KeyCode, modifiers: Modifiers) -> (r: Self)
        ensures
            r.code == code,
            r.modifiers == modifiers,
    {
        KeyEvent { code, modifiers }
    }
}

/// A mouse button.
#[derive(Debug, Clone, Copy, PartialEq, Eq, Hash, Structural)]
pub enum MouseButton {
    /// The left button.
    Left,
    /// The right button.
    Right,
    /// The middle button.
    Middle,
    /// A button the backend could not name.
    Unknown,
}

/// What a mouse event reports.
#[derive(Debug, Clone, Copy, PartialEq, Eq, Structural)]
pub enum MouseEventKind {
    /// A button was pressed.
    Down(MouseButton),
    /// A button was released.
    Up(MouseButton),
    /// The mouse moved with a button held.
    Drag(MouseButton),
    /// The mouse moved with no button held.
    Moved,
    /// The wheel scrolled up.
    ScrollUp,
    /// The wheel scrolled down.
    ScrollDown,
    /// The wheel scrolled left.
    ScrollLeft,
    /// The wheel scrolled right.
    ScrollRight,
}

/// A mouse event at a terminal cell.
#[derive(Debug, Clone, Copy, PartialEq, Eq, Structural)]
pub struct MouseEvent {
    /// What happened.
    pub kind: MouseEventKind,
    /// The terminal column, from 0.
    pub column: u16,
    /// The terminal row, from 0.
    pub row: u16,
    /// The modifiers held.
    pub modifiers: Modifiers,
}

impl MouseEvent {
    /// A mouse event without modifiers.
    pub fn new(kind: MouseEventKind, column: u16, row: u16) -> (r: Self)
        ensures
            r.kind == kind,
            r.column == column,
            r.row == row,
            r.modifiers == (Modifiers { shift: false, ctrl: false, alt: false }),
    {
        MouseEvent { kind, column, row, modifiers: Modifiers::none() }
    }

    /// A mouse event with the given modifiers.
    pub fn with_modifiers(kind: MouseEventKind, column: u16, row: u16, modifiers: Modifiers) -> (r: Self)
        ensures
            r.kind == kind,
            r.column == column,
            r.row == row,
            r.modifiers == modifiers,
    {
        MouseEvent { kind, column, row, modifiers }
    }
}

/// The buttons that a backend reports as held in one snapshot of the mouse,
/// for backends that report state rather than presses and releases.
#[derive(Debug, Clone, Copy, PartialEq, Eq, Default, Structural)]
pub struct HeldButtons {
    /// The left button is held.
    pub left: bool,
    /// The right button is held.
    pub right: bool,
    /// The middle button is held.
    pub middle: bool,
    /// Some other button or wheel bit is set.
    pub other: bool,
}

impl HeldButtons {
    /// No button is held.
    pub open spec fn none_held(self) -> bool {
        !self.left && !self.right && !self.middle && !self.other
    }

    /// The button that these held buttons stand for: left before right
    /// before middle; `Unknown` where none of the three is held.
    pub open spec fn spec_button(self) -> MouseButton {
        if self.left {
            MouseButton::Left
        } else if self.right {
            MouseButton::Right
        } else if self.middle {
            MouseButton::Middle
        } else {
            MouseButton::Unknown
        }
    }

    /// Whether no button is held.
    pub fn is_empty(&self) -> (r: bool)
        ensures
            r == self.none_held(),
    {
        !self.left && !self.right && !self.middle && !self.other
    }

    /// The button that these held buttons stand for: left before right
    /// before middle; `Unknown` where none of the three is held.
    pub fn button(&self) -> (r: MouseButton)
        ensures
            r == self.spec_button(),
    {
        if self.left {
            MouseButton::Left
        } else if self.right {
            MouseButton::Right
        } else if self.middle {
            MouseButton::Middle
        } else {
            MouseButton::Unknown
        }
    }
}

/// The kind read from a single snapshot, with no earlier state: `Moved`
/// where no button is held, else a press of the held button.
pub open spec fn snapshot_kind(buttons: HeldButtons) -> MouseEventKind {
    if buttons.none_held() {
        MouseEventKind::Moved
    } else {
        MouseEventKind::Down(buttons.spec_button())
    }
}

/// The event read from a single snapshot of the mouse, with no earlier
/// state: a held button reads as a press, no button as a move.
pub fn mouse_event_from_snapshot(column: u16, row: u16, modifiers: Modifiers, buttons: HeldButtons) -> (r: MouseEvent)
    ensures
        r == (MouseEvent { kind: snapshot_kind(buttons), column, row, modifiers }),
{
    let kind = if buttons.is_empty() {
        MouseEventKind::Moved
    } else {
        MouseEventKind::Down(buttons.button())
    };
    MouseEvent { kind, column, row, modifiers }
}

/// What a snapshot reports after the previous one `prev` (held buttons,
/// column, row): a press when buttons become held, a release of the
/// buttons held before when none is held any more, a drag when buttons stay
/// held and the mouse moved, a move when none is held and the mouse moved,
/// and nothing otherwise.
pub open spec fn tracked_kind(prev: (HeldButtons, u16, u16), column: u16, row: u16, buttons: HeldButtons) -> Option<MouseEventKind> {
    let was_pressed = !prev.0.none_held();
    let is_pressed = !buttons.none_held();
    let moved = column != prev.1 || row != prev.2;
    if !was_pressed && is_pressed {
        Some(MouseEventKind::Down(buttons.spec_button()))
    } else if was_pressed && !is_pressed {
        Some(MouseEventKind::Up(prev.0.spec_button()))
    } else if is_pressed && moved {
        Some(MouseEventKind::Drag(buttons.spec_button()))
    } else if !is_pressed && moved {
        Some(MouseEventKind::Moved)
    } else {
        None
    }
}

/// The event that a snapshot reports after the previous one `prev`.
pub open spec fn tracked_event(prev: (HeldButtons, u16, u16), column: u16, row: u16, modifiers: Modifiers, buttons: HeldButtons) -> Option<MouseEvent> {
    match tracked_kind(prev, column, row, buttons) {
        Some(kind) => Some(MouseEvent { kind, column, row, modifiers }),
        None => None,
    }
}

/// Turns snapshots of the mouse (position and held buttons) into presses,
/// releases, drags and moves by comparing each with the one before.
#[derive(Debug, Default)]
pub struct MouseStateTracker {
    prev_buttons: HeldButtons,
    prev_x: u16,
    prev_y: u16,
}

impl MouseStateTracker {
    /// The previous snapshot: held buttons, column, row.
    pub closed spec fn previous(self) -> (HeldButtons, u16, u16) {
        (self.prev_buttons, self.prev_x, self.prev_y)
    }

    /// A tracker that has seen no button held, at column 0 and row 0.
    pub fn new() -> (r: Self)
        ensures
            r.previous() == (HeldButtons { left: false, right: false, middle: false, other: false }, 0u16, 0u16),
    {
        MouseStateTracker {
            prev_buttons: HeldButtons { left: false, right: false, middle: false, other: false },
            prev_x: 0,
            prev_y: 0,
        }
    }

    /// Reads the next snapshot: returns the event that it reports after the
    /// previous one, or `None` where nothing changed, and remembers it.
    pub fn process(&mut self, column: u16, row: u16, modifiers: Modifiers, buttons: HeldButtons) -> (r: Option<MouseEvent>)
        ensures
            r == tracked_event(old(self).previous(), column, row, modifiers, buttons),
            final(self).previous() == (buttons, column, row),
    {
        let was_pressed = !self.prev_buttons.is_empty();
        let is_pressed = !buttons.is_empty();
        let moved = column != self.prev_x || row != self.prev_y;
        let kind = if !was_pressed && is_pressed {
            Some(MouseEventKind::Down(buttons.button()))
        } else if was_pressed && !is_pressed {
            Some(MouseEventKind::Up(self.prev_buttons.button()))
        } else if is_pressed && moved {
            Some(MouseEventKind::Drag(buttons.button()))
        } else if !is_pressed && moved {
            Some(MouseEventKind::Moved)
        } else {
            None
        };
        self.prev_buttons = buttons;
        self.prev_x = column;
        self.prev_y = row;
        match kind {
            Some(k) => Some(MouseEvent { kind: k, column, row, modifiers }),
            None => None,
        }
    }
}

/// A snapshot equal to the previous one reports nothing.
pub proof fn lemma_repeated_snapshot_is_quiet(prev: (HeldButtons, u16, u16), modifiers: Modifiers)
    ensures
        tracked_event(prev, prev.1, prev.2, modifiers, prev.0).is_none(),
{
}

/// A release reports the button that the press before it reported, wherever
/// the mouse went between them.
pub proof fn lemma_release_matches_press(
    prev: (HeldButtons, u16, u16),
    column: u16,
    row: u16,
    modifiers: Modifiers,
    held: HeldButtons,
    column2: u16,
    row2: u16,
    modifiers2: Modifiers,
    released: HeldButtons,
)
    requires
        prev.0.none_held(),
        !held.none_held(),
        released.none_held(),
    ensures
        tracked_event(prev, column, row, modifiers, held) == Some(
            MouseEvent { kind: MouseEventKind::Down(held.spec_button()), column, row, modifiers },
        ),
        tracked_event((held, column, row), column2, row2, modifiers2, released) == Some(
            MouseEvent { kind: MouseEventKind::Up(held.spec_button()), column: column2, row: row2, modifiers: modifiers2 },
        ),
{
}

} // verus!
