use rataflow::{
    default_controls_key_binding, default_flow_key_binding, ControlsAction, FlowAction, KeyCode,
    KeyEvent, Modifiers, MouseButton, MouseEvent, MouseEventKind,
};

#[test]
fn modifiers_any() {
    assert!(!Modifiers::none().any());
    assert!(Modifiers::shift().any());
    assert!(Modifiers::ctrl().any());
    assert!(Modifiers::alt().any());
    assert_eq!(Modifiers::default(), Modifiers::none());
}

#[test]
fn key_and_mouse_constructors() {
    let k = KeyEvent::new(KeyCode::Char('a'));
    assert_eq!(k.code, KeyCode::Char('a'));
    assert_eq!(k.modifiers, Modifiers::none());
    let k = KeyEvent::with_modifiers(KeyCode::Tab, Modifiers::shift());
    assert!(k.modifiers.shift);
    let m = MouseEvent::new(MouseEventKind::Down(MouseButton::Left), 3, 4);
    assert_eq!((m.column, m.row), (3, 4));
    assert_eq!(m.modifiers, Modifiers::none());
    let m = MouseEvent::with_modifiers(MouseEventKind::ScrollUp, 1, 2, Modifiers::ctrl());
    assert!(m.modifiers.ctrl);
}

#[test]
fn flow_bindings() {
    let b = |code: KeyCode| default_flow_key_binding(&KeyEvent::new(code));
    assert_eq!(b(KeyCode::Tab), Some(FlowAction::SelectNext));
    assert_eq!(
        default_flow_key_binding(&KeyEvent::with_modifiers(KeyCode::Tab, Modifiers::shift())),
        Some(FlowAction::SelectPrev)
    );
    assert_eq!(
        default_flow_key_binding(&KeyEvent::with_modifiers(KeyCode::Tab, Modifiers::ctrl())),
        None
    );
    assert_eq!(b(KeyCode::Up), Some(FlowAction::SelectUp));
    assert_eq!(b(KeyCode::Down), Some(FlowAction::SelectDown));
    assert_eq!(b(KeyCode::Left), Some(FlowAction::SelectLeft));
    assert_eq!(b(KeyCode::Right), Some(FlowAction::SelectRight));
    assert_eq!(b(KeyCode::Char('h')), Some(FlowAction::PanLeft));
    assert_eq!(b(KeyCode::Char('j')), Some(FlowAction::PanDown));
    assert_eq!(b(KeyCode::Char('k')), Some(FlowAction::PanUp));
    assert_eq!(b(KeyCode::Char('l')), Some(FlowAction::PanRight));
    assert_eq!(b(KeyCode::Delete), Some(FlowAction::Delete));
    assert_eq!(b(KeyCode::Backspace), Some(FlowAction::Delete));
    assert_eq!(b(KeyCode::Esc), Some(FlowAction::CancelConnection));
    assert_eq!(b(KeyCode::Char('c')), Some(FlowAction::CenterOnSelected));
    assert_eq!(b(KeyCode::Char('m')), Some(FlowAction::ToggleMultiSelect));
    assert_eq!(b(KeyCode::Char('x')), None);
    assert_eq!(
        default_flow_key_binding(&KeyEvent::with_modifiers(KeyCode::Char('h'), Modifiers::alt())),
        None
    );
}

#[test]
fn controls_bindings() {
    let b = |code: KeyCode| default_controls_key_binding(&KeyEvent::new(code));
    assert_eq!(b(KeyCode::Char('+')), Some(ControlsAction::ZoomIn));
    assert_eq!(b(KeyCode::Char('=')), Some(ControlsAction::ZoomIn));
    assert_eq!(b(KeyCode::Char('-')), Some(ControlsAction::ZoomOut));
    assert_eq!(b(KeyCode::Char('_')), Some(ControlsAction::ZoomOut));
    assert_eq!(b(KeyCode::Char('0')), Some(ControlsAction::ResetZoom));
    assert_eq!(b(KeyCode::Char('f')), Some(ControlsAction::FitView));
    assert_eq!(b(KeyCode::Char('i')), Some(ControlsAction::ToggleLock));
    assert_eq!(b(KeyCode::Char('h')), None);
    assert_eq!(
        default_controls_key_binding(&KeyEvent::with_modifiers(KeyCode::Char('+'), Modifiers::shift())),
        None
    );
}

#[test]
fn no_key_is_bound_twice() {
    let codes = [
        KeyCode::Up, KeyCode::Down, KeyCode::Left, KeyCode::Right, KeyCode::Delete,
        KeyCode::Backspace, KeyCode::Esc, KeyCode::Enter, KeyCode::Tab, KeyCode::Home,
        KeyCode::End, KeyCode::PageUp, KeyCode::PageDown, KeyCode::F(1), KeyCode::Other,
    ];
    let chars = "abcdefghijklmnopqrstuvwxyz0123456789+-=_";
    let all = codes.iter().copied().chain(chars.chars().map(KeyCode::Char));
    for code in all {
        let key = KeyEvent::new(code);
        assert!(
            !(default_controls_key_binding(&key).is_some() && default_flow_key_binding(&key).is_some()),
            "{:?} bound twice",
            code
        );
    }
}

fn held(left: bool, right: bool, middle: bool) -> rataflow::input::HeldButtons {
    rataflow::input::HeldButtons { left, right, middle, other: false }
}

#[test]
fn snapshot_without_history() {
    let e = rataflow::input::mouse_event_from_snapshot(3, 4, Modifiers::none(), held(false, false, false));
    assert_eq!(e, MouseEvent::new(MouseEventKind::Moved, 3, 4));
    let e = rataflow::input::mouse_event_from_snapshot(3, 4, Modifiers::ctrl(), held(false, true, true));
    assert_eq!(e.kind, MouseEventKind::Down(MouseButton::Right));
    assert_eq!(e.modifiers, Modifiers::ctrl());
    let other = rataflow::input::HeldButtons { left: false, right: false, middle: false, other: true };
    let e = rataflow::input::mouse_event_from_snapshot(0, 0, Modifiers::none(), other);
    assert_eq!(e.kind, MouseEventKind::Down(MouseButton::Unknown));
}

#[test]
fn tracker_press_drag_release() {
    let mut t = rataflow::input::MouseStateTracker::new();
    let m = Modifiers::none();
    // Nothing changed from the initial state.
    assert_eq!(t.process(0, 0, m, held(false, false, false)), None);
    // Move without buttons.
    assert_eq!(t.process(5, 2, m, held(false, false, false)), Some(MouseEvent::new(MouseEventKind::Moved, 5, 2)));
    // Press.
    assert_eq!(
        t.process(5, 2, m, held(true, false, false)),
        Some(MouseEvent::new(MouseEventKind::Down(MouseButton::Left), 5, 2))
    );
    // Held in place: nothing.
    assert_eq!(t.process(5, 2, m, held(true, false, false)), None);
    // Drag.
    assert_eq!(
        t.process(6, 2, m, held(true, false, false)),
        Some(MouseEvent::new(MouseEventKind::Drag(MouseButton::Left), 6, 2))
    );
    // Release reports the button held before.
    assert_eq!(
        t.process(7, 3, Modifiers::shift(), held(false, false, false)),
        Some(MouseEvent::with_modifiers(MouseEventKind::Up(MouseButton::Left), 7, 3, Modifiers::shift()))
    );
}
