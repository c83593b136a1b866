use oxru::dialog::Dialog;
use oxru::gui::{
    physical_char, render_decision, translate_key, window_title, CursorIcon, LogicalKey, PhysKey,
    Screen, WindowInput, WindowLoop, WindowStep,
};
use oxru::hits::{Pane, Rect, TabHit};
use oxru::keyevent::{KeyCode, KeyEvent, KeyModifiers};

#[test]
fn dirty_repaint_arms_exactly_one_catchup() {
    // Keystroke: dirty repaint happens, and one catch-up is scheduled.
    let d = render_decision(true, false, false, false);
    assert!(d.should_render);
    assert!(d.next_catchup_pending);

    // Next tick, nothing new dirty: the catch-up itself repaints, then
    // clears: it must not chain into a third repaint.
    let d = render_decision(false, true, false, false);
    assert!(d.should_render, "the catch-up repaint must happen");
    assert!(!d.next_catchup_pending, "must not chain forever");

    // Third tick, truly idle: no repaint forced.
    let d = render_decision(false, false, false, false);
    assert!(!d.should_render);
    assert!(!d.next_catchup_pending);
}

#[test]
fn continuous_typing_keeps_rendering_every_tick() {
    for _ in 0..5 {
        let d = render_decision(true, false, false, false);
        assert!(d.should_render);
        assert!(d.next_catchup_pending);
    }
}

#[test]
fn terminal_due_and_idle_floor_render_without_arming_catchup() {
    let d = render_decision(false, false, true, false);
    assert!(d.should_render);
    assert!(!d.next_catchup_pending);

    // The idle floor (toasts, labels) similarly doesn't need a catch-up.
    let d = render_decision(false, false, false, true);
    assert!(d.should_render);
    assert!(!d.next_catchup_pending);
}

#[test]
fn nothing_due_never_renders() {
    let d = render_decision(false, false, false, false);
    assert!(!d.should_render);
    assert!(!d.next_catchup_pending);
}

fn mods(control: bool, alt: bool, shift: bool, sup: bool) -> KeyModifiers {
    KeyModifiers { control, alt, shift, sup }
}

#[test]
fn a_key_press_is_painted_twice_and_then_no_more() {
    let mut w = WindowLoop::new(1_000);
    let first = w.tick(1_001, false, 100);
    assert!(first.render, "a new window is painted");
    w.tick(1_002, false, 100);
    let k = KeyEvent::new(KeyCode::Enter, mods(false, false, false, false));
    assert_eq!(w.window_event(WindowInput::Key(Some(k))), WindowStep::Key(k));
    assert!(w.tick(1_003, false, 100).render);
    assert!(w.tick(1_004, false, 100).render, "the caret catches up");
    assert!(!w.tick(1_005, false, 100).render);
}

#[test]
fn losing_the_focus_releases_the_button() {
    let mut w = WindowLoop::new(0);
    assert_eq!(
        w.window_event(WindowInput::LeftPressed(Some((3, 4)))),
        WindowStep::MouseDown(Some((3, 4)))
    );
    assert_eq!(
        w.window_event(WindowInput::CursorMoved(Some((5, 6)))),
        WindowStep::Drag(Some((5, 6)))
    );
    w.window_event(WindowInput::Focused(false));
    assert!(!w.left_pressed);
    assert_eq!(w.window_event(WindowInput::CursorMoved(Some((5, 6)))), WindowStep::Hover(5, 6));
    assert_eq!(w.window_event(WindowInput::CloseRequested), WindowStep::AskQuit);
}

#[test]
fn a_close_request_asks_for_a_frame() {
    let mut w = WindowLoop::new(0);
    w.tick(0, false, 1000);
    w.tick(1, false, 1000);
    assert!(!w.dirty && !w.tick(2, false, 1000).render);
    w.window_event(WindowInput::CloseRequested);
    assert!(w.dirty, "the question is to be painted");
    assert!(w.tick(3, false, 1000).render);
}

#[test]
fn keys_read_the_same_on_every_layout() {
    assert_eq!(physical_char(PhysKey::Letter(0)), Some('a'));
    assert_eq!(physical_char(PhysKey::Letter(25)), Some('z'));
    assert_eq!(physical_char(PhysKey::Letter(26)), None);
    assert_eq!(physical_char(PhysKey::Digit(7)), Some('7'));
    // Option+B types an integral sign on a Mac; the chord is still Alt+B.
    let m = mods(false, true, false, false);
    let k = translate_key(&LogicalKey::Text("\u{222b}".to_string()), PhysKey::Letter(1), m);
    assert_eq!(k, Some(KeyEvent::new(KeyCode::Char('b'), m)));
    let plain = mods(false, false, false, false);
    let k = translate_key(&LogicalKey::Text("\u{e9}".to_string()), PhysKey::Other, plain);
    assert_eq!(k, Some(KeyEvent::new(KeyCode::Char('\u{e9}'), plain)));
    assert_eq!(translate_key(&LogicalKey::Other, PhysKey::Other, plain), None);
}

#[test]
fn the_mouse_shows_what_it_is_over() {
    let screen = Screen {
        dialogs: false,
        top: None,
        list: None,
        terminal_tabs: None,
        tabs: vec![TabHit { row: 0, col_start: 0, col_end: 8, tab: 0 }],
        crumbs: vec![(2, 5)],
        panes: vec![Pane { editor: 0, area: Rect { x: 0, y: 2, w: 10, h: 5 } }],
    };
    assert_eq!(screen.desired_cursor_icon(3, 0), CursorIcon::Pointer);
    assert_eq!(screen.desired_cursor_icon(3, 1), CursorIcon::Pointer);
    assert_eq!(screen.desired_cursor_icon(3, 3), CursorIcon::Text);
    assert_eq!(screen.desired_cursor_icon(10, 3), CursorIcon::Pointer);
    assert_eq!(screen.desired_cursor_icon(40, 3), CursorIcon::Default);
    let covered = Screen {
        dialogs: true,
        top: Some(Dialog::Files),
        list: Some(Rect { x: 0, y: 0, w: 4, h: 4 }),
        ..screen
    };
    assert_eq!(covered.desired_cursor_icon(3, 3), CursorIcon::Pointer);
    assert_eq!(covered.desired_cursor_icon(6, 6), CursorIcon::Default);
}

#[test]
fn the_window_is_called_after_its_folder() {
    assert_eq!(window_title(Some("/home/me/project")), "Oxru - project");
    assert_eq!(window_title(None), "Oxru");
}

#[test]
fn frames_are_counted_by_the_second() {
    let mut w = WindowLoop::new(0);
    assert_eq!(w.sample_fps(10), None);
    assert!(w.beat(5).is_none());
}
