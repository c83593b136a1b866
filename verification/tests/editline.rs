use oxru::editline::{
    backspace, clamp, delete_fwd, delete_selection, delete_word_left, end, handle_key, home, insert,
    insert_str, left, right, select_all, selected_text, selection, word_left, word_right, Edit,
    FieldRef,
};
use oxru::keyevent::{KeyCode, KeyEvent, KeyModifiers};

fn st(s: &str, cur: usize) -> (String, usize, Option<usize>) {
    (s.to_string(), cur, None)
}

const NONE: KeyModifiers = KeyModifiers { control: false, alt: false, shift: false, sup: false };

#[test]
fn insert_and_backspace_mid_string() {
    let (mut t, mut c, mut a) = st("helo", 3);
    insert(&mut t, &mut c, &mut a, 'l');
    assert_eq!(t, "hello");
    assert_eq!(c, 4);
    left(&t, &mut c, &mut a, false); // -> 3
    backspace(&mut t, &mut c, &mut a); // remove the 'l' before cursor
    assert_eq!(t, "helo");
    assert_eq!(c, 2);
}

#[test]
fn word_motion_and_delete() {
    let (mut t, mut c, mut a) = st("foo bar baz", 11);
    word_left(&t, &mut c, &mut a, false);
    assert_eq!(c, 8); // start of "baz"
    word_left(&t, &mut c, &mut a, false);
    assert_eq!(c, 4); // start of "bar"
    // Option+Backspace here deletes the word to the LEFT of the cursor ("foo ").
    delete_word_left(&mut t, &mut c, &mut a);
    assert_eq!(t, "bar baz");
    assert_eq!(c, 0);
}

#[test]
fn shift_selection_then_type_replaces() {
    let (mut t, mut c, mut a) = st("hello", 0);
    end(&t, &mut c, &mut a, true); // select all via shift+end
    assert_eq!(selection(c, a), Some((0, 5)));
    insert(&mut t, &mut c, &mut a, 'x');
    assert_eq!(t, "x");
    assert_eq!(c, 1);
}

#[test]
fn select_all_and_delete_forward() {
    let (mut t, mut c, mut a) = st("abc", 1);
    select_all(&t, &mut c, &mut a);
    assert_eq!(selected_text(&t, c, a).as_deref(), Some("abc"));
    delete_fwd(&mut t, &mut c, &mut a);
    assert_eq!(t, "");
    assert_eq!(c, 0);
}

#[test]
fn unicode_is_char_indexed() {
    let (mut t, mut c, mut a) = st("caf\u{e9}", 4);
    backspace(&mut t, &mut c, &mut a);
    assert_eq!(t, "caf");
    assert_eq!(c, 3);
}

#[test]
fn typing_and_erasing_a_character_leaves_the_field() {
    let (mut t, mut c, mut a) = st("caf\u{e9}", 2);
    insert(&mut t, &mut c, &mut a, '\u{4e2d}');
    assert_eq!(t, "ca\u{4e2d}f\u{e9}");
    backspace(&mut t, &mut c, &mut a);
    assert_eq!((t.as_str(), c, a), ("caf\u{e9}", 2, None));
}

#[test]
fn field_keys_do_what_they_say() {
    let (mut t, mut c, mut a) = st("one two", 7);
    let key = |code: KeyCode| KeyEvent::new(code, NONE);
    let r = handle_key(
        FieldRef { text: &mut t, cursor: &mut c, anchor: &mut a },
        key(KeyCode::Left),
        false,
        true,
        true,
    );
    assert_eq!(r, Edit::Moved);
    assert_eq!((c, a), (4, Some(7)));
    let r = handle_key(
        FieldRef { text: &mut t, cursor: &mut c, anchor: &mut a },
        key(KeyCode::Char('X')),
        false,
        false,
        true,
    );
    assert_eq!(r, Edit::Changed);
    assert_eq!((t.as_str(), c, a), ("one X", 5, None));
    let r = handle_key(
        FieldRef { text: &mut t, cursor: &mut c, anchor: &mut a },
        key(KeyCode::Char('c')),
        true,
        false,
        false,
    );
    assert_eq!(r, Edit::Copy);
    assert_eq!(t, "one X");
    let r = handle_key(
        FieldRef { text: &mut t, cursor: &mut c, anchor: &mut a },
        key(KeyCode::Enter),
        false,
        false,
        false,
    );
    assert_eq!(r, Edit::Ignored);
}

#[test]
fn a_stale_cursor_is_pulled_into_the_text() {
    let (t, mut c, mut a) = ("ab".to_string(), 9, Some(5));
    clamp(&t, &mut c, &mut a);
    assert_eq!((c, a), (2, Some(2)));
}

#[test]
fn movement_stops_at_both_ends() {
    let (t, mut c, mut a) = st("ab", 0);
    left(&t, &mut c, &mut a, false);
    assert_eq!(c, 0);
    right(&t, &mut c, &mut a, false);
    right(&t, &mut c, &mut a, false);
    right(&t, &mut c, &mut a, false);
    assert_eq!(c, 2);
    home(&t, &mut c, &mut a, true);
    assert_eq!((c, a), (0, Some(2)));
    word_right(&t, &mut c, &mut a, false);
    assert_eq!((c, a), (2, None));
}

#[test]
fn pasting_over_a_selection_replaces_it() {
    let (mut t, mut c, mut a) = ("hello".to_string(), 4, Some(1));
    insert_str(&mut t, &mut c, &mut a, "ipp");
    assert_eq!((t.as_str(), c, a), ("hippo", 4, None));
    assert!(!delete_selection(&mut t, &mut c, &mut a));
}

#[test]
fn a_key_keeps_the_cursor_inside_with_the_anchor_at_it() {
    let keys = [KeyCode::Backspace, KeyCode::Delete, KeyCode::Left, KeyCode::Right, KeyCode::End];
    for code in keys {
        for at in 0..=3 {
            let mut t = "a b".to_string();
            let (mut c, mut a) = (at, Some(at));
            let did = handle_key(
                FieldRef { text: &mut t, cursor: &mut c, anchor: &mut a },
                KeyEvent::new(code, NONE),
                false,
                false,
                false,
            );
            assert!(c <= t.chars().count());
            if t != "a b" {
                assert_eq!(did, Edit::Changed);
            }
        }
    }
}
