use oxru::keyevent::{KeyCode, KeyEvent, KeyModifiers};
use oxru::keys::{
    as_refs, chord, get, groups, hint, hint_as, hint_chord, hints, hit, id, keys, label, Mods, G_CLIP,
    G_COPY, G_EDITOR_CURSOR, G_EDITOR_FILES, G_FILES, G_FIND, G_GLOBAL, G_NONE, G_PICKER, G_RECENT,
    G_SEARCH, G_SETTINGS, G_TERMINAL, G_TODOS,
};

fn ev(code: KeyCode) -> KeyEvent {
    KeyEvent::new(
        code,
        KeyModifiers { control: false, alt: false, shift: false, sup: false },
    )
}

#[test]
fn every_id_resolves_and_is_unique() {
    let mut seen = std::collections::HashSet::new();
    for s in keys() {
        assert!(seen.insert(s.id), "duplicate shortcut id {:?}", s.id);
        assert_eq!(get(s.id).id, s.id);
    }
}

#[test]
fn every_row_is_labelled() {
    for s in keys() {
        assert!(!s.label.is_empty(), "{} has no label", s.id);
        assert!(!s.key.is_empty(), "{} has no key", s.id);
        assert!(
            s.short.chars().count() <= 18,
            "{} short label {:?} is too long for a footer",
            s.id,
            s.short
        );
    }
}

#[test]
fn shift_variants_do_not_collide() {
    let d = ev(KeyCode::Char('d'));
    assert!(hit(id::TODO_DELETE, &d, true, false, false));
    assert!(!hit(id::TODO_CLEAR, &d, true, false, false));
    assert!(hit(id::TODO_CLEAR, &d, true, false, true));
    assert!(!hit(id::TODO_DELETE, &d, true, false, true));
}

#[test]
fn families_do_not_leak() {
    let v = ev(KeyCode::Char('v'));
    assert!(hit(id::TODO_PASTE, &v, true, false, false));
    assert!(!hit(id::TODO_PASTE, &v, false, true, false));
    assert!(hit(id::CLIP_OPEN, &v, false, true, false));
    assert!(!hit(id::CLIP_OPEN, &v, true, false, false));
}

#[test]
fn letters_are_case_insensitive() {
    assert!(hit(id::EDITOR_SAVE, &ev(KeyCode::Char('s')), true, false, false));
    assert!(hit(id::EDITOR_SAVE, &ev(KeyCode::Char('S')), true, false, false));
}

#[test]
fn shifted_tab_arrives_two_ways() {
    assert!(hit(id::TAB_PREV, &ev(KeyCode::BackTab), true, false, true));
    assert!(hit(id::TAB_PREV, &ev(KeyCode::Tab), true, false, true));
    assert!(hit(id::TAB_NEXT, &ev(KeyCode::Tab), true, false, false));
    assert!(!hit(id::TAB_NEXT, &ev(KeyCode::Tab), true, false, true));
}

#[test]
fn digit_range_matches_one_to_nine() {
    for c in '1'..='9' {
        assert!(hit(id::TERM_JUMP, &ev(KeyCode::Char(c)), false, true, false));
    }
    assert!(!hit(id::TERM_JUMP, &ev(KeyCode::Char('0')), false, true, false));
}

#[test]
fn text_rows_never_match() {
    assert!(!hit(id::CURSOR_MOVE, &ev(KeyCode::Up), false, false, false));
    assert!(!hit(id::TERM_MARK, &ev(KeyCode::Left), false, false, true));
}

#[test]
fn groups_cover_every_section_when_a_folder_is_open() {
    for mac in [false, true] {
        let g = groups(true, mac);
        let titles: Vec<_> = g.iter().map(|(t, _)| *t).collect();
        for want in [
            G_GLOBAL,
            G_EDITOR_FILES,
            G_EDITOR_CURSOR,
            G_FILES,
            G_SEARCH,
            G_TERMINAL,
            G_PICKER,
            G_COPY,
            G_TODOS,
            G_CLIP,
            G_FIND,
            G_SETTINGS,
            G_RECENT,
        ] {
            assert!(titles.contains(&want), "F1 is missing the {want:?} section");
        }
        // Footer-only rows stay out of it.
        assert!(!titles.contains(&G_NONE));
    }
}

#[test]
fn groups_drop_folder_sections_without_a_folder() {
    let titles: Vec<_> = groups(false, false).iter().map(|(t, _)| *t).collect();
    assert!(titles.contains(&G_GLOBAL));
    assert!(!titles.contains(&G_TERMINAL));
    assert!(!titles.contains(&G_FILES));
    // The global to-do list and clipboard work with no folder open.
    assert!(titles.contains(&G_TODOS));
}

#[test]
fn paired_rows_merge() {
    let g = groups(true, true);
    let files = &g.iter().find(|(t, _)| *t == G_EDITOR_FILES).unwrap().1;
    let save = files.iter().find(|(_, l)| l.starts_with("Save")).unwrap();
    assert_eq!(save.1, "Save \u{b7} Save all");
    assert!(save.0.contains(' '), "the two chords should share a cell: {:?}", save.0);
}

#[test]
fn find_group_documents_replace() {
    let g = groups(true, false);
    let find = &g.iter().find(|(t, _)| *t == G_FIND).unwrap().1;
    let all = find.iter().map(|(k, l)| format!("{k} {l}")).collect::<Vec<_>>().join(" | ");
    assert!(all.contains("Show / hide the replace field"), "{all}");
    assert!(all.contains("Replace every match"), "{all}");
    assert!(all.contains(&chord(id::FIND_REPLACE_TOGGLE, false)), "{all}");
}

#[test]
fn quick_switch_hint_matches_its_binding() {
    assert!(hit(id::TERM_PICKER, &ev(KeyCode::Char('k')), false, true, false));
    assert!(!hit(id::TERM_PICKER, &ev(KeyCode::Char('k')), true, false, false));
    for mac in [false, true] {
        let shown = chord(id::TERM_PICKER, mac);
        assert!(
            shown.starts_with('\u{2325}') || shown.starts_with("Alt+"),
            "quick-switch is an Alt chord but reads {shown:?}"
        );
    }
}

#[test]
fn no_mac_glyphs_off_mac() {
    for s in keys() {
        if s.mods == Mods::Text {
            continue; // literal cheat-sheet text, written for the Mac reader
        }
        let c = chord(s.id, false);
        assert!(
            !c.contains('\u{2318}') && !c.contains('\u{2325}') && !c.contains('\u{2303}'),
            "{} renders Mac glyphs off macOS: {c:?}",
            s.id
        );
    }
}

#[test]
fn a_chord_reads_as_on_the_machine() {
    assert_eq!(chord(id::EDITOR_SAVE, false), "Ctrl+S");
    assert_eq!(chord(id::EDITOR_SAVE, true), "\u{2318}S");
    assert_eq!(label(id::EDITOR_SAVE), "Save");
    assert_eq!(hint_as(id::EDITOR_SAVE, "keep", false), ("Ctrl+S".to_string(), "keep".to_string()));
    let (c, _) = hint(id::EDITOR_SAVE, false);
    assert_eq!(c, "Ctrl+S");
    assert_eq!(hint_chord(id::EDITOR_SAVE, "x".to_string()).0, "x");
    assert_eq!(hints(&[id::EDITOR_SAVE, id::TAB_NEXT], false).len(), 2);
}

#[test]
fn an_unknown_id_is_a_blank_row() {
    assert_eq!(get("no.such.row").id, "");
    assert!(!hit("no.such.row", &ev(KeyCode::Enter), false, false, false));
}

#[test]
fn hints_can_be_borrowed() {
    let h = vec![("a".to_string(), "b".to_string())];
    assert_eq!(as_refs(&h), vec![("a", "b")]);
}

#[test]
fn the_hint_of_a_row_is_its_chord_and_short_label() {
    for s in keys() {
        for mac in [false, true] {
            let (c, l) = hint(s.id, mac);
            assert_eq!(c, chord(s.id, mac));
            assert_eq!(l, if s.short.is_empty() { s.label } else { s.short });
            assert!(!c.is_empty() && !l.is_empty(), "{}", s.id);
        }
    }
}
