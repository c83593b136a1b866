use oxru::color::Rgb;
use oxru::icons::{is_binary, IconMode, Icons};

#[test]
fn binary_detection_by_extension() {
    assert!(is_binary("photo.jpeg"));
    assert!(is_binary("doc.PDF")); // case-insensitive
    assert!(is_binary("archive.zip"));
    assert!(!is_binary("main.rs"));
    assert!(!is_binary("notes.md"));
    assert!(!is_binary("icon.svg")); // SVG is text
    assert!(!is_binary("Makefile")); // no extension: openable
}

#[test]
fn mode_parsing() {
    assert_eq!(IconMode::from_str("nerd"), IconMode::Nerd);
    assert_eq!(IconMode::from_str("UNICODE"), IconMode::Unicode);
    assert_eq!(IconMode::from_str("ascii"), IconMode::Ascii);
    assert_eq!(IconMode::from_str("???"), IconMode::Nerd);
}

#[test]
fn rust_file_has_distinct_color() {
    let icons = Icons::new(IconMode::Nerd);
    let (glyph, color) = icons.file("main.rs");
    // A cell-fitting dot (the colour, not the glyph, signals the type).
    assert_eq!(glyph, "\u{25cf}");
    assert_eq!(color, Rgb(222, 165, 132));
}

#[test]
fn file_types_share_glyph_differ_by_color() {
    let icons = Icons::new(IconMode::Nerd);
    let (rs_g, rs_c) = icons.file("a.rs");
    let (ts_g, ts_c) = icons.file("b.ts");
    assert_eq!(rs_g, ts_g, "same dot glyph");
    assert_ne!(rs_c, ts_c, "distinct colours per type");
}

#[test]
fn ascii_mode_uses_neutral_glyph() {
    let icons = Icons::new(IconMode::Ascii);
    let (glyph, _) = icons.file("main.rs");
    assert_eq!(glyph, " ");
}

#[test]
fn unicode_mode_shows_the_colored_dot() {
    let icons = Icons::new(IconMode::Unicode);
    let (glyph, color) = icons.file("main.rs");
    assert_eq!(glyph, "\u{25cf}");
    assert_eq!(color, Rgb(222, 165, 132));
}

#[test]
fn the_last_extension_counts_and_blanks_around_a_mode_do_not() {
    assert!(is_binary("notes.md.zip"));
    assert!(!is_binary("notes.zip.md"));
    assert_eq!(IconMode::from_str("  ASCII "), IconMode::Ascii);
}
