use oxru::color::Rgb;
use oxru::config::{
    save_prefs_to, Config, Prefs, Theme, DIALOG_SIZE_DEFAULT, DIALOG_SIZE_MAX, DIALOG_SIZE_MIN,
};
use oxru::icons::IconMode;

const BASE: Theme = Theme { accent: Rgb(9, 9, 9) };

/// The configuration that a text stands for.
fn parse(src: &str) -> Config {
    let table: toml::Table = src.parse().unwrap();
    let mut c = Config::default();
    if let Some(s) = table.get("icons").and_then(|v| v.as_str()) {
        c.icons = Some(s.to_string());
    }
    if let Some(t) = table.get("theme").and_then(|v| v.as_table()) {
        for (k, v) in t {
            c.theme.push((k.clone(), v.as_str().unwrap().to_string()));
        }
    }
    if let Some(t) = table.get("gui").and_then(|v| v.as_table()) {
        let number = |k: &str| t.get(k).and_then(|v| v.as_integer()).map(|n| n as u32);
        c.gui.font_size = number("font_size");
        c.gui.fps = number("fps");
        c.gui.dialog_size = number("dialog_size");
        c.gui.padding = number("padding").map(|n| n as u16);
        c.gui.word_wrap = t.get("word_wrap").and_then(|v| v.as_bool());
    }
    if let Some(t) = table.get("editor").and_then(|v| v.as_table()) {
        c.editor.current_line = t.get("current_line").and_then(|v| v.as_bool());
        c.editor.indent_guides = t.get("indent_guides").and_then(|v| v.as_bool());
    }
    c
}

#[test]
fn parses_sections() {
    let src = r##"
        icons = "unicode"
        [theme]
        accent = "#010203"
        [gui]
        font_size = 22
        fps = 30
    "##;
    let cfg = parse(src);
    assert_eq!(cfg.icon_mode(), IconMode::Unicode);
    assert_eq!(cfg.theme(BASE).accent, Rgb(1, 2, 3));
    assert_eq!(cfg.gui_font_size(), 22);
    assert_eq!(cfg.gui_fps(), 30);
}

#[test]
fn dialog_size_defaults_and_clamps() {
    let cfg = parse("");
    assert_eq!(cfg.gui_dialog_size(), DIALOG_SIZE_DEFAULT);
    assert!(
        DIALOG_SIZE_MIN <= DIALOG_SIZE_DEFAULT && DIALOG_SIZE_DEFAULT <= DIALOG_SIZE_MAX,
        "the default has to be a value the picker can actually reach"
    );
    let cfg = parse("[gui]\ndialog_size = 10\n");
    assert_eq!(cfg.gui_dialog_size(), DIALOG_SIZE_MIN, "clamps up to the floor");
    let cfg = parse("[gui]\ndialog_size = 150\n");
    assert_eq!(cfg.gui_dialog_size(), DIALOG_SIZE_MAX, "clamps down to the ceiling");
}

#[test]
fn fps_snaps_to_nearest_option() {
    let cfg = parse("[gui]\nfps = 27\n");
    assert_eq!(cfg.gui_fps(), 30, "27 is closer to 30 than 20");
    let cfg = parse("[gui]\nfps = 1000\n");
    assert_eq!(cfg.gui_fps(), 60, "clamps to the highest offered option");
}

#[test]
fn project_overrides_apply() {
    let project = parse("icons = \"ascii\"\n[theme]\naccent = \"#0a0b0c\"\n");
    // No global config, so only the project file applies.
    let cfg = Config::load_with(None, Some(project));
    assert_eq!(cfg.icon_mode(), IconMode::Ascii);
    assert_eq!(cfg.theme(BASE).accent, Rgb(10, 11, 12));
}

fn prefs(font_size: u32, fps: u32, dialog_size: u32, word_wrap: bool, accent: Rgb) -> Prefs {
    Prefs { font_size, fps, dialog_size, word_wrap, accent }
}

#[test]
fn save_prefs_roundtrips_and_merges() {
    // An existing key must survive the save.
    let p = prefs(30, 20, 85, true, Rgb(0xe5, 0x39, 0x35));
    let text = save_prefs_to(Some("icons = \"ascii\"\n"), &p).unwrap();
    let cfg = parse(&text);
    assert_eq!(cfg.gui_font_size(), 30);
    assert_eq!(cfg.gui_fps(), 20);
    assert_eq!(cfg.gui_dialog_size(), 85);
    assert!(cfg.word_wrap());
    assert_eq!(cfg.theme(BASE).accent, Rgb(0xe5, 0x39, 0x35));
    assert_eq!(cfg.icon_mode(), IconMode::Ascii, "pre-existing key preserved");
}

#[test]
fn saving_twice_keeps_the_file_parseable() {
    let first = save_prefs_to(None, &prefs(24, 60, 70, false, Rgb(0x4c, 0xaf, 0x50))).unwrap();
    let again =
        save_prefs_to(Some(&first), &prefs(26, 30, 60, true, Rgb(0x4f, 0xc1, 0xff))).unwrap();
    let cfg = parse(&again);
    assert_eq!(cfg.gui_font_size(), 26);
    assert_eq!(cfg.theme(BASE).accent, Rgb(0x4f, 0xc1, 0xff));
}

#[test]
fn word_wrap_defaults_off_and_reads_from_config() {
    assert!(!parse("").word_wrap(), "off by default");
    assert!(parse("[gui]\nword_wrap = true\n").word_wrap());
}

#[test]
fn missing_files_yield_defaults() {
    // No global, no project file: built-in defaults.
    let cfg = Config::load_with(None, None);
    assert_eq!(cfg.icon_mode(), IconMode::Nerd);
    assert_eq!(cfg.gui_font_size(), 24);
    assert_eq!(cfg.gui_fps(), 60);
}

#[test]
fn the_project_wins_over_the_user_key_by_key() {
    let user = parse("icons = \"ascii\"\n[gui]\nfps = 10\nfont_size = 20\n");
    let project = parse("[gui]\nfps = 30\n[theme]\naccent = \"#000001\"\n");
    let cfg = Config::load_with(Some(user), Some(project));
    assert_eq!(cfg.icon_mode(), IconMode::Ascii);
    assert_eq!(cfg.gui_fps(), 30);
    assert_eq!(cfg.gui_font_size(), 20);
    assert_eq!(cfg.theme(BASE).accent, Rgb(0, 0, 1));
}

#[test]
fn a_broken_file_is_started_over() {
    let p = prefs(24, 60, 85, false, Rgb(1, 2, 3));
    let text = save_prefs_to(Some("this is not = = toml"), &p).unwrap();
    let cfg = parse(&text);
    assert_eq!(cfg.gui_font_size(), 24);
    assert_eq!(cfg.icons, None);
}

#[test]
fn a_colour_that_does_not_read_leaves_the_accent() {
    let cfg = parse("[theme]\naccent = \"reddish\"\n");
    assert_eq!(cfg.theme(BASE).accent, BASE.accent);
}

#[test]
fn an_entry_that_is_no_section_stays() {
    let p = prefs(24, 60, 85, false, Rgb(1, 2, 3));
    let text = save_prefs_to(Some("gui = 5\n"), &p).unwrap();
    let table: toml::Table = text.parse().unwrap();
    assert_eq!(table.get("gui").and_then(|v| v.as_integer()), Some(5));
}

#[test]
fn odd_texts_survive_saving() {
    let odd = ["a\"b\\c\nd'e", "\"\"\"\"\"", "'''", "\r\n\t", "\u{7f}\u{1}", "", "#"];
    let mut before = toml::Table::new();
    let mut extra = toml::Table::new();
    for (i, s) in odd.iter().enumerate() {
        extra.insert(s.to_string(), toml::Value::Integer(i as i64));
        extra.insert(format!("k{i}"), toml::Value::String(s.to_string()));
    }
    before.insert("extra".to_string(), toml::Value::Table(extra.clone()));
    let text = toml::to_string_pretty(&before).unwrap();
    let p = prefs(24, 60, 85, false, Rgb(1, 2, 3));
    let saved = save_prefs_to(Some(&text), &p).unwrap();
    let again = save_prefs_to(Some(&saved), &p).unwrap();
    let after: toml::Table = again.parse().unwrap();
    assert_eq!(after.get("extra"), Some(&toml::Value::Table(extra)));
}

#[test]
fn the_margin_is_capped() {
    let mut c = Config::default();
    assert_eq!(c.gui_padding(), 1);
    c.gui.padding = Some(3);
    assert_eq!(c.gui_padding(), 3);
    c.gui.padding = Some(90);
    assert_eq!(c.gui_padding(), 8);
}
