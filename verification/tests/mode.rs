use oxru::mode::{explicit_mode, resolve_mode};

fn args(list: &[&str]) -> Vec<String> {
    list.iter().map(|s| s.to_string()).collect()
}

#[test]
fn windowed_is_the_default() {
    assert_eq!(explicit_mode(&args(&["."])), None, "a bare path names no mode");
    assert!(resolve_mode(None, true, false), "no flag opens a window");
}

#[test]
fn term_opts_into_the_terminal() {
    for flag in ["--term", "--terminal", "--tui", "-t"] {
        assert_eq!(explicit_mode(&args(&[flag, "."])), Some(false), "{flag}");
        assert!(!resolve_mode(Some(false), true, false), "{flag}");
    }
}

#[test]
fn gui_flags_still_work() {
    // Existing commands, scripts and muscle memory must keep working.
    for flag in ["--gui", "--windowed", "-w"] {
        assert_eq!(explicit_mode(&args(&[flag, "."])), Some(true), "{flag}");
    }
}

#[test]
fn the_last_flag_wins() {
    assert_eq!(explicit_mode(&args(&["--term", "--gui"])), Some(true));
    assert_eq!(explicit_mode(&args(&["--gui", "--term"])), Some(false));
}

#[test]
fn a_headless_session_falls_back_to_the_terminal() {
    assert!(!resolve_mode(None, true, true), "no display: use the terminal");
    // An explicit --gui is still honoured, so it can fail visibly rather than
    // being silently overridden.
    assert!(resolve_mode(Some(true), true, true), "--gui is not second-guessed");
}

#[test]
fn a_build_without_window_support_always_uses_the_terminal() {
    assert!(!resolve_mode(None, false, false));
    assert!(!resolve_mode(Some(true), false, false), "even with --gui: there is no window");
}
