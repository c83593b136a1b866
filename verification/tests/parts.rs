use oxru::color::{from_hex, to_hex, Rgb};
use oxru::gitstatus::parse_git_status;
use oxru::hits::{gutter_width, Clicks, Rect};
use oxru::instances::{open_folders, Marker, Process};
use oxru::paths::{file_name, has_path, is_same_path, join_path, parent, relative};
use oxru::recent::RecentDialog;
use oxru::requests::{one_line, take_requests};
use oxru::search::{hits_in, Hit};
use oxru::steps::step;
use oxru::tabs::Tabs;

#[test]
fn colours_read_back() {
    for c in [Rgb(0, 0, 0), Rgb(255, 255, 255), Rgb(1, 171, 16)] {
        assert_eq!(from_hex(&to_hex(c)), Some(c));
    }
    assert_eq!(to_hex(Rgb(1, 171, 16)), "#01ab10");
    assert_eq!(from_hex("#01AB10"), Some(Rgb(1, 171, 16)));
    assert_eq!(from_hex("01ab10"), None);
    assert_eq!(from_hex("#01ab1"), None);
    assert_eq!(from_hex("#01ab1g"), None);
}

#[test]
fn paths_come_apart_and_together() {
    assert_eq!(file_name("/a/b.rs").as_deref(), Some("b.rs"));
    assert_eq!(file_name("/"), None);
    assert_eq!(parent("/a/b.rs").as_deref(), Some("/a"));
    assert_eq!(join_path("/a", "b/c"), "/a/b/c");
    assert_eq!(relative("/a", "/a/b/c").as_deref(), Some("b/c"));
    assert_eq!(relative("/a", "/ab"), None);
}

#[test]
fn git_tells_the_branch_and_changes() {
    assert_eq!(
        parse_git_status("## dev...origin/dev [ahead 1]\n M a\n"),
        Some(("dev".to_string(), true))
    );
    assert_eq!(parse_git_status("## HEAD (no branch)\n"), None);
    assert_eq!(parse_git_status("fatal: not a git repository"), None);
    assert_eq!(parse_git_status(""), None);
}

fn marker(process: Process, folder: &str) -> Marker {
    Marker { process, content: Some(folder.to_string()) }
}

#[test]
fn live_process_is_listed() {
    let m = vec![marker(Process::Runs("/usr/bin/oxru".to_string()), " /proj\n")];
    let (folders, stale) = open_folders(&m);
    assert_eq!(folders, vec!["/proj".to_string()]);
    assert_eq!(stale, vec![false]);
}

#[test]
fn dead_process_marker_is_pruned() {
    let m = vec![marker(Process::Dead, "/somewhere")];
    let (folders, stale) = open_folders(&m);
    assert!(folders.is_empty());
    assert_eq!(stale, vec![true], "the marker is to be removed");
}

#[test]
fn a_click_streak_goes_round() {
    let mut c = Clicks { last: None, count: 0 };
    assert_eq!(c.bump_click(100, 3, 4), 1);
    assert_eq!(c.bump_click(300, 3, 4), 2);
    assert_eq!(c.bump_click(700, 3, 4), 3);
    assert_eq!(c.bump_click(900, 3, 4), 1);
    assert_eq!(c.bump_click(1_000, 5, 4), 1, "another cell");
    assert_eq!(c.bump_click(2_000, 5, 4), 1, "too slow");
}

#[test]
fn the_gutter_fits_the_last_line_number() {
    assert_eq!(gutter_width(1), 4);
    assert_eq!(gutter_width(999), 4);
    assert_eq!(gutter_width(1_000), 5);
    assert_eq!(gutter_width(123_456), 7);
}

#[test]
fn a_cell_outside_is_pulled_to_the_edge() {
    let r = Rect { x: 10, y: 5, w: 4, h: 3 };
    assert_eq!(r.clamp_cell(0, 0), (0, 0));
    assert_eq!(r.clamp_cell(99, 99), (2, 3));
    assert_eq!(r.clamp_cell(11, 6), (1, 1));
    assert_eq!(r.local(11, 6), Some((1, 1)));
    assert_eq!(r.local(9, 6), None);
}

#[test]
fn steps_go_round_both_ways() {
    assert_eq!(step(0, -1, 3), 2);
    assert_eq!(step(2, 1, 3), 0);
    assert_eq!(step(1, 7, 3), 2);
    assert_eq!(step(step(1, 5, 4), -5, 4), 1);
}

#[test]
fn text_from_elsewhere_becomes_one_line() {
    assert_eq!(one_line("a\r\n\nb\n".to_string()), "a b");
    assert_eq!(one_line("a b".to_string()), "a b");
    assert_eq!(one_line("\n".to_string()), "");
}

#[test]
fn half_a_request_waits() {
    assert_eq!(take_requests("ls\nec"), (vec!["ls".to_string()], 3));
    assert_eq!(take_requests("ec"), (vec![], 0));
    // Bytes are counted, not characters.
    assert_eq!(take_requests("echo \u{e9}\n").1, 8);
}

#[test]
fn a_search_finds_every_place_of_a_line() {
    assert_eq!(
        hits_in("ab Ab\nxab\n", "ab"),
        vec![
            Hit { line: 0, col: 0, end_col: 2 },
            Hit { line: 0, col: 3, end_col: 5 },
            Hit { line: 1, col: 1, end_col: 3 },
        ]
    );
    assert!(hits_in("abc", "").is_empty());
}

#[test]
fn an_open_folder_stays_in_the_list() {
    let mut r = RecentDialog::default();
    r.fill(
        vec!["/a".to_string(), "/b".to_string()],
        &vec!["/a".to_string(), "/b".to_string()],
        &vec!["/b".to_string()],
    );
    assert_eq!(r.disabled, vec![false, true]);
    r.checked = vec![true, true];
    r.recent_delete_selected();
    assert_eq!(r.folders, vec!["/b".to_string()]);
}

#[test]
fn the_file_used_last_comes_first() {
    let mut t = Tabs::default();
    t.touch_recent("/a");
    t.touch_recent("/b");
    t.touch_recent("/a");
    assert_eq!(t.recent_files, vec!["/a".to_string(), "/b".to_string()]);
    assert_eq!(t.recent_rank("/b"), Some(1));
    assert_eq!(t.recent_rank("/c"), None);
}

/// Every text of up to `n` of these characters.
fn all_texts(n: usize) -> Vec<String> {
    let mut out = vec![String::new()];
    let mut last = out.clone();
    for _ in 0..n {
        let mut next = Vec::new();
        for t in &last {
            for c in ['/', '.', 'a', 'b'] {
                next.push(format!("{t}{c}"));
            }
        }
        out.extend(next.iter().cloned());
        last = next;
    }
    out
}

#[test]
fn paths_are_taken_apart_like_those_of_the_system() {
    for t in all_texts(7) {
        let p = std::path::Path::new(&t);
        let name = p.file_name().map(|n| n.to_str().unwrap().to_string());
        assert_eq!(file_name(&t), name, "{t:?}");
        let up = p.parent().map(|n| n.to_str().unwrap().to_string());
        assert_eq!(parent(&t), up, "{t:?}");
    }
}

#[test]
fn paths_are_compared_like_those_of_the_system() {
    let all = all_texts(4);
    for a in &all {
        for b in &all {
            let (p, q) = (std::path::Path::new(a), std::path::Path::new(b));
            assert_eq!(is_same_path(a, b), p == q, "{a:?} {b:?}");
            let rest = q.strip_prefix(p).ok().map(|r| r.to_str().unwrap().to_string());
            assert_eq!(relative(a, b), rest, "{a:?} {b:?}");
            assert_eq!(join_path(a, b), p.join(b).to_str().unwrap(), "{a:?} {b:?}");
        }
    }
    for b in all_texts(6) {
        for a in ["", "/", "/a", "a", ".", "./a", "/a/", "a//b", "..", "/a/./b"] {
            let (p, q) = (std::path::Path::new(a), std::path::Path::new(&b));
            assert_eq!(is_same_path(a, &b), p == q, "{a:?} {b:?}");
            let rest = q.strip_prefix(p).ok().map(|r| r.to_str().unwrap().to_string());
            assert_eq!(relative(a, &b), rest, "{a:?} {b:?}");
        }
    }
}

#[test]
fn doubled_slashes_and_lone_dots_do_not_matter() {
    assert_eq!(relative("/a", "/a//b").as_deref(), Some("b"));
    assert_eq!(relative("/a/", "/a/./b//c/").as_deref(), Some("b//c"));
    assert_eq!(relative("/a/b", "/a//b/").as_deref(), Some(""));
    assert!(is_same_path("/a//b/./c/", "/a/b/c"));
    assert!(!is_same_path("./a", "a") && !is_same_path("/a/../b", "/b"));
    let list = vec!["/x".to_string(), "/a//b".to_string()];
    assert!(has_path(&list, "/a/b/") && !has_path(&list, "/a"));
}

#[test]
fn a_recent_folder_that_is_open_is_told_by_its_parts() {
    let mut d = RecentDialog::default();
    let folders = vec!["/a/b".to_string(), "/c".to_string()];
    let resolved = folders.clone();
    d.fill(folders, &resolved, &vec!["/a//b/".to_string()]);
    assert_eq!(d.disabled, vec![true, false]);
}
