use oxru::app::browsing::BrowseStep;
use oxru::app::dialogs::Needs;
use oxru::app::disk::Seen;
use oxru::app::files::{OpenStep, ReadOutcome, SaveOutcome};
use oxru::app::folders::FolderStep;
use oxru::app::mouse::PointerStep;
use oxru::app::prompting::Task;
use oxru::app::terminal::{Spawn, TermMouse};
use oxru::app::{App, Crumb, DiskFiles, FolderFiles, Thumb};
use oxru::buffer::state::DiskMeta;
use oxru::buffer::Buffer;
use oxru::color::Rgb;
use oxru::config::{save_prefs_to, Config, Theme};
use oxru::dialog::Dialog;
use oxru::fonts::FontInstall;
use oxru::fstree::{walks_into, FileTree, Filter};
use oxru::highlight::{Showing, Span};
use oxru::hits::{Pane, Rect, TabHit};
use oxru::icons::IconMode;
use oxru::input::actions::KeyAction;
use oxru::input::decide_key;
use oxru::keyevent::{KeyCode, KeyEvent, KeyModifiers};
use oxru::prompt::PromptKind;
use oxru::requests::short_term_title;
use oxru::search::{hits_in, FileHits};
use oxru::terminals::{folder_name, terminal_cwd, Terminal, MAX_TERMINALS};
use oxru::toast::ToastKind;
use std::collections::BTreeMap;

const ROOT: &str = "/work/ws";

/// An editor over files that are held in memory.
struct Desk {
    app: App,
    files: BTreeMap<String, String>,
    versions: BTreeMap<String, u128>,
    rules: Option<String>,
}

fn at(name: &str) -> String {
    format!("{ROOT}/{name}")
}

/// What a folder holds: names, each with whether it is a folder.
fn listing(files: &BTreeMap<String, String>, dir: &str) -> Vec<(String, bool)> {
    let mut out: Vec<(String, bool)> = Vec::new();
    for path in files.keys() {
        if let Some(rest) = path.strip_prefix(&format!("{dir}/")) {
            let (name, is_dir) = match rest.split_once('/') {
                Some((d, _)) => (d.to_string(), true),
                None => (rest.to_string(), false),
            };
            if !out.iter().any(|(n, _)| *n == name) {
                out.push((name, is_dir));
            }
        }
    }
    out
}

fn rules(text: &str) -> ignore::gitignore::Gitignore {
    let mut b = ignore::gitignore::GitignoreBuilder::new(ROOT);
    for line in text.lines() {
        b.add_line(None, line).unwrap();
    }
    b.build().unwrap()
}

impl Desk {
    fn with(list: &[(&str, &str)], ignore: Option<&str>) -> Desk {
        let mut files = BTreeMap::new();
        for (name, text) in list {
            files.insert(at(name), text.to_string());
        }
        let mut desk = Desk {
            app: blank_app(None),
            files,
            versions: BTreeMap::new(),
            rules: ignore.map(|s| s.to_string()),
        };
        desk.app = start(Some(ROOT), desk.folder(ROOT), &Config::default());
        desk
    }

    fn folder(&self, dir: &str) -> FolderFiles {
        FolderFiles {
            listing: listing(&self.files, dir),
            filter: Filter {
                rules: self.rules.as_deref().filter(|_| dir == ROOT).map(rules),
            },
            walk: self.walk(dir, false),
            heeding_walk: self.walk(dir, true),
        }
    }

    fn walk(&self, dir: &str, heed: bool) -> Vec<(String, bool)> {
        let gi = self.rules.as_deref().map(rules);
        let mut out = Vec::new();
        for path in self.files.keys() {
            let Some(rest) = path.strip_prefix(&format!("{dir}/")) else { continue };
            let mut parts: Vec<&str> = rest.split('/').collect();
            let name = parts.pop().unwrap();
            if !parts.iter().all(|p| walks_into(p, self.app.show_junk)) {
                continue;
            }
            if !walks_into(name, true) {
                continue;
            }
            let hidden = gi.as_ref().is_some_and(|g| {
                let inner = path.strip_prefix(&format!("{ROOT}/")).unwrap();
                g.matched_path_or_any_parents(inner, false).is_ignore()
            });
            if !(heed && hidden) {
                out.push((path.clone(), true));
            }
        }
        out
    }

    fn meta(&self, path: &str) -> Option<DiskMeta> {
        let text = self.files.get(path)?;
        let modified = self.versions.get(path).copied().unwrap_or(0);
        Some(DiskMeta { modified, len: text.len() as u64 })
    }

    fn write(&mut self, path: &str, text: &str) {
        self.files.insert(path.to_string(), text.to_string());
        *self.versions.entry(path.to_string()).or_insert(0) += 1;
    }

    fn read(&self, path: &str) -> ReadOutcome {
        match self.files.get(path) {
            Some(t) => ReadOutcome::Text { text: t.clone(), disk: self.meta(path) },
            None => ReadOutcome::Failed("no such file".to_string()),
        }
    }

    fn open(&mut self, path: &str) {
        if self.app.open_path(path) == OpenStep::Read {
            let outcome = self.read(path);
            self.app.file_read(path.to_string(), outcome);
        }
    }

    fn save_file(&mut self, i: usize) -> SaveOutcome {
        let path = self.app.tabs.editors[i].path.clone().unwrap();
        let text = self.app.tabs.editors[i].rope.to_string();
        self.write(&path, &text);
        SaveOutcome::Written(self.meta(&path))
    }

    fn save_every(&mut self) -> Vec<SaveOutcome> {
        let mut out = Vec::new();
        for i in 0..self.app.tabs.editors.len() {
            if self.app.tabs.editors[i].modified {
                out.push(self.save_file(i));
            } else {
                let p = self.app.tabs.editors[i].path.clone().unwrap();
                out.push(SaveOutcome::Written(self.meta(&p)));
            }
        }
        out
    }

    fn buffer(&mut self) -> &mut Buffer {
        let i = self.app.tabs.active.unwrap();
        &mut self.app.tabs.editors[i]
    }

    /// The text on disk.
    fn on_disk(&self, name: &str) -> &str {
        self.files.get(&at(name)).unwrap()
    }

    fn poll_files(&mut self) {
        self.app.now += 10_000;
        self.app.recheck_files_soon();
        assert!(self.app.files_due() || self.app.prompt.active);
        let mut seen = Vec::new();
        for i in 0..self.app.tabs.editors.len() {
            let path = self.app.tabs.editors[i].path.clone().unwrap();
            let meta = self.meta(&path);
            let read = if self.app.wants_reload(i, meta) { Some(self.read(&path)) } else { None };
            seen.push(Seen { meta, read });
        }
        self.app.poll_file_changes(&seen);
    }

    fn open_dialog(&mut self) {
        if self.app.open_file_dialog() == Needs::Files {
            let files = self.folder(ROOT);
            self.app.init_file_dialog(files);
        }
    }

    fn follow(&mut self, step: BrowseStep) {
        match step {
            BrowseStep::Nothing => {}
            BrowseStep::Open(paths) => {
                for p in paths {
                    self.open(&p);
                }
            }
            BrowseStep::Expand(dir) => {
                let l = listing(&self.files, &dir);
                self.app.dialog_tree_expand(&l);
            }
            BrowseStep::Reroot(dir) => {
                let files = self.folder(&dir);
                self.app.reroot_dialog(files);
            }
            BrowseStep::Move { from, to, dir } => {
                let text = self.files.remove(&from).unwrap();
                self.write(&to, &text);
                let found = self.found();
                self.app.entry_moved(&dir, None, &found);
            }
        }
    }

    /// What is on disk now.
    fn found(&self) -> DiskFiles {
        let dir = self.app.browsed_folder().unwrap_or_default();
        let open = self.app.tree.entries.iter().filter(|e| e.is_dir && e.expanded);
        DiskFiles {
            listing: listing(&self.files, &self.app.tree.root),
            listings: open.map(|e| (e.path.clone(), listing(&self.files, &e.path))).collect(),
            files: self.walk(ROOT, false),
            walk: self.walk(&dir, false),
            heeding_walk: self.walk(&dir, true),
        }
    }

    /// Confirm the prompt and do what it asks for.
    fn confirm(&mut self) {
        let Some(task) = self.app.confirm_prompt() else { return };
        match &task {
            Task::CreateFile { path, .. } => self.write(path, ""),
            Task::CreateFolder { .. } => {}
            Task::Rename { from, to, .. } => {
                let text = self.files.remove(from).unwrap();
                self.write(to, &text);
            }
            Task::Delete { path } => {
                self.files.remove(path);
            }
        }
        let found = self.found();
        if let Some(path) = self.app.task_done(&task, None, &found) {
            self.open(&path);
        }
    }

    fn query(&mut self, q: &str) {
        self.app.file_dialog.query = q.to_string();
        self.app.file_dialog.cursor = q.chars().count();
        assert!(self.app.can_search());
        self.app.dialog_refilter();
    }

    fn spawn(&mut self) {
        self.app.new_terminal(started("ws"));
    }

    fn toggle_terminal(&mut self) {
        if self.app.toggle_terminal_modal() == Needs::Terminal {
            self.spawn();
        }
    }

    fn search(&mut self) {
        let q = self.app.search.query.clone();
        let mut results = Vec::new();
        for path in self.app.files.clone() {
            let hits = hits_in(&self.files[&path], &q);
            if !hits.is_empty() {
                results.push(FileHits { path, hits });
            }
        }
        self.app.run_project_search(results, false);
    }

    fn open_hit(&mut self) {
        if let Some((path, hit)) = self.app.search_files_open_selected() {
            self.open(&path);
            self.app.select_hit(hit);
        }
    }
}

fn shell(name: &str) -> Terminal {
    Terminal {
        id: 1,
        name: name.to_string(),
        running: false,
        copy_mode: false,
        alternate_screen: false,
        wants_mouse: false,
        wants_motion: false,
    }
}

fn started(name: &str) -> Spawn {
    Spawn::Started { terminal: shell(name), cwd: ROOT.to_string() }
}

fn palette() -> Vec<Rgb> {
    vec![Rgb(76, 175, 80), Rgb(229, 57, 53), Rgb(79, 193, 255)]
}

fn start(root: Option<&str>, files: FolderFiles, config: &Config) -> App {
    App::new(
        root.map(|r| r.to_string()),
        files,
        config,
        Theme { accent: Rgb(76, 175, 80) },
        palette(),
        1_000_000,
    )
}

fn no_files() -> FolderFiles {
    FolderFiles {
        listing: vec![],
        filter: Filter { rules: None },
        walk: vec![],
        heeding_walk: vec![],
    }
}

fn blank_app(root: Option<&str>) -> App {
    start(root, no_files(), &Config::default())
}

fn workspace() -> Desk {
    Desk::with(&[("src/main.rs", "fn main() {}\n"), ("notes.txt", "hello\n")], None)
}

fn one_file(text: &str) -> Desk {
    let mut d = Desk::with(&[("f.txt", text)], None);
    d.open(&at("f.txt"));
    d
}

fn find_for(d: &mut Desk, q: &str) {
    d.app.find_open();
    for c in q.chars() {
        d.app.find_input(c);
    }
}

// ---- files ---------------------------------------------------------------

#[test]
fn opening_a_new_file_always_starts_scrolled_to_the_top() {
    let mut d = workspace();
    let big: String = (0..500).map(|i| format!("line {i}\n")).collect();
    d.write(&at("big.txt"), &big);
    d.open(&at("big.txt"));
    d.app.ensure_cursor_visible(20); // establishes the caret of this tab
    d.buffer().scroll_row = 300;
    d.app.tabs.just_opened = None;
    d.app.ensure_cursor_visible(20);
    assert_eq!(d.buffer().scroll_row, 300);

    // Open a brand-new file, then a wheel delta lands right after the open but
    // before the next render gets a chance to run.
    d.open(&at("notes.txt"));
    d.app.mouse_wheel(-3, 0, 0, false);
    assert_eq!(d.buffer().scroll_row, 0, "a stray wheel delta right after opening is ignored");
    d.app.ensure_cursor_visible(20);
    assert_eq!(d.buffer().scroll_row, 0, "freshly opened file should render at the top");
}

#[test]
fn mouse_wheel_scrolls_the_files_dialog_not_the_background_editor() {
    let mut d = workspace();
    d.open(&at("notes.txt"));
    d.app.ensure_cursor_visible(20);
    d.app.editor_scroll(1);
    let before = d.buffer().scroll_row;

    d.open_dialog();
    assert_eq!(d.app.top_dialog(), Some(Dialog::Files));
    d.app.mouse_wheel(-3, 5, 5, false);
    assert_eq!(
        d.buffer().scroll_row,
        before,
        "wheeling over the dialog must not touch the editor behind it"
    );
}

#[test]
fn save_all_writes_every_modified_file() {
    let mut d = workspace();
    d.open(&at("notes.txt"));
    d.buffer().insert_str("X");
    d.open(&at("src/main.rs"));
    d.buffer().insert_str("Y");
    assert!(d.app.tabs.editors.iter().all(|b| b.modified));

    let outcomes = d.save_every();
    d.app.save_all(&outcomes);
    assert!(d.app.tabs.editors.iter().all(|b| !b.modified), "all saved, none modified");
    assert!(d.on_disk("notes.txt").starts_with('X'));
}

#[test]
fn save_clears_modified() {
    let mut d = workspace();
    d.open(&at("notes.txt"));
    d.buffer().insert_str("Z");
    assert!(d.app.tabs.editors[0].modified);
    let outcome = d.save_file(0);
    d.app.save_active(outcome);
    assert!(!d.app.tabs.editors[0].modified);
    assert!(d.on_disk("notes.txt").starts_with('Z'));
}

#[test]
fn a_file_that_cannot_be_written_stays_modified() {
    let mut d = workspace();
    d.open(&at("notes.txt"));
    d.buffer().insert_str("Z");
    d.app.save_active(SaveOutcome::Failed("disk full".to_string()));
    assert!(d.app.tabs.editors[0].modified);
    let told = format!("{} {}", d.app.status, d.app.toast.as_ref().map_or("", |t| &t.message));
    assert!(told.contains("disk full"), "{told}");
}

#[test]
fn opens_and_dedups_tabs() {
    let mut d = workspace();
    d.open(&at("notes.txt"));
    d.open(&at("notes.txt"));
    assert_eq!(d.app.tabs.editors.len(), 1);
    assert_eq!(d.app.tabs.active, Some(0));
}

#[test]
fn tabs_open_navigate_move_close() {
    let mut d = workspace();
    d.open(&at("notes.txt"));
    d.open(&at("src/main.rs"));
    assert_eq!(d.app.tabs.editors.len(), 2);
    assert_eq!(d.app.tabs.active, Some(1));

    d.app.next_tab();
    assert_eq!(d.app.tabs.active, Some(0)); // wrapped 1 -> 0
    d.app.prev_tab();
    assert_eq!(d.app.tabs.active, Some(1)); // wrapped 0 -> 1

    // Move the active tab (main.rs at index 1) left.
    d.app.move_tab_left();
    assert_eq!(d.app.tabs.active, Some(0));
    assert!(d.app.tabs.editors[0].name().contains("main.rs"));
    d.app.move_tab_right();
    assert_eq!(d.app.tabs.active, Some(1));
    d.app.move_tab_left();

    d.app.close_tab();
    assert_eq!(d.app.tabs.editors.len(), 1);
    assert_eq!(d.app.tabs.active, Some(0));
}

#[test]
fn reopen_closed_tab_restores_it() {
    let mut d = workspace();
    d.open(&at("src/main.rs"));
    d.open(&at("notes.txt")); // active
    assert_eq!(d.app.tabs.editors.len(), 2);
    d.app.close_tab(); // closes notes.txt
    assert_eq!(d.app.tabs.editors.len(), 1);
    let exists: Vec<bool> = d.app.tabs.closed.iter().map(|p| d.files.contains_key(p)).collect();
    let path = d.app.reopen_closed_tab(&exists).unwrap();
    d.open(&path);
    assert_eq!(d.app.tabs.editors.len(), 2);
    assert!(d.app.tabs.editors.iter().any(|b| b.name() == "notes.txt"));
}

#[test]
fn editor_scroll_moves_view_not_cursor() {
    let mut d = workspace();
    d.open(&at("src/main.rs"));
    for _ in 0..50 {
        d.buffer().insert_str("x\n");
    }
    let cursor = d.app.tabs.editors[0].cursor;
    d.app.tabs.height = 10;
    d.app.tabs.just_opened = None; // past the just-opened wheel grace window
    d.app.editor_scroll(5);
    assert_eq!(d.app.tabs.editors[0].scroll_row, 5);
    assert_eq!(d.app.tabs.editors[0].cursor, cursor, "wheel scroll leaves the cursor put");
}

#[test]
fn copy_active_path_absolute_and_relative() {
    let mut d = workspace();
    d.open(&at("src/main.rs"));
    d.app.copy_active_path(false);
    assert_eq!(d.app.clipboard_text, at("src/main.rs"));
    d.app.copy_active_path(true);
    assert_eq!(d.app.clipboard_text, "src/main.rs");
}

#[test]
fn binary_files_are_not_opened_as_text() {
    let mut d = workspace();
    d.write(&at("pic.png"), "");
    d.open(&at("pic.png"));
    assert!(d.app.tabs.editors.is_empty(), "a binary file should not open in an editor");
    // A real text file still opens.
    d.open(&at("src/main.rs"));
    assert_eq!(d.app.tabs.editors.len(), 1);
}

#[test]
fn opening_a_file_dismisses_open_dialogs() {
    let mut d = workspace();
    d.toggle_terminal();
    assert_eq!(d.app.top_dialog(), Some(Dialog::Terminal));
    d.open(&at("src/main.rs"));
    assert_eq!(d.app.top_dialog(), None, "opening a file closes the dialogs");
    assert_eq!(d.app.tabs.editors.len(), 1);
    // A binary file, by contrast, leaves the dialog up.
    d.write(&at("p.png"), "");
    d.open_dialog();
    d.open(&at("p.png"));
    assert_eq!(d.app.top_dialog(), Some(Dialog::Files), "binary leaves the picker open");
}

// ---- find and replace ----------------------------------------------------

#[test]
fn find_is_case_insensitive_and_selects_current_match() {
    let mut d = one_file("Foo bar foo BAR Foo");
    find_for(&mut d, "foo");
    assert_eq!(d.app.find.matches.len(), 3, "Foo / foo / Foo all match");
    // The current match is shown as a selection.
    let cur = d.app.find.matches[d.app.find.current];
    assert_eq!(d.app.tabs.editors[0].selection(), Some(cur));

    // Next / prev wrap around the match list.
    d.app.find_next();
    assert_eq!(d.app.find.current, 1);
    d.app.find_prev();
    d.app.find_prev();
    assert_eq!(d.app.find.current, 2, "prev from first wraps to last");
}

#[test]
fn replace_current_swaps_one_match_and_advances() {
    let mut d = one_file("foo bar foo baz foo");
    find_for(&mut d, "foo");
    assert_eq!(d.app.find.matches.len(), 3);
    for c in "QUX".chars() {
        d.app.replace_input(c);
    }
    d.app.replace_current();
    assert_eq!(d.app.tabs.editors[0].rope.to_string(), "QUX bar foo baz foo");
    assert_eq!(d.app.find.matches.len(), 2, "the replaced text no longer matches");
}

#[test]
fn replace_all_swaps_every_match() {
    let mut d = one_file("foo bar foo baz foo");
    find_for(&mut d, "foo");
    for c in "QUX".chars() {
        d.app.replace_input(c);
    }
    d.app.replace_all();
    assert_eq!(d.app.tabs.editors[0].rope.to_string(), "QUX bar QUX baz QUX");
    assert!(d.app.find.matches.is_empty(), "nothing left to match after replacing all");
}

#[test]
fn find_no_results_then_close() {
    let mut d = one_file("hello world");
    find_for(&mut d, "zzz");
    assert!(d.app.find.matches.is_empty());
    d.app.find_close();
    assert!(!d.app.find.active && d.app.find.query.is_empty());
}

#[test]
fn ctrl_r_toggles_replace_and_tab_swaps_focus() {
    let mut d = workspace();
    d.open(&at("notes.txt"));
    d.app.find_open();
    assert!(!d.app.find.replace_active);
    let mods = KeyModifiers { control: true, alt: false, shift: false, sup: false };
    let ctrl_r = KeyEvent::new(KeyCode::Char('r'), mods);
    assert_eq!(decide_key(&d.app.key_context(true), &ctrl_r), KeyAction::ToggleReplace);
    d.app.find_toggle_replace();
    assert!(d.app.find.replace_active, "Ctrl+R opens the replace field");
    assert!(d.app.find.replace_focus, "opening replace also focuses it");

    let none = KeyModifiers { control: false, alt: false, shift: false, sup: false };
    let tab = KeyEvent::new(KeyCode::Tab, none);
    assert_eq!(decide_key(&d.app.key_context(true), &tab), KeyAction::ToggleFindFocus);
    d.app.find_toggle_focus();
    assert!(!d.app.find.replace_focus, "Tab swaps focus back to the query");
    assert_eq!(decide_key(&d.app.key_context(true), &tab), KeyAction::ToggleFindFocus);
    d.app.find_toggle_focus();
    assert!(d.app.find.replace_focus, "Tab swaps focus back to replace");
}

// ---- search in files -------------------------------------------------------

#[test]
fn search_files_requires_a_folder() {
    let mut app = blank_app(None);
    app.open_search_files();
    assert_eq!(app.top_dialog(), None, "no folder open -> dialog refuses to open");
}

#[test]
fn search_files_auto_search_finds_matches_across_files() {
    let mut d = Desk::with(
        &[
            ("src/main.rs", "fn main() {\n    let needle = 1;\n}\n"),
            ("notes.txt", "needle in a haystack\n"),
        ],
        None,
    );
    d.app.open_search_files();
    assert_eq!(d.app.top_dialog(), Some(Dialog::SearchFiles));
    for c in "needle".chars() {
        d.app.search_files_input(c);
    }
    assert!(!d.app.search.searched, "typing alone must not immediately run the search");
    d.app.now += 10_000;
    assert!(d.app.poll_pending_search());
    d.search();
    assert!(d.app.search.searched);
    assert_eq!(d.app.search.total_matches(), 2);
    assert_eq!(d.app.search.results.len(), 2);
}

#[test]
fn search_files_opens_selected_match_and_selects_the_matched_text() {
    let mut d = Desk::with(&[("src/main.rs", "fn main() {\n    let needle = 1;\n}\n")], None);
    d.app.open_search_files();
    for c in "needle".chars() {
        d.app.search_files_input(c);
    }
    d.search();
    assert_eq!(d.app.search.total_matches(), 1);
    d.open_hit();
    assert_eq!(d.app.top_dialog(), None, "opening a result closes the dialog");
    assert_eq!(d.app.tabs.active, Some(0));
    let buf = &d.app.tabs.editors[0];
    assert_eq!(buf.selected_text().as_deref(), Some("needle"), "the matched word is selected");
    assert_eq!(buf.cursor_row(), 1, "cursor lands on the matching line");
}

#[test]
fn search_files_editing_query_invalidates_stale_results() {
    let mut d = Desk::with(&[("src/main.rs", "needle\n")], None);
    d.app.open_search_files();
    for c in "needle".chars() {
        d.app.search_files_input(c);
    }
    d.search();
    assert!(d.app.search.searched);
    assert_eq!(d.app.search.total_matches(), 1);
    d.app.search_files_input('!');
    assert!(!d.app.search.searched);
    assert!(d.app.search.results.is_empty());
}

#[test]
fn search_files_auto_runs_after_the_debounce_elapses() {
    let mut d = Desk::with(&[("src/main.rs", "needle\n")], None);
    d.app.open_search_files();
    for c in "needle".chars() {
        d.app.search_files_input(c);
    }
    assert!(!d.app.search.searched, "typing alone doesn't run it immediately");
    // The wait is not over yet: still nothing.
    assert!(!d.app.poll_pending_search());
    assert!(!d.app.search.searched);
    d.app.now += 10_000;
    assert!(d.app.poll_pending_search(), "the search is due");
    d.search();
    assert!(d.app.search.searched);
    assert_eq!(d.app.search.total_matches(), 1);
    assert!(d.app.search.pending_search_at.is_none(), "the timer is consumed once it fires");
}

#[test]
fn search_files_enter_never_forces_a_search_only_opens_the_selection() {
    let mut d = Desk::with(&[("src/main.rs", "needle\n")], None);
    d.app.open_search_files();
    for c in "needle".chars() {
        d.app.search_files_input(c);
    }
    assert!(d.app.search.pending_search_at.is_some(), "debounce armed");
    d.open_hit();
    assert!(!d.app.search.searched, "Enter no longer triggers a search");
    assert!(d.app.search.pending_search_at.is_some(), "the debounce runs its course");
    assert_eq!(d.app.top_dialog(), Some(Dialog::SearchFiles), "nothing to open");

    d.app.now += 10_000;
    assert!(d.app.poll_pending_search());
    d.search();
    d.open_hit();
    assert_eq!(d.app.top_dialog(), None, "Enter on a real result opens it");
    assert_eq!(d.app.tabs.active, Some(0));
}

// ---- terminals -------------------------------------------------------------

#[test]
fn new_terminal_opens_beside_current_and_moves() {
    let mut d = workspace();
    d.spawn(); // [t0]          active 0
    d.spawn(); // [t0, t1]      active 1
    d.spawn(); // [t0, t1, t2]  active 2
    assert_eq!(d.app.terminals.list.len(), 3);
    assert_eq!(d.app.terminals.active, 2);

    // From the first tab, a new terminal opens right beside it (index 1).
    d.app.terminals.active = 0;
    d.spawn();
    assert_eq!(d.app.terminals.list.len(), 4);
    assert_eq!(d.app.terminals.active, 1, "inserted beside, not at the end");

    // Move the active terminal left/right, clamped at the ends.
    d.app.move_terminal_left();
    assert_eq!(d.app.terminals.active, 0);
    d.app.move_terminal_left();
    assert_eq!(d.app.terminals.active, 0, "already leftmost");
    d.app.move_terminal_right();
    assert_eq!(d.app.terminals.active, 1);
}

#[test]
fn a_terminal_starts_where_the_one_before_it_is() {
    let text = |s: &str| Some(s.to_string());
    assert_eq!(terminal_cwd(text("/a/sub"), text("/b"), text("/a"), text("/home")), "/a/sub");
    assert_eq!(terminal_cwd(None, text("/b"), text("/a"), text("/home")), "/b");
    assert_eq!(terminal_cwd(None, None, text("/a"), text("/home")), "/a");
}

#[test]
fn new_terminal_stops_at_the_cap() {
    let mut d = workspace();
    for _ in 0..MAX_TERMINALS + 5 {
        d.spawn();
    }
    assert_eq!(d.app.terminals.list.len(), MAX_TERMINALS);
    assert!(!d.app.can_spawn());
}

#[test]
fn capped_terminal_request_does_not_hijack_an_existing_terminal() {
    let mut d = workspace();
    for _ in 0..MAX_TERMINALS {
        d.spawn();
    }
    let before = d.app.terminals.list[d.app.terminals.active].name.clone();
    let typed = d.app.open_terminal_with_command("echo should-not-run", started("ws"));
    assert_eq!(typed, None);
    assert_eq!(d.app.terminals.list.len(), MAX_TERMINALS);
    assert_eq!(d.app.terminals.list[d.app.terminals.active].name, before);
}

#[test]
fn a_request_opens_a_terminal_named_after_its_folder() {
    let mut d = workspace();
    let typed = d.app.open_terminal_with_command("cd '/x/proj' && make", started("ws"));
    assert_eq!(typed.as_deref(), Some("cd '/x/proj' && make\n"));
    assert_eq!(d.app.terminals.list[0].name, "proj");
}

#[test]
fn term_title_from_cd_command() {
    assert_eq!(
        short_term_title("cd '/a/b/beenapp_backend_2023' && ./run.sh "),
        "beenapp_backend_2023"
    );
    assert_eq!(short_term_title("npm run start:dev"), "npm");
}

#[test]
fn terminal_labels_disambiguate_duplicates() {
    let mut d = workspace();
    d.toggle_terminal(); // spawns the first terminal
    d.spawn();
    d.spawn();
    let labels = d.app.terminal_labels();
    assert_eq!(labels.len(), 3);
    // All three are idle shells in the same folder: base, "base 2", "base 3".
    assert_eq!(labels[1], format!("{} 2", labels[0]));
    assert_eq!(labels[2], format!("{} 3", labels[0]));
}

#[test]
fn terminal_picker_filters_and_jumps_to_a_match() {
    let mut d = workspace();
    d.toggle_terminal();
    d.spawn();
    d.spawn();
    assert_eq!(d.app.terminals.list.len(), 3);
    d.app.terminals.active = 0;

    d.app.open_terminal_picker();
    assert_eq!(d.app.top_dialog(), Some(Dialog::TerminalPicker));
    // Unfiltered: every terminal, in tab order.
    assert_eq!(d.app.picker.matches, vec![0, 1, 2]);

    // "3" only matches the disambiguated third terminal's label.
    d.app.terminal_picker_input('3');
    assert_eq!(d.app.picker.matches, vec![2]);

    d.app.terminal_picker_confirm();
    assert_eq!(d.app.terminals.active, 2, "confirming jumps to the matched terminal");
    // Back to the terminal dialog underneath, not fully closed.
    assert_eq!(d.app.top_dialog(), Some(Dialog::Terminal));
}

#[test]
fn terminal_picker_backspace_widens_the_filter_again() {
    let mut d = workspace();
    d.toggle_terminal();
    d.spawn();
    d.app.open_terminal_picker();
    d.app.terminal_picker_input('2');
    assert_eq!(d.app.picker.matches.len(), 1);
    d.app.terminal_picker_backspace();
    assert_eq!(d.app.picker.matches.len(), 2, "empty query shows every terminal again");
}

#[test]
fn terminal_grid_click_switches_focus_without_touching_the_active_cell() {
    let mut d = workspace();
    d.toggle_terminal();
    d.spawn();
    d.app.terminals.grid = true;
    d.app.terminals.active = 0;
    d.app.layout.terminal_cells =
        vec![Rect { x: 0, y: 1, w: 40, h: 10 }, Rect { x: 40, y: 1, w: 40, h: 10 }];
    // Clicking the second (non-active) cell switches focus and consumes the
    // click: it does not also start a text selection there.
    let step = d.app.mouse_down(45, 5, false, false);
    assert_eq!(d.app.terminals.active, 1);
    assert!(matches!(step, PointerStep::Terminal(TermMouse::Nothing)));
}

#[test]
fn terminal_requires_an_open_folder() {
    let mut app = blank_app(None);
    assert_eq!(app.toggle_terminal_modal(), Needs::Nothing);
    assert!(app.terminals.list.is_empty(), "no terminal spawned without a folder");
    assert_eq!(app.top_dialog(), None, "terminal dialog not opened");

    // With a folder it works as before.
    let mut d = workspace();
    d.toggle_terminal();
    assert_eq!(d.app.top_dialog(), Some(Dialog::Terminal));
}

#[test]
fn folder_name_uses_basename() {
    assert_eq!(folder_name("/a/b/myproj"), "myproj");
    assert_eq!(folder_name("/"), "shell");
}

#[test]
fn terminal_repaint_is_throttled_to_configured_fps() {
    let mut d = workspace();
    d.app.settings.fps = 5; // 200ms between terminal-driven repaints
    d.app.note_terminal_repaint();
    // Right after a repaint, more output alone isn't reason to repaint yet.
    assert!(!d.app.terminal_repaint_due(true));
    // With no new output at all, never due regardless of elapsed time.
    assert!(!d.app.terminal_repaint_due(false));
    // Past the interval output is due to show.
    d.app.now += 250;
    assert!(d.app.terminal_repaint_due(true));
}

#[test]
fn repaint_interval_matches_configured_fps() {
    let mut d = workspace();
    d.app.settings.fps = 1;
    assert_eq!(d.app.repaint_interval(), 1000);
    d.app.settings.fps = 60;
    assert_eq!(d.app.repaint_interval(), 16);
}

fn terminal_mouse_desk() -> Desk {
    let mut d = workspace();
    d.toggle_terminal();
    d.app.layout.terminal_view = Some(Rect { x: 0, y: 0, w: 80, h: 24 });
    d
}

#[test]
fn wheel_scrolls_local_scrollback_at_shell() {
    let mut d = terminal_mouse_desk();
    // No mouse mode, normal screen: the wheel scrolls the scrollback, and
    // nothing reaches the shell.
    let step = d.app.mouse_wheel(3, 10, 5, false);
    assert!(matches!(step, PointerStep::Terminal(TermMouse::Scroll(n)) if n > 0));
}

#[test]
fn wheel_sends_arrows_on_alt_screen_pager() {
    let mut d = terminal_mouse_desk();
    // The alternate screen WITHOUT mouse tracking (like less/man).
    d.app.terminals.list[0].alternate_screen = true;
    let step = d.app.mouse_wheel(2, 0, 0, false);
    assert!(matches!(step, PointerStep::Terminal(TermMouse::Arrows { up: true, times: 2 })));
}

#[test]
fn wheel_forwards_to_program_in_mouse_mode() {
    let mut d = terminal_mouse_desk();
    d.app.terminals.list[0].wants_mouse = true;
    let step = d.app.mouse_wheel(1, 10, 5, false);
    assert!(matches!(
        step,
        PointerStep::Terminal(TermMouse::Wheel { button: 64, col: 10, row: 5, times: 1 })
    ));
}

#[test]
fn click_forwards_in_mouse_mode_but_shift_selects_locally() {
    let mut d = terminal_mouse_desk();
    d.app.terminals.list[0].wants_mouse = true;
    // Plain click: forwarded to the program.
    let press = d.app.mouse_down(3, 2, false, false);
    assert!(matches!(
        press,
        PointerStep::Terminal(TermMouse::Report { button: 0, col: 3, row: 2, release: false })
    ));
    d.app.mouse_up(3, 2);
    // Shift+click: local selection; nothing reaches the program.
    let local = d.app.mouse_down(3, 2, true, false);
    assert!(matches!(local, PointerStep::Terminal(TermMouse::Extend { row: 2, col: 3 })));
}

#[test]
fn drag_selects_terminal_text_without_mouse_mode() {
    let mut d = terminal_mouse_desk();
    let a = d.app.mouse_down(0, 0, false, false);
    assert!(matches!(a, PointerStep::Terminal(TermMouse::Begin { row: 0, col: 0 })));
    let b = d.app.mouse_drag(79, 6);
    assert!(matches!(b, PointerStep::Terminal(TermMouse::Update { row: 6, col: 79 })));
    d.app.mouse_up(79, 6);
    assert!(!d.app.pointer.selecting);
}

#[test]
fn phantom_drag_on_a_stationary_double_click_does_not_shrink_terminal_word_selection() {
    let mut d = terminal_mouse_desk();
    d.app.mouse_down(7, 3, false, false);
    d.app.mouse_up(7, 3);
    let double = d.app.mouse_down(7, 3, false, false);
    assert!(matches!(double, PointerStep::Terminal(TermMouse::SelectWord { row: 3, col: 7 })));
    // A drag on the same cell before the release changes nothing.
    let drag = d.app.mouse_drag(7, 3);
    assert!(matches!(drag, PointerStep::Terminal(TermMouse::Nothing)));
    d.app.mouse_up(7, 3);
}

#[test]
fn a_selection_held_against_the_edge_goes_on() {
    let mut d = terminal_mouse_desk();
    d.app.mouse_down(5, 5, false, false);
    d.app.mouse_drag(9, 23);
    assert_eq!(d.app.mouse_drag_tick(), TermMouse::Update { row: 23, col: 9 });
    d.app.mouse_up(9, 23);
    assert_eq!(d.app.mouse_drag_tick(), TermMouse::Nothing);
}

#[test]
fn a_dragged_terminal_tab_goes_along() {
    let mut d = terminal_mouse_desk();
    d.app.new_terminal(started("other"));
    d.app.layout.terminal_strip = Some(Rect { x: 0, y: 10, w: 40, h: 1 });
    d.app.layout.terminal_hits = vec![
        TabHit { row: 0, col_start: 0, col_end: 10, tab: 0 },
        TabHit { row: 0, col_start: 10, col_end: 20, tab: 1 },
    ];
    d.app.mouse_down(12, 10, false, false);
    assert_eq!(d.app.terminals.active, 1);
    d.app.mouse_drag(3, 10);
    assert_eq!(d.app.terminals.active, 0);
    assert_eq!(d.app.terminals.list[0].name, "other");
    d.app.mouse_up(3, 10);
    assert_eq!(d.app.pointer.terminal_tab_drag, None);
}

#[test]
fn what_was_copied_in_a_terminal_is_told() {
    let mut d = terminal_mouse_desk();
    d.app.copy_terminal_selection(Some("abc".to_string()));
    assert_eq!(d.app.clipboard_text, "abc");
    assert!(d.app.clipboard_dirty);
    assert_eq!(d.app.paste_terminal(None).as_deref(), Some("abc"));
    d.app.close_terminal();
    assert!(d.app.terminals.list.is_empty());
    assert_eq!(d.app.top_dialog(), None, "the last terminal takes the dialog with it");
}

// ---- closing and quitting ---------------------------------------------------

#[test]
fn close_tab_unmodified_closes_immediately() {
    let mut d = workspace();
    d.open(&at("notes.txt"));
    d.app.close_tab();
    assert!(d.app.tabs.editors.is_empty());
    assert!(!d.app.prompt.active, "no prompt for an unmodified file");
}

#[test]
fn close_tab_unsaved_prompts_then_save_or_discard() {
    let mut d = workspace();
    d.open(&at("notes.txt"));
    d.buffer().insert_str("EDIT");
    // Closing a modified file prompts and does NOT close yet.
    d.app.close_tab();
    assert_eq!(d.app.prompt.kind(), Some(PromptKind::CloseTab));
    assert_eq!(d.app.tabs.editors.len(), 1, "stays open until answered");
    // Save & close writes the file.
    let outcome = d.save_file(0);
    d.app.close_tab_answer(true, outcome);
    assert!(d.app.tabs.editors.is_empty());
    assert!(d.on_disk("notes.txt").starts_with("EDIT"), "saved on close");
}

#[test]
fn close_tab_discard_does_not_save() {
    let mut d = workspace();
    d.open(&at("notes.txt"));
    d.buffer().insert_str("X");
    d.app.close_tab();
    d.app.close_tab_answer(false, SaveOutcome::Failed(String::new()));
    assert!(d.app.tabs.editors.is_empty());
    assert_eq!(d.on_disk("notes.txt"), "hello\n", "changes discarded");
}

#[test]
fn a_tab_that_cannot_be_saved_stays_open() {
    let mut d = workspace();
    d.open(&at("notes.txt"));
    d.buffer().insert_str("X");
    d.app.close_tab();
    d.app.close_tab_answer(true, SaveOutcome::Failed("read-only".to_string()));
    assert_eq!(d.app.tabs.editors.len(), 1);
    assert!(d.app.tabs.editors[0].modified);
}

#[test]
fn quit_with_no_blockers_exits_immediately() {
    let mut d = workspace();
    d.open(&at("notes.txt")); // opened but unmodified
    d.app.request_quit();
    assert!(d.app.should_quit);
}

#[test]
fn quit_prompts_for_unsaved_and_cancel_aborts() {
    let mut d = workspace();
    d.open(&at("notes.txt"));
    d.buffer().insert_str("X");
    d.app.request_quit();
    assert!(!d.app.should_quit, "must not quit with unsaved changes");
    assert_eq!(d.app.prompt.kind(), Some(PromptKind::QuitUnsaved));
    // Cancel keeps everything: no quit, file still modified and untouched.
    d.app.cancel_quit();
    assert!(!d.app.should_quit);
    assert!(!d.app.prompt.active);
    assert!(d.app.tabs.editors[0].modified);
    assert_eq!(d.on_disk("notes.txt"), "hello\n");
}

#[test]
fn quit_save_writes_then_exits() {
    let mut d = workspace();
    d.open(&at("notes.txt"));
    d.buffer().insert_str("X");
    d.app.request_quit();
    assert_eq!(d.app.file_asked_about(), Some(0));
    let outcome = d.save_file(0);
    d.app.quit_save_current(outcome);
    assert!(d.app.should_quit, "quits once the only blocker is resolved");
    assert!(d.on_disk("notes.txt").starts_with('X'), "the file was saved");
}

#[test]
fn quit_discard_exits_without_saving() {
    let mut d = workspace();
    d.open(&at("notes.txt"));
    d.buffer().insert_str("X");
    d.app.request_quit();
    d.app.quit_skip_current(); // discard
    assert!(d.app.should_quit);
    assert_eq!(d.on_disk("notes.txt"), "hello\n", "discarded changes were not written");
}

#[test]
fn what_was_discarded_is_not_asked_about_again() {
    let mut d = workspace();
    d.open(&at("notes.txt"));
    d.buffer().insert_str("X");
    d.open(&at("src/main.rs"));
    d.buffer().insert_str("Y");
    assert!(d.app.files_to_ask_about().is_empty());
    d.app.request_quit();
    assert_eq!(d.app.files_to_ask_about(), vec![0, 1]);
    d.app.quit_skip_current();
    assert_eq!(d.app.files_to_ask_about(), vec![1]);
}

#[test]
fn quit_save_all_saves_every_remaining_unsaved_file() {
    let mut d = workspace();
    d.open(&at("notes.txt"));
    d.buffer().insert_str("X");
    d.open(&at("src/main.rs"));
    d.buffer().insert_str("Y");
    d.app.request_quit();
    assert_eq!(d.app.prompt.kind(), Some(PromptKind::QuitUnsaved));
    let outcomes = d.save_every();
    d.app.quit_save_all(&outcomes);
    assert!(d.app.should_quit, "resolves every blocker and quits in one step");
    assert!(!d.app.prompt.active);
    assert!(d.on_disk("notes.txt").starts_with('X'), "first file saved");
    assert!(d.on_disk("src/main.rs").starts_with('Y'), "second file saved too");
}

#[test]
fn quit_discard_all_discards_every_remaining_unsaved_file() {
    let mut d = workspace();
    d.open(&at("notes.txt"));
    d.buffer().insert_str("X");
    d.open(&at("src/main.rs"));
    d.buffer().insert_str("Y");
    d.app.request_quit();
    d.app.quit_discard_all();
    assert!(d.app.should_quit);
    assert_eq!(d.on_disk("notes.txt"), "hello\n");
    assert_eq!(d.on_disk("src/main.rs"), "fn main() {}\n");
}

#[test]
fn quit_close_all_terminals_in_one_step() {
    let mut d = workspace();
    d.spawn();
    d.spawn();
    d.app.terminals.list[0].running = true;
    d.app.terminals.list[1].running = true;
    d.app.request_quit();
    assert_eq!(d.app.prompt.kind(), Some(PromptKind::QuitTerminal));
    d.app.quit_discard_all();
    assert!(d.app.should_quit, "both running-terminal blockers resolved in one step");
    assert!(!d.app.prompt.active);
}

#[test]
fn close_all_with_no_unsaved_drops_everything() {
    let mut d = workspace();
    d.open(&at("notes.txt"));
    d.open(&at("src/main.rs"));
    d.app.close_all();
    assert!(d.app.tabs.editors.is_empty());
    assert_eq!(d.app.tabs.active, None);
    assert!(!d.app.prompt.active, "no prompt when nothing is unsaved");
}

#[test]
fn close_all_prompts_per_unsaved_file_then_closes() {
    let mut d = workspace();
    d.open(&at("notes.txt"));
    d.buffer().insert_str("EDIT"); // notes is now modified
    d.open(&at("src/main.rs")); // unmodified
    d.app.close_all();
    assert!(d.app.prompt.active);
    assert_eq!(d.app.prompt.kind(), Some(PromptKind::CloseUnsaved));
    assert_eq!(d.app.tabs.editors.len(), 2, "nothing closed until answered");
    // Answer "save": file is written, and all files close.
    let i = d.app.tabs.active.unwrap();
    assert_eq!(d.app.tabs.editors[i].name(), "notes.txt", "the file asked about shows");
    let outcome = d.save_file(i);
    d.app.close_unsaved_answer(true, outcome);
    assert!(d.app.tabs.editors.is_empty(), "everything closed after answering");
    assert!(!d.app.prompt.active);
    assert!(d.on_disk("notes.txt").starts_with("EDIT"), "saved on the way out");
}

#[test]
fn close_all_discard_does_not_save() {
    let mut d = workspace();
    d.open(&at("notes.txt"));
    d.buffer().insert_str("DISCARD_ME");
    d.app.close_all();
    d.app.close_unsaved_answer(false, SaveOutcome::Failed(String::new()));
    assert!(d.app.tabs.editors.is_empty());
    assert_eq!(d.on_disk("notes.txt"), "hello\n", "discarded, file unchanged");
}

#[test]
fn close_all_handles_multiple_unsaved_sequentially() {
    let mut d = workspace();
    d.open(&at("notes.txt"));
    d.buffer().insert_str("N");
    d.open(&at("src/main.rs"));
    d.buffer().insert_str("M");
    d.app.close_all();
    assert!(d.app.prompt.active);
    let i = d.app.tabs.active.unwrap();
    let outcome = d.save_file(i);
    d.app.close_unsaved_answer(true, outcome); // save first
    // Still a second unsaved file: another prompt.
    assert!(d.app.prompt.active, "second unsaved file prompts");
    assert_eq!(d.app.tabs.editors.len(), 1);
    d.app.close_unsaved_answer(false, SaveOutcome::Failed(String::new())); // discard second
    assert!(d.app.tabs.editors.is_empty());
    assert!(!d.app.prompt.active);
    assert!(d.on_disk("notes.txt").starts_with('N'), "first was saved");
    assert_eq!(d.on_disk("src/main.rs"), "fn main() {}\n", "second discarded");
}

// ---- recent folders and settings -------------------------------------------

fn recents(d: &mut Desk, names: &[&str], disabled: &[bool]) {
    d.app.recent.open = true;
    d.app.recent.folders = names.iter().map(|n| at(n)).collect();
    d.app.recent.cursor = 0;
    d.app.recent.checked = vec![false; names.len()];
    d.app.recent.disabled = disabled.to_vec();
}

#[test]
fn recent_dialog_multiselect() {
    let mut d = workspace();
    recents(&mut d, &["src", "lib"], &[false, false]);
    // Move + toggle build up a multi-selection.
    d.app.recent_toggle(); // check row 0
    d.app.recent_move(1);
    d.app.recent_toggle(); // check row 1
    assert_eq!(d.app.recent.checked, vec![true, true]);
    // Cursor wraps.
    d.app.recent_move(1);
    assert_eq!(d.app.recent.cursor, 0);
}

#[test]
fn recent_delete_removes_cursor_row_when_nothing_checked() {
    let mut d = workspace();
    recents(&mut d, &["a", "b"], &[false, false]);
    let gone = d.app.recent_delete_selected();
    assert_eq!(gone, vec![at("a")]);
    assert_eq!(d.app.recent.folders, vec![at("b")]);
    assert_eq!(d.app.recent.checked, vec![false]);
    assert_eq!(d.app.recent.cursor, 0);
}

#[test]
fn recent_delete_removes_all_checked_rows() {
    let mut d = workspace();
    recents(&mut d, &["a", "b", "c"], &[false, false, false]);
    d.app.recent.cursor = 2;
    d.app.recent.checked = vec![true, false, true];
    d.app.recent_delete_selected();
    // Only the unchecked middle row survives, and the cursor is clamped into
    // range rather than pointing past the end.
    assert_eq!(d.app.recent.folders, vec![at("b")]);
    assert_eq!(d.app.recent.cursor, 0);
}

#[test]
fn recent_delete_refuses_a_currently_open_folder() {
    let mut d = workspace();
    recents(&mut d, &["a"], &[true]); // "a" is open in some window
    d.app.recent_delete_selected();
    assert_eq!(d.app.recent.folders, vec![at("a")], "the open folder must survive");
    assert_eq!(
        d.app.toast.as_ref().map(|t| t.message.as_str()),
        Some("Cannot delete an open folder from Recent")
    );
}

#[test]
fn recent_delete_skips_open_folders_but_removes_the_rest() {
    let mut d = workspace();
    recents(&mut d, &["a", "b", "c"], &[false, true, false]); // "b" is open
    d.app.recent.checked = vec![true, true, true];
    d.app.recent_delete_selected();
    assert_eq!(d.app.recent.folders, vec![at("b")], "only the open folder survives");
}

#[test]
fn a_picked_folder_opens_here_when_none_is_open() {
    let mut app = blank_app(None);
    app.recent.open = true;
    app.recent.folders = vec!["/x".to_string(), "/y".to_string()];
    app.recent.checked = vec![true, true];
    app.recent.disabled = vec![false, false];
    match app.recent_open_selected() {
        FolderStep::Here { first, others } => {
            assert_eq!(first, "/x");
            assert_eq!(others, vec!["/y".to_string()]);
        }
        other => panic!("{other:?}"),
    }
    app.switch_root("/x".to_string(), no_files());
    assert_eq!(app.root.as_deref(), Some("/x"));
}

#[test]
fn settings_dialog_has_font_fps_size_and_colour_sections() {
    let mut d = workspace();
    d.app.open_settings();
    assert_eq!(d.app.settings.focus, 0); // font
    d.app.settings_move_focus(1);
    assert_eq!(d.app.settings.focus, 1); // terminal FPS
    d.app.settings_move_focus(1);
    assert_eq!(d.app.settings.focus, 2); // dialog size
    d.app.settings_move_focus(1);
    assert_eq!(d.app.settings.focus, 3); // colour
    d.app.settings_move_focus(1);
    assert_eq!(d.app.settings.focus, 0, "wraps back to font (only four sections)");
}

#[test]
fn settings_move_focus_negative_delta_goes_backward() {
    let mut d = workspace();
    d.app.open_settings();
    assert_eq!(d.app.settings.focus, 0);
    d.app.settings_move_focus(-1);
    assert_eq!(d.app.settings.focus, 3, "Up from the first section wraps to the last");
    d.app.settings_move_focus(-1);
    assert_eq!(d.app.settings.focus, 2);
    d.app.settings_move_focus(1);
    assert_eq!(d.app.settings.focus, 3, "Down moves forward again");
}

#[test]
fn settings_adjusts_font_and_accent() {
    let mut d = workspace();
    d.app.open_settings();
    assert!(d.app.settings.open);
    assert_eq!(d.app.settings.focus, 0); // font size first

    let before = d.app.settings.font_size;
    d.app.settings_adjust(1);
    assert_eq!(d.app.settings.font_size, before + 1);
    d.app.settings_adjust(-1);
    assert_eq!(d.app.settings.font_size, before);

    // Switch to the colour section and pick the next colour.
    d.app.settings_move_focus(1);
    d.app.settings_move_focus(1);
    d.app.settings_move_focus(1);
    assert_eq!(d.app.settings.focus, 3);
    let c0 = d.app.settings.color;
    d.app.settings_adjust(1);
    assert_ne!(d.app.settings.color, c0);
    // The accent now matches the picked palette entry.
    assert_eq!(d.app.settings.accent, palette()[d.app.settings.color]);
    // Settings is still the focused dialog in the stack.
    assert_eq!(d.app.top_dialog(), Some(Dialog::Settings));
}

#[test]
fn settings_adjusts_terminal_fps_through_the_offered_steps() {
    let mut d = workspace();
    d.app.settings.fps = 60;
    d.app.open_settings();
    d.app.settings_move_focus(1);
    assert_eq!(d.app.settings.focus, 1);
    d.app.settings_adjust(-1);
    assert_eq!(d.app.settings.fps, 30);
    d.app.settings_adjust(-1);
    assert_eq!(d.app.settings.fps, 20);
    d.app.settings_adjust(-10); // clamps at the lowest offered step, doesn't wrap
    assert_eq!(d.app.settings.fps, 1);
    d.app.settings_adjust(1);
    assert_eq!(d.app.settings.fps, 5);
    d.app.settings_adjust(10); // clamps at the highest, doesn't wrap either
    assert_eq!(d.app.settings.fps, 60);
}

#[test]
fn settings_adjusts_dialog_size_within_80_99_range() {
    let mut d = workspace();
    d.app.settings.dialog_size = 90;
    d.app.open_settings();
    d.app.settings_move_focus(2);
    assert_eq!(d.app.settings.focus, 2);
    d.app.settings_adjust(-1);
    assert_eq!(d.app.settings.dialog_size, 89);
    d.app.settings_adjust(-20); // clamps at the floor, doesn't go below 80
    assert_eq!(d.app.settings.dialog_size, 80);
    d.app.settings_adjust(30); // clamps at the ceiling, doesn't go above 99
    assert_eq!(d.app.settings.dialog_size, 99);
}

#[test]
fn settings_adjust_persists_immediately_without_closing_the_dialog() {
    let mut d = workspace();
    d.app.open_settings();
    d.app.settings_move_focus(1);
    d.app.settings.fps = 60;
    d.app.settings_adjust(-1); // 30, to be written without the dialog closing
    assert!(d.app.settings.open, "dialog is still open");
    let prefs = d.app.settings_to_write().expect("there is something to write");
    let text = save_prefs_to(None, &prefs).unwrap();
    let table: toml::Table = text.parse().unwrap();
    let fps = table["gui"].as_table().unwrap()["fps"].as_integer();
    assert_eq!(fps, Some(30), "the adjustment is written at once");
    d.app.persist_settings(None);
    assert!(d.app.settings_to_write().is_none());
}

// ---- dialogs -----------------------------------------------------------------

#[test]
fn dialog_stack_raises_dedups_and_pops() {
    let mut d = workspace();
    // Open two dialogs: they stack, newest on top.
    d.open_dialog();
    assert_eq!(d.app.top_dialog(), Some(Dialog::Files));
    if d.app.open_recent_dialog() == Needs::Recents {
        d.app.init_recent_dialog(vec![], &vec![], &vec![]);
    }
    assert_eq!(d.app.top_dialog(), Some(Dialog::Recent));
    assert_eq!(d.app.dialogs.len(), 2);

    // Re-opening Files (already open) raises it without duplicating.
    d.open_dialog();
    assert_eq!(d.app.top_dialog(), Some(Dialog::Files));
    assert_eq!(d.app.dialogs, vec![Dialog::Recent, Dialog::Files]);

    // Closing the top reveals the one beneath, then the editor.
    d.app.close_top_dialog();
    assert_eq!(d.app.top_dialog(), Some(Dialog::Recent));
    d.app.close_top_dialog();
    assert_eq!(d.app.top_dialog(), None);
    assert!(!d.app.file_dialog.active && !d.app.recent.open);
}

#[test]
fn no_folder_state() {
    // Launched with no folder: welcome state, empty tree, file dialog is a
    // no-op until a folder is opened.
    let mut app = blank_app(None);
    assert!(!app.has_folder());
    assert!(app.root.is_none());
    assert!(app.tree.entries.is_empty());
    assert!(app.files.is_empty());
    app.open_file_dialog();
    assert!(!app.file_dialog.active, "file dialog stays closed without a folder");

    // A folder-backed app has the normal populated state.
    let d = workspace();
    assert!(d.app.has_folder());
    assert!(!d.app.tree.entries.is_empty());
}

#[test]
fn terminal_keeps_nerd_when_symbols_font_present() {
    let mut app = blank_app(None);
    assert_eq!(app.icons.mode, IconMode::Nerd);
    app.ensure_terminal_icons(FontInstall::AlreadyPresent);
    assert_eq!(app.icons.mode, IconMode::Nerd);
}

#[test]
fn terminal_falls_back_to_unicode_when_font_missing() {
    for outcome in [FontInstall::Installed, FontInstall::Unsupported, FontInstall::Failed] {
        let mut app = blank_app(None);
        app.ensure_terminal_icons(outcome);
        assert_eq!(app.icons.mode, IconMode::Unicode, "{outcome:?} -> Unicode");
    }
}

#[test]
fn search_includes_gitignored_files() {
    let mut d = Desk::with(&[("shown.rs", ""), ("ignored.rs", "")], Some("ignored.rs\n"));
    let files = d.folder(ROOT);
    d.app.rebuild_dialog_entries(&files.walk, &files.heeding_walk);
    let pos = |n: &str| d.app.entries.paths.iter().position(|p| p.ends_with(n));
    assert!(pos("shown.rs").is_some());
    let ig = pos("ignored.rs").expect("gitignored file is searchable");
    assert!(d.app.entries.ignored[ig], "gitignored file flagged for fading");
    assert!(!d.app.entries.ignored[pos("shown.rs").unwrap()]);
}

#[test]
fn junk_dirs_hidden_from_search_until_toggled() {
    let mut d = Desk::with(&[("app.rs", ""), ("node_modules/lib.js", "")], None);
    let files = d.folder(ROOT);
    d.app.rebuild_dialog_entries(&files.walk, &files.heeding_walk);
    let has = |d: &Desk, n: &str| d.app.entries.paths.iter().any(|p| p.ends_with(n));
    assert!(has(&d, "app.rs"), "real source is searchable");
    assert!(!has(&d, "node_modules/lib.js"), "node_modules hidden from search by default");

    d.app.show_junk = true;
    let files = d.folder(ROOT);
    d.app.show_junk = false;
    d.app.dialog_toggle_junk(&files.walk, &files.heeding_walk);
    assert!(d.app.show_junk);
    assert!(has(&d, "node_modules/lib.js"), "toggle reveals node_modules in search");
    assert!(has(&d, "app.rs"), "real source still there");

    d.app.show_junk = false;
    let files = d.folder(ROOT);
    d.app.show_junk = true;
    d.app.dialog_toggle_junk(&files.walk, &files.heeding_walk);
    assert!(!d.app.show_junk);
    assert!(!has(&d, "node_modules/lib.js"), "toggle hides it again");

    // The tree, meanwhile, always lists node_modules.
    let f = d.folder(ROOT);
    let tree = FileTree::new(ROOT.to_string(), &f.listing, f.filter);
    assert!(
        tree.entries.iter().any(|e| e.name == "node_modules"),
        "node_modules is shown in the tree regardless of the search toggle"
    );
}

#[test]
fn dialog_scopes_search_into_a_folder() {
    let mut d = workspace(); // notes.txt + src/main.rs
    d.open_dialog();
    assert!(d.app.dialog_tree_mode(), "opens in browse-tree mode");

    // Browse to `src` (folders sort first) and scope the search into it (Tab).
    d.app.dialog_down();
    let step = d.app.dialog_tab();
    d.follow(step);
    assert_eq!(d.app.scope.as_deref(), Some(at("src").as_str()));

    // A file outside the scope is no longer findable; one inside is.
    d.query("notes");
    assert!(d.app.file_dialog.matches.is_empty(), "out-of-scope file excluded");
    d.query("main");
    assert!(!d.app.file_dialog.matches.is_empty(), "in-scope file found");

    // Clearing the query, then one more Backspace, drills back out.
    d.query("");
    let step = d.app.dialog_backspace(); // empty query + scope: pop the scope
    d.follow(step);
    assert!(d.app.scope.is_none(), "drilled back out to the whole project");
    d.query("notes");
    assert!(!d.app.file_dialog.matches.is_empty(), "out-of-scope file findable again");
}

#[test]
fn dialog_shift_tab_drills_out_of_folder() {
    let mut d = workspace();
    d.open_dialog();
    d.app.dialog_down(); // select `src`
    let step = d.app.dialog_tab(); // Tab: scope into it
    d.follow(step);
    assert!(d.app.scope.is_some(), "scoped into the folder");
    let step = d.app.dialog_backtab(); // Shift+Tab: the mirror
    d.follow(step);
    assert!(d.app.scope.is_none(), "Shift+Tab leaves the folder");
    // A second Shift+Tab at the top level is a harmless no-op.
    let step = d.app.dialog_backtab();
    d.follow(step);
    assert!(d.app.scope.is_none());
}

#[test]
fn dialog_new_file_creates_at_root() {
    let mut d = workspace();
    d.open_dialog(); // root node selected
    d.app.dialog_new_file();
    d.app.prompt.input = "fresh.txt".to_string();
    d.confirm();
    assert!(d.files.contains_key(&at("fresh.txt")));
}

#[test]
fn a_new_file_shows_and_opens() {
    let mut d = workspace();
    d.open_dialog();
    assert_eq!(d.app.files, vec![at("notes.txt"), at("src/main.rs")]);
    d.app.dialog_new_file();
    d.app.prompt.input = "fresh.txt".to_string();
    d.confirm();
    assert_eq!(d.app.status, format!("Opened {}", at("fresh.txt")));
    assert_eq!(d.app.files, vec![at("fresh.txt"), at("notes.txt"), at("src/main.rs")]);
    assert_eq!(d.app.entries.paths, d.app.files, "the dialog would list it");
    assert!(d.app.tree.entries.iter().any(|e| e.name == "fresh.txt"), "the tree shows it");
    assert!(!d.app.dialogs.contains(&Dialog::Files), "the dialog goes");
    assert!(!d.app.file_dialog.active);
    assert_eq!(d.buffer().path, Some(at("fresh.txt")));
}

#[test]
fn a_failed_task_is_told_and_shows_the_disk() {
    let mut d = workspace();
    d.open_dialog();
    d.app.dialog_new_file();
    d.app.prompt.input = "fresh.txt".to_string();
    let task = d.app.confirm_prompt().unwrap();
    d.write(&at("other.txt"), "");
    let found = d.found();
    assert_eq!(d.app.task_done(&task, Some("denied".to_string()), &found), None);
    assert_eq!(d.app.status, "Error: denied");
    assert_eq!(d.app.files, vec![at("notes.txt"), at("other.txt"), at("src/main.rs")]);
    assert!(d.app.file_dialog.active, "the dialog stays");
    assert_eq!(d.app.file_dialog.matches.len(), 3, "and lists what is there");
}

#[test]
fn search_boosts_recently_opened_file() {
    let mut d = workspace();
    d.write(&at("mainframe.rs"), "");
    // Open src/main.rs: records it as most-recently-used.
    d.open(&at("src/main.rs"));
    d.open_dialog();
    d.query("main");
    let top = d.app.entries.paths[d.app.file_dialog.matches[0]].clone();
    assert!(top.ends_with("src/main.rs"), "the recently-opened file tops the search, got {top:?}");
}

#[test]
fn file_dialog_opens_multiple_ticked_files() {
    let mut d = workspace(); // notes.txt + src/main.rs
    d.open_dialog();
    // Tick notes.txt, then (across a query change) src/main.rs.
    d.query("notes");
    d.app.dialog_toggle_check();
    d.query("main");
    d.app.dialog_toggle_check();
    assert_eq!(d.app.file_dialog.checked.len(), 2, "ticks persist across query changes");

    let step = d.app.dialog_open_selected();
    d.follow(step);
    assert_eq!(d.app.tabs.editors.len(), 2, "both ticked files opened");
    assert!(!d.app.file_dialog.active, "dialog closed after multi-open");
}

#[test]
fn copy_dialog_path_uses_the_selection() {
    let mut d = workspace();
    d.open_dialog();
    d.query("main");
    d.app.copy_dialog_path(true);
    assert_eq!(d.app.clipboard_text, "src/main.rs");
    d.app.copy_dialog_path(false);
    assert_eq!(d.app.clipboard_text, at("src/main.rs"));
}

#[test]
fn dialog_rename_then_delete() {
    let mut d = workspace();
    d.write(&at("old.txt"), "hi");
    d.open_dialog();
    // Select old.txt by searching for it (flat list, top result).
    d.query("old.txt");
    d.app.dialog_rename();
    d.app.prompt.input = "new.txt".to_string();
    d.confirm();
    assert!(d.files.contains_key(&at("new.txt")));
    assert!(!d.files.contains_key(&at("old.txt")));
    assert_eq!(d.app.status, "Renamed to new.txt");

    d.query("new.txt");
    d.app.dialog_delete();
    d.confirm();
    assert!(!d.files.contains_key(&at("new.txt")));
    assert_eq!(d.app.status, "Deleted");
    assert!(!d.app.files.contains(&at("new.txt")));
}

fn list_area(d: &mut Desk) -> (u16, u16) {
    d.app.layout.list = Some(Rect { x: 10, y: 4, w: 40, h: 12 });
    d.app.layout.list_start = 0;
    (10, 4)
}

#[test]
fn dialog_click_toggles_folder_then_opens_file() {
    let mut d = workspace();
    d.open_dialog();
    let (x, y) = list_area(&mut d);
    // Row 0 is the root folder itself (auto-expanded); row 1 is "src" (folders
    // sort first) at depth 1: click its chevron (column x + depth*2).
    assert_eq!(d.app.tree.entries[1].name, "src");
    assert!(d.app.tree.entries[1].is_dir);
    assert!(!d.app.tree.entries[1].expanded);
    let chevron = x + d.app.tree.entries[1].depth as u16 * 2;
    let step = d.app.dialog_mouse_down(chevron, y + 1);
    d.follow(step);
    let step = d.app.dialog_mouse_up(chevron, y + 1);
    d.follow(step);
    assert!(d.app.tree.entries[1].expanded, "clicking the chevron expands the folder");

    // src/ is now expanded with main.rs beneath it at row 2.
    assert_eq!(d.app.tree.entries[2].name, "main.rs");
    let step = d.app.dialog_mouse_down(x, y + 2);
    d.follow(step);
    let step = d.app.dialog_mouse_up(x, y + 2);
    d.follow(step);
    let i = d.app.tabs.active.expect("clicking a file opens it");
    assert_eq!(d.app.tabs.editors[i].name(), "main.rs");
}

#[test]
fn dialog_drag_moves_file_into_folder() {
    let mut d = workspace();
    d.open_dialog();
    // Folders sort first: [1] "src", [2] "notes.txt".
    assert_eq!(d.app.tree.entries[1].name, "src");
    assert_eq!(d.app.tree.entries[2].name, "notes.txt");
    // Drag row 2 (notes.txt) onto row 1 (src/).
    let step = d.app.drop_tree_entry(2, 1);
    d.follow(step);
    assert!(d.files.contains_key(&at("src/notes.txt")), "file moved into src/");
    assert!(!d.files.contains_key(&at("notes.txt")), "no longer at root");
    assert_eq!(d.app.toast.as_ref().map(|t| t.message.as_str()), Some("Moved to src/"));
}

#[test]
fn a_file_dropped_on_its_own_folder_stays() {
    let mut d = workspace();
    d.open_dialog();
    // Row 0 is the root folder, in which notes.txt lies already.
    assert!(matches!(d.app.drop_tree_entry(2, 0), BrowseStep::Nothing));
}

#[test]
fn dialog_hover_tracks_row_under_pointer() {
    let mut d = workspace();
    d.open_dialog();
    let (x, y) = list_area(&mut d);
    d.app.mouse_move(x, y + 1);
    assert_eq!(d.app.pointer.hover, Some(1));
    d.app.mouse_move(0, 0); // outside the results list
    assert_eq!(d.app.pointer.hover, None);
}

// ---- the mouse over the text ---------------------------------------------------

fn tab_hits(d: &mut Desk, n: usize) {
    d.app.layout.tab_strip = Some(Rect { x: 0, y: 0, w: 80, h: 1 });
    d.app.layout.tab_hits = (0..n)
        .map(|i| TabHit {
            row: 0,
            col_start: i as u16 * 24,
            col_end: i as u16 * 24 + 24,
            tab: i,
        })
        .collect();
}

#[test]
fn clicking_editor_while_find_active_closes_find() {
    let mut d = one_file("hello world\nsecond line\n");
    find_for(&mut d, "world");
    assert!(d.app.find.active);
    d.app.editor_mouse_down(0, 1, false);
    assert!(!d.app.find.active, "click on editor text should close find");
}

#[test]
fn double_click_selects_word_triple_click_selects_line() {
    let mut d = one_file("hello world\nsecond line\n");
    // The gutter of a short file is 4 columns; row 2 is the first row of text
    // (one row of tabs and the path above it).
    let col = 4 + 8;
    let row = 2;
    d.app.mouse_down(col, row, false, false);
    d.app.mouse_up(col, row);
    assert!(d.buffer().selection().is_none(), "a single click leaves no selection");

    d.app.mouse_down(col, row, false, false);
    d.app.mouse_up(col, row);
    assert_eq!(d.buffer().selected_text().as_deref(), Some("world"), "double-click: the word");

    d.app.mouse_down(col, row, false, false);
    d.app.mouse_up(col, row);
    assert_eq!(
        d.buffer().selected_text().as_deref(),
        Some("hello world\n"),
        "triple-click: the whole line"
    );
}

#[test]
fn double_click_registers_at_a_slower_but_still_normal_click_speed() {
    let mut d = one_file("hello world\n");
    let col = 4 + 8;
    let row = 2;
    d.app.mouse_down(col, row, false, false);
    d.app.mouse_up(col, row);
    d.app.now += 450;
    d.app.mouse_down(col, row, false, false);
    d.app.mouse_up(col, row);
    assert_eq!(
        d.buffer().selected_text().as_deref(),
        Some("world"),
        "a ~450ms gap should still count as a double-click"
    );
}

#[test]
fn phantom_drag_on_a_stationary_double_click_does_not_shrink_the_word_selection() {
    let mut d = one_file("hello world\n");
    let col = 4 + 8; // lands mid-word, inside "world"
    let row = 2;
    d.app.mouse_down(col, row, false, false);
    d.app.mouse_up(col, row);
    d.app.mouse_down(col, row, false, false); // the double-click
    d.app.editor_mouse_drag(col, row); // same-cell phantom drag before release
    d.app.mouse_up(col, row);
    assert_eq!(
        d.buffer().selected_text().as_deref(),
        Some("world"),
        "a same-cell drag must not shrink the double-click's word selection"
    );
}

#[test]
fn click_switches_tabs_and_positions_cursor() {
    let mut d = workspace();
    d.open(&at("notes.txt"));
    d.open(&at("src/main.rs"));
    assert_eq!(d.app.tabs.active, Some(1));
    tab_hits(&mut d, 2);
    d.app.editor_mouse_down(0, 0, false);
    assert_eq!(d.app.tabs.active, Some(0), "clicking tab 0 selects it");
    d.app.editor_mouse_up();
    d.app.editor_mouse_down(24, 0, false);
    assert_eq!(d.app.tabs.active, Some(1), "clicking tab 1 selects it");

    // Click into the body: row 3 (tab strip + path + view row 1: line 1).
    d.app.editor_mouse_down(20, 3, false);
    d.app.editor_mouse_up();
    let b = &d.app.tabs.editors[1];
    assert_eq!(b.cursor_row(), 1, "cursor moved to the clicked line");
    assert!(b.selection().is_none(), "a plain click leaves no selection");
}

#[test]
fn clicking_a_wrapped_tab_on_row_two_selects_it() {
    let mut d =
        Desk::with(&[("a.txt", ""), ("b.txt", ""), ("c.txt", ""), ("d.txt", "")], None);
    for name in ["a.txt", "b.txt", "c.txt", "d.txt"] {
        d.open(&at(name));
    }
    assert_eq!(d.app.tabs.active, Some(3));
    // Three tabs fit on a row, so the fourth wraps.
    tab_hits(&mut d, 3);
    d.app.layout.tab_strip = Some(Rect { x: 0, y: 0, w: 80, h: 2 });
    d.app.layout.tab_hits.push(TabHit { row: 1, col_start: 0, col_end: 24, tab: 3 });
    d.app.tabs.active = Some(0);
    d.app.editor_mouse_down(0, 1, false);
    assert_eq!(d.app.tabs.active, Some(3), "clicking grid row 1 selects the wrapped tab");
}

#[test]
fn mouse_never_closes_a_tab_only_selects() {
    let mut d = workspace();
    d.open(&at("notes.txt"));
    d.open(&at("src/main.rs"));
    let open_count = d.app.tabs.editors.len();
    tab_hits(&mut d, 2);
    for col in 0..24 {
        d.app.editor_mouse_down(col, 0, false);
        assert_eq!(d.app.tabs.editors.len(), open_count, "clicking a tab never closes it");
    }
    assert_eq!(d.app.tabs.active, Some(0), "the last click selected tab 0");
}

#[test]
fn mouse_drag_selects_text() {
    let mut d = workspace();
    d.open(&at("src/main.rs")); // "fn main() {}\n"
    // Press at the start of line 0 (row 2), drag a few columns right.
    d.app.editor_mouse_down(4, 2, false); // the gutter is 4 columns
    d.app.editor_mouse_drag(8, 2);
    d.app.editor_mouse_up();
    let sel = d.app.tabs.editors[0].selected_text().expect("drag created a selection");
    assert_eq!(sel, "fn m");
}

#[test]
fn alt_click_drops_a_multi_cursor_caret() {
    let mut d = Desk::with(&[("two.txt", "abc\ndef\n")], None);
    d.open(&at("two.txt"));
    assert_eq!(d.app.tabs.editors[0].caret_count(), 1);
    // Plain click on line 0 places the single cursor there.
    d.app.editor_mouse_down(4, 2, false);
    assert_eq!(d.app.tabs.editors[0].cursor_row(), 0);
    assert_eq!(d.app.tabs.editors[0].caret_count(), 1);
    // Alt+click on line 1 (row 3) drops a second caret instead.
    d.app.editor_mouse_down(4, 3, true);
    let b = &d.app.tabs.editors[0];
    assert_eq!(b.caret_count(), 2, "alt+click adds a caret rather than replacing the cursor");
    assert_eq!(b.cursor_row(), 1, "the new caret is the primary, on the clicked line");
}

fn crumbs(d: &mut Desk) {
    d.app.layout.crumbs = vec![
        Crumb { from: 0, to: 2, folder: ROOT.to_string() },
        Crumb { from: 5, to: 8, folder: at("src") },
    ];
}

#[test]
fn breadcrumb_click_scopes_files_dialog_to_that_folder() {
    let mut d = workspace();
    d.open(&at("src/main.rs"));
    assert!(d.app.breadcrumb_row_shown());
    crumbs(&mut d);
    // Clicking the path (row 1, below the tab strip) on "src" opens the Files
    // dialog scoped to that folder.
    let step = d.app.editor_mouse_down(5, 1, false);
    d.follow(step);
    assert_eq!(d.app.top_dialog(), Some(Dialog::Files));
    assert_eq!(d.app.scope.as_deref(), Some(at("src").as_str()));
}

#[test]
fn breadcrumb_root_click_clears_scope() {
    let mut d = workspace();
    d.open(&at("src/main.rs"));
    crumbs(&mut d);
    let step = d.app.editor_mouse_down(0, 1, false);
    d.follow(step);
    assert!(d.app.scope.is_none(), "clicking the root segment clears any scope");
}

fn long_file() -> Desk {
    let long = (0..200).map(|i| format!("line {i}")).collect::<Vec<_>>().join("\n");
    let mut d = Desk::with(&[("long.txt", &long)], None);
    d.open(&at("long.txt"));
    d.app.layout.panes = vec![Pane { editor: 0, area: Rect { x: 0, y: 2, w: 79, h: 20 } }];
    d.app.layout.thumbs = vec![Thumb { editor: 0, top: 2, height: 2 }];
    d
}

#[test]
fn scrollbar_drag_scrolls_the_view() {
    let mut d = long_file();
    assert_eq!(d.app.tabs.editors[0].scroll_row, 0);
    // Grab the thumb and drag it down the track.
    d.app.editor_mouse_down(79, 2, false);
    let t = d.app.editor_mouse_drag(79, 2 + 15).expect("the thumb is dragged");
    assert_eq!((t.editor, t.top, t.track, t.max), (0, 15, 18, 180));
    let line = (t.top as f64 / t.track as f64 * t.max as f64).round() as usize;
    d.app.scroll_to(t, line);
    assert_eq!(d.app.tabs.editors[0].scroll_row, 150, "dragging the thumb down scrolls the view");
}

#[test]
fn scrollbar_track_click_pages_toward_the_click() {
    let mut d = long_file();
    // Click the track below the thumb: pages down without needing a drag.
    d.app.editor_mouse_down(79, 2 + 2 + 1, false);
    assert_eq!(d.app.tabs.editors[0].scroll_row, 19, "a page is the view less one row");
}

// ---- files that change on disk -----------------------------------------------

#[test]
fn external_change_reloads_clean_buffer() {
    let mut d = one_file("original\n");
    assert!(!d.app.tabs.editors[0].modified);
    d.write(&at("f.txt"), "rewritten by a command\n");
    d.poll_files();
    assert_eq!(d.app.tabs.editors[0].rope.to_string(), "rewritten by a command\n");
    assert!(!d.app.tabs.editors[0].modified, "auto-reloaded buffer stays clean");
    assert!(!d.app.prompt.active, "no prompt for a clean buffer");
}

#[test]
fn external_change_with_unsaved_edits_prompts_and_keeps() {
    let mut d = one_file("original\n");
    d.buffer().insert_str("MY EDIT\n");
    assert!(d.app.tabs.editors[0].modified);
    d.write(&at("f.txt"), "different on disk\n");
    d.poll_files();
    // Conflict: prompt; the buffer is NOT silently overwritten.
    assert_eq!(d.app.prompt.kind(), Some(PromptKind::ExternalChange));
    assert!(d.app.tabs.editors[0].rope.to_string().contains("MY EDIT"));
    // "Keep mine" closes the prompt and preserves edits.
    let (read, meta) = (d.read(&at("f.txt")), d.meta(&at("f.txt")));
    d.app.external_change_answer(false, read, meta);
    assert!(!d.app.prompt.active);
    assert!(d.app.tabs.editors[0].rope.to_string().contains("MY EDIT"));
    // And we don't re-prompt for the same change.
    d.poll_files();
    assert!(!d.app.prompt.active, "no repeat prompt after keep-mine");
}

#[test]
fn external_change_reload_answer_takes_disk_version() {
    let mut d = one_file("original\n");
    d.buffer().insert_str("MY EDIT\n");
    d.write(&at("f.txt"), "DISK VERSION\n");
    d.poll_files();
    let (read, meta) = (d.read(&at("f.txt")), d.meta(&at("f.txt")));
    d.app.external_change_answer(true, read, meta); // reload, discard edits
    assert_eq!(d.app.tabs.editors[0].rope.to_string(), "DISK VERSION\n");
    assert!(!d.app.tabs.editors[0].modified);
}

#[test]
fn external_delete_flags_buffer_modified() {
    let mut d = one_file("keep me\n");
    d.files.remove(&at("f.txt"));
    d.poll_files();
    assert!(d.app.tabs.editors[0].modified, "deleted file -> dirty so save restores");
    assert!(d.app.tabs.editors[0].rope.to_string().contains("keep me"));
    // We reported it once; a second poll must not re-flag endlessly.
    d.poll_files();
    assert!(!d.app.prompt.active);
}

#[test]
fn own_save_is_not_seen_as_external_change() {
    let mut d = one_file("original\n");
    d.buffer().insert_str("mine\n");
    let outcome = d.save_file(0);
    d.app.save_active(outcome);
    assert!(!d.app.tabs.editors[0].modified);
    d.poll_files();
    assert!(!d.app.prompt.active, "own save isn't an external change");
    assert!(d.app.tabs.editors[0].rope.to_string().contains("mine"));
}

// ---- colours ------------------------------------------------------------------

/// Each line in one piece, without a colour or with one.
fn lines(text: &str, style: u32) -> Vec<Vec<Span>> {
    text.split('\n').map(|l| vec![Span { text: l.to_string(), style }]).collect()
}

fn shown(lines: &[Vec<Span>]) -> Vec<(String, u32)> {
    lines.iter().map(|l| (l.iter().map(|s| s.text.as_str()).collect(), l[0].style)).collect()
}

#[test]
fn highlight_cache_recomputes_on_edit() {
    let mut d = workspace();
    d.open(&at("src/main.rs"));
    assert_eq!(d.app.highlighted_for(0), Some(Showing::WorkOutNow));
    let text = d.buffer().rope.to_string();
    d.app.keep_colours(0, lines(&text, 7));
    assert_eq!(d.app.highlighted_for(0), Some(Showing::Ready));
    d.buffer().insert_str("\n// more\n");
    assert_eq!(d.app.highlighted_for(0), Some(Showing::Patch { begin: true }));
    assert_eq!(d.app.highlighted_for(0), Some(Showing::Patch { begin: false }), "once begun");
    let now = d.buffer().rope.to_string();
    let patched = d.app.patched_colours(0, &lines(&now, 0));
    assert!(patched.len() > lines(&text, 0).len());
    assert_eq!(d.app.highlighted_for(9), None);
}

#[test]
fn editing_a_highlighted_buffer_shows_text_instantly_then_recolors() {
    let mut d = workspace();
    d.open(&at("src/main.rs"));
    let text = d.buffer().rope.to_string();
    d.app.keep_colours(0, lines(&text, 7));
    d.buffer().insert_str("XYZZY");
    let now = d.buffer().rope.to_string();
    let patched = d.app.patched_colours(0, &lines(&now, 0));
    assert!(shown(&patched).iter().any(|(t, _)| t.contains("XYZZY")), "typed text shows at once");

    // The colours catch up in the background.
    let (id, rev) = (d.buffer().id, d.buffer().revision());
    d.app.highlighted_for(0);
    d.app.adopt_colours(id, rev + 1, lines(&now, 5));
    assert_eq!(
        d.app.highlighted_for(0),
        Some(Showing::Patch { begin: false }),
        "colours of another text are dropped"
    );
    d.app.adopt_colours(id, rev, lines(&now, 5));
    assert_eq!(d.app.highlighted_for(0), Some(Showing::Ready));
}

#[test]
fn editing_one_line_keeps_other_lines_colored_while_pending() {
    let text = "fn one() {}\nfn two() {}\nfn three() {}\n";
    let mut d = Desk::with(&[("src/main.rs", text)], None);
    d.open(&at("src/main.rs"));
    d.app.keep_colours(0, lines(text, 7));
    d.buffer().cursor = "fn one() {}\nfn ".len();
    d.buffer().insert_str("X");
    let now = d.buffer().rope.to_string();
    let patched = shown(&d.app.patched_colours(0, &lines(&now, 0)));
    assert_eq!(patched.len(), 4);
    assert_eq!(patched[0], ("fn one() {}".to_string(), 7));
    assert_eq!(patched[1], ("fn Xtwo() {}".to_string(), 0));
    assert_eq!(patched[2], ("fn three() {}".to_string(), 7));
}

// ---- odds and ends ---------------------------------------------------------------

#[test]
fn cutting_and_pasting_moves_the_text() {
    let mut d = one_file("hello world");
    d.buffer().select_range(0, 6);
    d.app.cut_selection();
    assert_eq!(d.buffer().rope.to_string(), "world");
    assert_eq!(d.app.clipboard_text, "hello ");
    assert_eq!(d.app.toast.as_ref().map(|t| t.message.as_str()), Some("Cut 6 chars"));
    d.buffer().move_doc_end();
    d.app.paste(None);
    assert_eq!(d.buffer().rope.to_string(), "worldhello ");
    // What another program copied meanwhile wins.
    d.app.paste(Some("!".to_string()));
    assert_eq!(d.buffer().rope.to_string(), "worldhello !");
}

#[test]
fn undo_with_nothing_to_undo_says_so() {
    let mut d = one_file("x");
    d.app.undo();
    assert_eq!(d.app.toast.as_ref().map(|t| t.message.as_str()), Some("Nothing to undo"));
    d.app.redo();
    assert_eq!(d.app.toast.as_ref().map(|t| t.message.as_str()), Some("Nothing to redo"));
}

#[test]
fn a_notice_goes_after_a_while() {
    let mut app = blank_app(None);
    app.notify("hi".to_string(), ToastKind::Info);
    app.expire_toast();
    assert!(app.toast.is_some());
    app.now += 60_000;
    app.expire_toast();
    assert!(app.toast.is_none());
}

#[test]
fn the_branch_is_read_from_git() {
    let mut d = workspace();
    assert!(d.app.git_due(), "at the start it is due");
    assert!(!d.app.git_due());
    d.app.poll_git(Some("## main...origin/main\n M src/main.rs\n"));
    assert_eq!(d.app.git_branch, Some(("main".to_string(), true)));
    d.app.poll_git(Some("## main\n"));
    assert_eq!(d.app.git_branch, Some(("main".to_string(), false)));
    d.app.poll_git(None);
    assert_eq!(d.app.git_branch, None);
    assert!(d.app.memory_due());
    d.app.poll_memory(Some(1024));
    assert_eq!(d.app.memory_kb, Some(1024));
}

#[test]
fn checks_are_due_at_once_at_any_time() {
    let mut app = App::new(
        None,
        no_files(),
        &Config::default(),
        Theme { accent: Rgb(76, 175, 80) },
        palette(),
        0,
    );
    assert!(app.memory_due() && app.git_due(), "never made, so due");
    assert!(!app.files_due(), "the files were just read");
    app.recheck_files_soon();
    assert!(app.files_due());
    assert!(!app.files_due() && !app.memory_due() && !app.git_due());
    app.now = 799;
    assert!(!app.files_due());
    app.now = 800;
    assert!(app.files_due());
    app.now = 1000;
    app.switch_root(ROOT.to_string(), no_files());
    assert!(app.git_due(), "another folder, another branch");
}

#[test]
fn a_window_that_did_not_start_is_not_announced() {
    let mut app = blank_app(Some(ROOT));
    assert!(!app.open_picked_folder());
    app.opened_elsewhere(false);
    assert!(app.toast.is_none());
    app.opened_elsewhere(true);
    assert_eq!(app.toast.map(|t| t.message), Some("Opened in a new window".to_string()));
}

#[test]
fn the_glyphs_follow_the_configured_set() {
    let with = |name: &str| Config { icons: Some(name.to_string()), ..Config::default() };
    let app = start(None, no_files(), &with("ascii"));
    assert_eq!((app.icons.folder_closed, app.icons.search), ("+", "/"));
    let mut app = start(None, no_files(), &Config::default());
    assert_eq!((app.icons.folder_closed, app.icons.file_default), ("\u{f07b}", "\u{f15b}"));
    app.ensure_terminal_icons(FontInstall::Failed);
    assert_eq!(app.icons.mode, IconMode::Unicode);
    assert_eq!((app.icons.folder_closed, app.icons.file_default), ("", ""));
}

#[test]
fn requests_for_terminals_are_read_line_by_line() {
    let mut d = workspace();
    assert_eq!(d.app.requests_from(20), Some(0));
    let cmds = d.app.poll_terminal_requests("make run\n\n  ls -l \nhalf");
    assert_eq!(cmds, vec!["make run".to_string(), "ls -l".to_string()]);
    assert_eq!(d.app.request_offset, 19);
    assert_eq!(d.app.requests_from(19), None, "nothing new");
    assert_eq!(d.app.requests_from(5), Some(0), "the file was started over");
}

#[test]
fn the_caret_blinks_and_shows_after_a_move() {
    let mut d = one_file("abc");
    assert!(d.app.cursor_blink_on());
    d.app.now += 600;
    assert!(!d.app.cursor_blink_on(), "the dark half");
    d.buffer().move_right();
    assert!(d.app.cursor_blink_on(), "a caret that moved shows");
    assert_eq!(App::blink_poll_interval(), 250);
}

#[test]
fn the_session_is_what_is_open() {
    let mut d = workspace();
    d.open(&at("notes.txt"));
    d.open(&at("src/main.rs"));
    let (root, files, active) = d.app.save_session().expect("there is something to keep");
    assert_eq!(root, ROOT);
    assert_eq!(files, vec![at("notes.txt"), at("src/main.rs")]);
    assert_eq!(active, 1);
    d.app.restore_session(0);
    assert_eq!(d.app.tabs.active, Some(0));
}

#[test]
fn a_dragged_tab_goes_along() {
    let mut d = workspace();
    d.open(&at("notes.txt"));
    d.open(&at("src/main.rs"));
    tab_hits(&mut d, 2);
    d.app.mouse_down(30, 0, false, false);
    d.app.mouse_drag(3, 0);
    assert_eq!(d.app.tabs.editors[0].name(), "main.rs");
    assert_eq!(d.app.tabs.active, Some(0));
    d.app.mouse_up(3, 0);
    assert_eq!(d.app.pointer.tab_drag, None);
}

#[test]
fn a_failed_move_is_told() {
    let mut d = workspace();
    let found = d.found();
    d.app.entry_moved(&at("src"), Some("denied".to_string()), &found);
    assert_eq!(d.app.toast.as_ref().map(|t| t.message.as_str()), Some("Move failed: denied"));
}

#[test]
fn a_file_that_cannot_be_read_is_told() {
    let mut d = workspace();
    d.open(&at("missing.txt"));
    assert!(d.app.tabs.editors.is_empty());
    let told = format!("{} {}", d.app.status, d.app.toast.as_ref().map_or("", |t| &t.message));
    assert!(told.contains("no such file"), "{told}");
}

#[test]
fn asking_for_a_folder_is_taken_once() {
    let mut app = blank_app(None);
    app.request_open_folder();
    assert!(app.take_open_folder_request());
    assert!(!app.take_open_folder_request());
}

#[test]
fn backspace_in_the_find_bar_searches_again() {
    let mut d = one_file("aab ab");
    find_for(&mut d, "aab");
    assert_eq!(d.app.find.matches, vec![(0, 3)]);
    d.app.find_backspace();
    assert_eq!(d.app.find.query, "aa");
    assert_eq!(d.app.find.matches, vec![(0, 2)]);
    d.app.replace_input('x');
    d.app.replace_input('y');
    d.app.replace_backspace();
    assert_eq!(d.app.find.replace, "x");
}

#[test]
fn backspace_in_the_project_search_waits_again() {
    let mut d = one_file("a");
    d.app.open_search_files();
    d.app.search_files_input('a');
    d.app.search_files_input('b');
    d.app.search_files_backspace();
    assert_eq!(d.app.search.query, "a");
    assert!(!d.app.poll_pending_search());
    d.app.now += 250;
    assert!(d.app.poll_pending_search());
}

#[test]
fn a_crumb_without_a_folder_is_told() {
    let mut app = blank_app(None);
    assert!(matches!(app.breadcrumb_click("/x"), BrowseStep::Nothing));
    assert!(app.toast.unwrap().message.starts_with("Open a folder first"));
    assert!(app.scope.is_none() && app.dialogs.is_empty());
}

#[test]
fn a_toggled_dialog_says_what_it_needs() {
    let mut app = blank_app(Some(ROOT));
    assert_eq!(app.toggle_dialog(Dialog::Recent), Needs::Recents);
    assert_eq!(app.toggle_dialog(Dialog::Terminal), Needs::Terminal);
    assert_eq!(app.toggle_dialog(Dialog::Recent), Needs::Nothing, "it is raised");
    assert_eq!(app.toggle_dialog(Dialog::Recent), Needs::Nothing, "it is closed");
    assert_eq!(app.dialogs, vec![Dialog::Terminal]);
}

#[test]
fn a_file_named_in_two_ways_has_one_tab() {
    let mut d = workspace();
    d.open(&at("notes.txt"));
    d.open(&at("src/main.rs"));
    d.open(&at("/notes.txt"));
    assert_eq!(d.app.tabs.editors.len(), 2, "a doubled slash makes no other file");
    assert_eq!(d.app.tabs.active, Some(0));
    assert_eq!(d.app.tabs.recent_files, vec![at("/notes.txt"), at("src/main.rs")]);
    assert_eq!(d.app.tabs.recent_rank(&at("./notes.txt")), Some(0));
    d.app.close_tab();
    d.open(&at("notes.txt"));
    d.app.close_tab();
    assert_eq!(d.app.tabs.closed, vec![at("notes.txt")], "and is remembered once");
}

#[test]
fn the_open_folder_is_told_by_its_parts() {
    let mut d = workspace();
    d.open_dialog();
    d.app.tree.entries[0].path = format!("{ROOT}/");
    d.app.dialog_rename();
    assert_eq!(d.app.status, "Can't rename the root folder");
    assert!(!d.app.prompt.active);
    let step = d.app.dialog_tab();
    assert!(matches!(step, BrowseStep::Nothing), "it shows already");
    assert!(d.app.scope.is_none());
    d.app.breadcrumb_click("/work//ws/.");
    assert!(d.app.scope.is_none(), "no limit to the open folder itself");
    d.app.copy_path("/work/ws//src//main.rs", true);
    assert_eq!(d.app.clipboard_text, "src//main.rs");
}

#[test]
fn dropping_something_where_it_is_does_nothing() {
    let step = oxru::app::mouse::move_step("/a//b.txt", "/a/");
    assert!(matches!(step, BrowseStep::Nothing));
    match oxru::app::mouse::move_step("/a//b.txt", "/c") {
        BrowseStep::Move { from, to, dir } => {
            assert_eq!((from.as_str(), to.as_str(), dir.as_str()), ("/a//b.txt", "/c/b.txt", "/c"));
        }
        other => panic!("{other:?}"),
    }
}

#[test]
fn a_tab_that_moves_is_coloured_anew() {
    let mut d = workspace();
    d.open(&at("notes.txt"));
    d.open(&at("src/main.rs"));
    let keep = |d: &mut Desk| {
        for i in 0..2 {
            let text = d.app.tabs.editors[i].rope.to_string();
            d.app.keep_colours(i, lines(&text, 7));
        }
    };
    keep(&mut d);
    d.app.move_tab_right();
    assert_eq!(d.app.highlighted_for(1), Some(Showing::Ready), "there was no room");
    d.app.move_tab_left();
    assert_eq!(d.app.tabs.active, Some(0));
    assert_eq!(d.app.highlighted_for(0), Some(Showing::WorkOutNow));
    keep(&mut d);
    d.app.move_tab_right();
    assert_eq!(d.app.highlighted_for(0), Some(Showing::WorkOutNow));
    keep(&mut d);
    tab_hits(&mut d, 2);
    d.app.mouse_down(30, 0, false, false);
    d.app.mouse_drag(3, 0);
    assert_eq!(d.app.tabs.active, Some(0));
    assert_eq!(d.app.highlighted_for(1), Some(Showing::WorkOutNow));
}

#[test]
fn every_rebuilt_list_counts_as_another() {
    let mut d = workspace();
    assert_eq!(d.app.entries.rev, 0);
    d.open_dialog();
    assert_eq!(d.app.entries.rev, 1);
    d.app.entries.rev = u64::MAX;
    d.query("notes");
    let files = d.folder(ROOT);
    d.app.rebuild_dialog_entries(&files.walk, &files.heeding_walk);
    assert_eq!(d.app.entries.rev, 0, "the numbers go round");
    d.query("main");
    assert_eq!(d.app.file_dialog.matches.len(), 1);
    let mut app = blank_app(None);
    app.rebuild_dialog_entries(&files.walk, &files.heeding_walk);
    assert_eq!(app.entries.rev, 0, "without a folder there is nothing to rebuild");
}
