use ignore::gitignore::{Gitignore, GitignoreBuilder};
use oxru::fstree::collect::{collect_files, collect_files_marked};
use oxru::fstree::{is_hidden, is_junk, walks_into, FileTree, Filter};

const ROOT: &str = "/proj";

fn names(list: &[(&str, bool)]) -> Vec<(String, bool)> {
    list.iter().map(|(n, d)| (n.to_string(), *d)).collect()
}

fn rules(lines: &[&str]) -> Gitignore {
    let mut b = GitignoreBuilder::new(ROOT);
    for l in lines {
        b.add_line(None, l).unwrap();
    }
    b.build().unwrap()
}

fn tree() -> FileTree {
    FileTree::new(
        ROOT.to_string(),
        &names(&[("README.md", false), ("target", true), ("src", true), (".git", true)]),
        Filter { rules: None },
    )
}

fn shown(t: &FileTree) -> Vec<&str> {
    t.entries.iter().map(|e| e.name.as_str()).collect()
}

#[test]
fn lists_root_and_shows_build_dirs_in_tree() {
    let tree = tree();
    let names = shown(&tree);
    assert!(names.contains(&"src"));
    assert!(names.contains(&"README.md"));
    // Heavy build dirs are SHOWN in the tree: they're only pruned from search.
    // (.git etc. stay hidden; "target" is not.)
    assert!(names.contains(&"target"), "build dirs are browsable in the tree");
    assert!(!names.contains(&".git"));
    // Entry 0 is the expanded root folder; its contents start at depth 1.
    assert_eq!(tree.entries[0].depth, 0);
    assert!(tree.entries[0].is_dir && tree.entries[0].expanded);
    assert_eq!(tree.entries[1].name, "src"); // dir sorts before file
    assert_eq!(tree.entries[1].depth, 1);
}

#[test]
fn expand_and_collapse() {
    let mut tree = tree();
    // Select "src" (index 1, under the root node at index 0).
    tree.selected = tree.entries.iter().position(|e| e.name == "src").unwrap();
    assert_eq!(tree.folder_to_open().as_deref(), Some("/proj/src"));
    tree.expand_selected(&names(&[("main.rs", false), ("lib.rs", false)]));
    assert!(shown(&tree).contains(&"main.rs"));
    assert!(shown(&tree).contains(&"lib.rs"));
    // src's children sit one level deeper.
    let src_idx = tree.selected;
    assert_eq!(tree.entries[src_idx + 1].depth, 2);
    // Collapse removes them again.
    tree.collapse_selected();
    assert!(!shown(&tree).contains(&"main.rs"));
}

#[test]
fn a_refresh_keeps_the_open_folders_open() {
    let mut t = tree();
    t.selected = 1;
    t.expand_selected(&names(&[("main.rs", false)]));
    t.refresh(
        &names(&[("src", true), ("new.txt", false)]),
        &vec![("/proj/src".to_string(), names(&[("main.rs", false), ("fresh.rs", false)]))],
    );
    assert_eq!(shown(&t), vec!["proj", "src", "fresh.rs", "main.rs", "new.txt"]);
}

#[test]
fn gitignored_entry_shows_dimmed_in_tree() {
    let t = FileTree::new(
        ROOT.to_string(),
        &names(&[(".env", false), ("main.rs", false), ("private", true)]),
        Filter { rules: Some(rules(&[".env", "private/"])) },
    );
    let find = |n: &str| t.entries.iter().find(|e| e.name == n).unwrap();
    assert!(find(".env").ignored, ".env is flagged ignored (dimmed)");
    assert!(!find("main.rs").ignored, "tracked file not flagged");
    assert!(find("private").ignored, "an ignored folder is flagged");
}

#[test]
fn what_lies_in_an_ignored_folder_is_ignored() {
    let f = Filter { rules: Some(rules(&["private/"])) };
    assert!(f.ignored("private/out.dat", false));
    assert!(!f.ignored("private", false), "a file of that name is not the folder");
    assert!(!f.ignored("keep.rs", false));
    assert!(!Filter { rules: None }.ignored("private", true));
}

fn walk(list: &[&str]) -> Vec<(String, bool)> {
    list.iter().map(|p| (p.to_string(), true)).collect()
}

#[test]
fn gitignored_files_show_but_are_flagged() {
    let all = walk(&["/proj/secret.txt", "/proj/keep.rs", "/proj/private/out.dat"]);
    let heeding = walk(&["/proj/keep.rs"]);
    let (files, cut) = collect_files(&all);
    assert!(files.iter().any(|p| p.ends_with("keep.rs")));
    assert!(files.iter().any(|p| p.ends_with("secret.txt")), "gitignored file is findable");
    assert!(!cut);

    let marked = collect_files_marked(&all, &heeding);
    let ig = |needle: &str| marked.iter().find(|(p, _)| p.ends_with(needle)).map(|(_, b)| *b);
    assert_eq!(ig("keep.rs"), Some(false), "tracked file not flagged");
    assert_eq!(ig("secret.txt"), Some(true), "gitignored file flagged");
    assert_eq!(ig("private/out.dat"), Some(true), "file under gitignored dir flagged");
}

#[test]
fn files_are_sorted_by_their_parts_and_folders_left_out() {
    let mut w = walk(&["/p/b.rs", "/p/a-z/x", "/p/a/x"]);
    w.push(("/p/a".to_string(), false));
    let (files, _) = collect_files(&w);
    assert_eq!(files, vec!["/p/a/x", "/p/a-z/x", "/p/b.rs"]);
}

#[test]
fn prunes_universal_junk_dirs_from_search() {
    for d in ["node_modules", "dist", "build", ".next", ".dart_tool", "target"] {
        assert!(is_junk(d));
        assert!(!walks_into(d, false), "{d}/ should be pruned from search by default");
        assert!(walks_into(d, true), "{d}/ should appear in search when junk is toggled on");
    }
    assert!(walks_into("src", false));
    assert!(is_hidden(".git") && !walks_into(".git", true));
    assert!(walks_into(".env", false), "dotfiles are findable");
}

#[test]
fn moving_in_the_tree_goes_round() {
    let mut t = tree();
    t.move_up();
    assert_eq!(t.selected, t.entries.len() - 1);
    t.move_down();
    assert_eq!(t.selected, 0);
    assert_eq!(t.selected().map(|(p, d)| (p, d)), Some((ROOT.to_string(), true)));
}

#[test]
fn a_folder_opens_and_closes_again() {
    let mut t = tree();
    let rows = t.entries.len();
    t.selected = t.entries.iter().position(|e| e.is_dir && e.depth == 1).unwrap();
    let inside = vec![("deep.rs".to_string(), false)];
    t.toggle_tree_selected(&inside);
    assert_eq!(t.entries.len(), rows + 1);
    assert_eq!(t.entries[t.selected + 1].name, "deep.rs");
    t.toggle_tree_selected(&inside);
    assert_eq!(t.entries.len(), rows);
}

#[test]
fn asking_for_the_junk_only_adds() {
    let paths = ["src/a.rs", "target/b.rs", ".git/c", "src/build/d", ".env"];
    let walk = |junk: bool| -> Vec<(String, bool)> {
        paths
            .iter()
            .filter(|p| p.split('/').all(|n| walks_into(n, junk)))
            .map(|p| (format!("{ROOT}/{p}"), true))
            .collect()
    };
    let (few, _) = collect_files(&walk(false));
    let (all, _) = collect_files(&walk(true));
    assert_eq!(few, vec![format!("{ROOT}/.env"), format!("{ROOT}/src/a.rs")]);
    assert_eq!(all.len(), 4);
    assert!(few.iter().all(|p| all.contains(p)));
    assert!(!all.iter().any(|p| p.contains(".git/")));
    let marked = collect_files_marked(&walk(true), &walk(false));
    let plain: Vec<String> = marked.iter().map(|(p, _)| p.clone()).collect();
    assert_eq!(plain, all);
    assert!(marked.iter().all(|(p, ignored)| *ignored != few.contains(p)));
}
