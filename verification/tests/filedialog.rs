use oxru::filedialog::{can_score, cmp_recent, fuzzy_positions, fuzzy_score, FileDialog};

fn entries(list: &[&str]) -> Vec<String> {
    list.iter().map(|s| s.to_string()).collect()
}

#[test]
fn positions_cover_the_match() {
    // Highlights land on the matched characters (filename-first).
    let pos = fuzzy_positions("man", "src/domain.rs");
    assert!(!pos.is_empty());
    // The chars at those indices spell a supersequence of the query.
    let text: Vec<char> = "src/domain.rs".chars().collect();
    let hit: String = pos.iter().map(|&i| text[i]).collect();
    assert_eq!(hit, "man");
    // No match -> no highlights.
    assert!(fuzzy_positions("zzz", "src/domain.rs").is_empty());
    assert!(fuzzy_positions("", "anything").is_empty());
}

#[test]
fn filename_match_ranks_above_path_only_match() {
    let mut d = FileDialog::default();
    d.query = "main".to_string();
    d.refilter(
        &entries(&[
            "main/lib.rs", // "main" only in the path
            "src/main.rs", // "main" in the filename: should win
        ]),
        0,
        &vec![],
    );
    assert_eq!(d.selected_source(), Some(1));
}

#[test]
fn non_matches_are_filtered_out() {
    let mut d = FileDialog::default();
    d.query = "xyz".to_string();
    d.refilter(&entries(&["main.rs", "lib.rs"]), 0, &vec![]);
    assert!(d.matches.is_empty());
}

#[test]
fn path_scatter_noise_is_excluded() {
    // A plain query must NOT match characters scattered across deep folder
    // names, only the filename.
    let entries = entries(&[
        "server_nestjs/src/sessions/create-session.dto.ts",
        "thrive_shared/lib/src/widgets/app_button.dart",
        "thrive_shared/lib/src/constants/colors.dart",
    ]);
    let mut d = FileDialog::default();
    d.query = "sess dto".to_string();
    d.refilter(&entries, 0, &vec![]);
    assert_eq!(d.matches.len(), 1, "only the real filename match survives");
    assert_eq!(entries[d.matches[0]], "server_nestjs/src/sessions/create-session.dto.ts");
}

#[test]
fn slash_query_matches_the_path() {
    // Typing a '/' opts into path matching (narrow by folder).
    let entries = entries(&["src/components/Button.tsx", "src/widgets/Button.tsx"]);
    let mut d = FileDialog::default();
    d.query = "comp/button".to_string();
    d.refilter(&entries, 0, &vec![]);
    assert_eq!(d.matches.len(), 1);
    assert_eq!(entries[d.matches[0]], "src/components/Button.tsx");
}

#[test]
fn boundary_matches_rank_above_mid_word() {
    let entries = entries(&[
        "src/app.rs",
        "src/wrapper.rs",
        "src/mapper.rs",
        "lib/application.ts",
        "lib/happy_path.ts",
        "components/AppBar.tsx",
    ]);
    let mut d = FileDialog::default();
    d.query = "app".to_string();
    d.refilter(&entries, 0, &vec![]);
    let shown: Vec<&str> = d.matches.iter().map(|&i| entries[i].as_str()).collect();
    let pos = |s: &str| shown.iter().position(|&x| x == s).expect("file is listed");
    // The boundary matches are present and each ranks ahead of every mid-word one.
    for boundary in ["src/app.rs", "lib/application.ts", "components/AppBar.tsx"] {
        for mid in ["src/wrapper.rs", "src/mapper.rs", "lib/happy_path.ts"] {
            assert!(pos(boundary) < pos(mid), "{boundary} should rank above {mid}");
        }
    }
}

#[test]
fn camelcase_hump_ranks_above_mid_word() {
    let entries = entries(&["AppBar.tsx", "crowbar.rs", "bar.rs"]);
    let mut d = FileDialog::default();
    d.query = "bar".to_string();
    d.refilter(&entries, 0, &vec![]);
    let shown: Vec<&str> = d.matches.iter().map(|&i| entries[i].as_str()).collect();
    let pos = |s: &str| shown.iter().position(|&x| x == s).expect("file is listed");
    assert!(pos("bar.rs") < pos("crowbar.rs"));
    assert!(pos("AppBar.tsx") < pos("crowbar.rs"));
}

#[test]
fn recent_file_ranks_first() {
    let entries = entries(&["src/user.rs", "src/user_service.rs", "src/user_controller.rs"]);

    // No recency: best name match (user.rs) is first.
    let mut d = FileDialog::default();
    d.query = "user".to_string();
    d.refilter(&entries, 0, &vec![]);
    assert_eq!(entries[d.matches[0]], "src/user.rs");

    // Mark user_service.rs (index 1) most-recently-used: it jumps to the top,
    // even though user.rs is a "better" name match.
    let recent = vec![None, Some(0), None];
    let mut d = FileDialog::default();
    d.query = "user".to_string();
    d.refilter(&entries, 0, &recent);
    assert_eq!(entries[d.matches[0]], "src/user_service.rs");
}

#[test]
fn prefix_beats_mid_name_beats_path() {
    let entries = entries(&["window.ts", "windowActions.ts", "lib/createWindow.ts"]);
    let mut d = FileDialog::default();
    d.query = "window".to_string();
    d.refilter(&entries, 0, &vec![]);
    let order: Vec<&str> = d.matches.iter().map(|&i| entries[i].as_str()).collect();
    assert_eq!(order, vec!["window.ts", "windowActions.ts", "lib/createWindow.ts"]);
}

#[test]
fn nav_wraps_both_directions() {
    let mut d = FileDialog::default();
    d.matches = vec![0, 1, 2];
    d.selected = 0;
    d.move_up(); // up from the top wraps to the bottom
    assert_eq!(d.selected, 2);
    d.move_down(); // down from the bottom wraps to the top
    assert_eq!(d.selected, 0);
    d.move_down();
    assert_eq!(d.selected, 1);
    d.move_up();
    assert_eq!(d.selected, 0);
}

#[test]
fn ranks_best_first() {
    let mut d = FileDialog::default();
    d.query = "main".to_string();
    d.refilter(&entries(&["lib.rs", "domain.rs", "main.rs"]), 0, &vec![]);
    // Exact filename "main.rs" ranks above "domain.rs".
    assert_eq!(d.selected_source(), Some(2));
}

#[test]
fn vscode_constants_ordering() {
    let entries = entries(&[
        "thrive_shared/lib/src/constants/colors.dart", // folder-only: excluded
        "trainer_flutter/lib/config/constants.dart", // filename
        "thrive_shared/lib/src/constants/app_constants.dart", // filename (mid)
        "client_flutter/lib/config/constants.dart", // filename, shorter path
        "thrive_shared/lib/src/constants/text_styles.dart", // folder-only: excluded
    ]);
    let mut d = FileDialog::default();
    d.query = "constants".to_string();
    d.refilter(&entries, 0, &vec![]);
    let order: Vec<&str> = d.matches.iter().map(|&i| entries[i].as_str()).collect();
    assert_eq!(
        order,
        vec![
            "client_flutter/lib/config/constants.dart",
            "trainer_flutter/lib/config/constants.dart",
            "thrive_shared/lib/src/constants/app_constants.dart",
        ],
        "only filename matches, best/closest first; folder-only files excluded"
    );
}

#[test]
fn prepared_cache_reused_until_entries_rev_changes() {
    let list = entries(&["src/main.rs", "src/lib.rs"]);
    let mut d = FileDialog::default();

    d.query = "main".to_string();
    d.refilter(&list, 7, &vec![]);
    assert_eq!(d.prepared.len(), 2);
    assert_eq!(d.prepared_rev, 7);

    // Same rev, different query: cache must not be touched (same len/rev).
    d.query = "lib".to_string();
    d.refilter(&list, 7, &vec![]);
    assert_eq!(d.prepared_rev, 7);
    assert_eq!(list[d.matches[0]], "src/lib.rs");

    // A bumped rev (the entry list was actually rebuilt) must rebuild it.
    let longer = entries(&["src/main.rs", "src/lib.rs", "src/new.rs"]);
    d.refilter(&longer, 8, &vec![]);
    assert_eq!(d.prepared_rev, 8);
    assert_eq!(d.prepared.len(), 3);
}

#[test]
fn an_empty_query_lists_recent_files_first() {
    let list = entries(&["a.rs", "b.rs", "c.rs", "d.rs"]);
    let mut d = FileDialog::default();
    d.selected = 9;
    d.refilter(&list, 1, &vec![None, Some(1), None, Some(0)]);
    assert_eq!(d.matches, vec![3, 1, 0, 2]);
    assert_eq!(d.selected, 3, "a selection past the end is pulled in");
}

#[test]
fn case_does_not_matter_to_a_match() {
    let (lower, covered) = fuzzy_score("readme", "README.md").expect("matches");
    assert_eq!(covered, vec![0, 1, 2, 3, 4, 5]);
    let (upper, _) = fuzzy_score("README", "README.md").expect("matches");
    assert!(upper >= lower);
    assert_eq!(fuzzy_score("", "anything"), Some((0, vec![])));
    assert_eq!(fuzzy_score("zz", "README.md"), None);
    assert_eq!(fuzzy_positions("\u{e9}t", "\u{c9}T.txt"), vec![0, 1]);
}

#[test]
fn ticks_survive_a_new_query() {
    let list = entries(&["a.rs", "b.rs"]);
    let mut d = FileDialog::default();
    d.open();
    assert!(d.active);
    d.toggle_check(1);
    d.query = "a".to_string();
    d.refilter(&list, 1, &vec![]);
    assert!(d.checked.contains(&1));
    d.toggle_check(1);
    assert!(!d.checked.contains(&1));
}

#[test]
fn a_query_that_can_be_scored_says_so() {
    assert!(can_score("main", "src/main.rs"));
}

#[test]
fn recent_files_come_before_others() {
    assert_eq!(cmp_recent(Some(0), Some(1)), std::cmp::Ordering::Less);
    assert_eq!(cmp_recent(Some(5), None), std::cmp::Ordering::Less);
    assert_eq!(cmp_recent(None, Some(5)), std::cmp::Ordering::Greater);
    assert_eq!(cmp_recent(None, None), std::cmp::Ordering::Equal);
}

#[test]
fn a_prefix_beats_a_recent_match_in_the_middle() {
    let entries: Vec<String> = vec!["crowbar.rs".to_string(), "bar.rs".to_string()];
    let mut d = FileDialog::default();
    d.query = "bar".to_string();
    d.refilter(&entries, 1, &vec![Some(0), None]);
    assert_eq!(d.matches, vec![1, 0]);
}

#[test]
fn what_is_covered_spells_the_query() {
    let pos = fuzzy_positions("srs", "src/domain.rs");
    let text: Vec<char> = "src/domain.rs".chars().collect();
    let hit: String = pos.iter().map(|i| text[*i]).collect();
    assert_eq!(hit, "srs");
}

#[test]
fn an_empty_list_goes_nowhere() {
    let mut d = FileDialog::default();
    d.selected = usize::MAX;
    d.move_down();
    assert_eq!(d.selected, usize::MAX);
    d.move_up();
    assert_eq!(d.selected, usize::MAX);
}

#[test]
fn positions_are_those_of_the_score() {
    for (q, t) in [("man", "src/domain.rs"), ("dm", "src/domain.rs"), ("zz", "a/b"), ("", "a/b")] {
        let scored = fuzzy_score(q, t).map_or(Vec::new(), |(_, p)| p);
        assert_eq!(fuzzy_positions(q, t), scored, "{q}");
    }
}
