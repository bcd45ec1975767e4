use kura::app::{copy_selection, paste, App};
use kura::transition::InputState;
use kura::viewer::{count_lines, max_offset_exec};
use kura::listing::{sort_entries, Entry, SortBy};
use kura::mode::{Action, Key, Mode, PaneType};
use kura::pane::{apply_sort, find_match, find_match_folded, is_image, is_image_extension, toggle_mark, Pane};

fn entry(dir: &str, name: &str, size: u64, is_dir: bool) -> Entry {
    Entry {
        name: name.to_string(),
        path: format!("{}/{}", dir, name),
        is_dir,
        size,
        modified: 0,
        created: 0,
        executable: false,
    }
}

fn timed(name: &str, modified: i128, created: i128) -> Entry {
    Entry {
        name: name.to_string(),
        path: format!("/t/{}", name),
        is_dir: false,
        size: 0,
        modified,
        created,
        executable: false,
    }
}

fn names(items: &[Entry]) -> Vec<String> {
    items.iter().map(|e| e.name.clone()).collect()
}

fn listing(dir: &str, spec: &[(&str, u64, bool)]) -> Vec<Entry> {
    spec.iter().map(|(n, s, d)| entry(dir, n, *s, *d)).collect()
}

fn session(left: Vec<Entry>, right: Vec<Entry>) -> App {
    let mut app = App::new("/tmp/d".to_string(), left, right);
    app.right.current_dir = "/tmp/e".to_string();
    app
}

fn press(app: &mut App, input: &mut InputState, keys: &str) -> Vec<Action> {
    keys.chars().map(|c| app.handle_key(input, Key::Char(c), 10)).collect()
}

fn fresh() -> InputState {
    InputState { prefix: 0, pending_g: false }
}

fn five() -> Vec<Entry> {
    listing(
        "/tmp/d",
        &[("a", 1, false), ("b", 2, false), ("c", 3, true), ("d", 4, false), ("e", 5, false)],
    )
}

#[test]
fn size_and_name_sort_scenario() {
    let items = listing("/tmp/d", &[("b.txt", 512, false), ("a.txt", 1024, false)]);
    let by_size = sort_entries(items, SortBy::Size);
    assert_eq!(names(&by_size), vec!["a.txt", "b.txt"]);
    let by_name = sort_entries(by_size, SortBy::Name);
    assert_eq!(names(&by_name), vec!["a.txt", "b.txt"]);
}

#[test]
fn size_sort_is_descending_with_name_tie_break() {
    let items = listing("/d", &[("small", 1, false), ("Big", 9, false), ("alpha", 9, false)]);
    assert_eq!(names(&sort_entries(items, SortBy::Size)), vec!["alpha", "Big", "small"]);
}

#[test]
fn name_sort_ignores_case() {
    let items = listing("/d", &[("C", 0, false), ("b", 0, false), ("A", 0, false), ("a", 0, false)]);
    assert_eq!(names(&sort_entries(items, SortBy::Name)), vec!["A", "a", "b", "C"]);
}

#[test]
fn time_sorts_are_ascending() {
    let items = vec![timed("x", 30, 1), timed("y", 10, 3), timed("z", 20, 2), timed("w", 10, 0)];
    let m = sort_entries(items, SortBy::Modified);
    assert_eq!(names(&m), vec!["w", "y", "z", "x"]);
    let c = sort_entries(m, SortBy::Created);
    assert_eq!(names(&c), vec!["w", "x", "z", "y"]);
}

#[test]
fn sorting_twice_changes_nothing() {
    let items = listing("/d", &[("q", 5, false), ("P", 5, false), ("r", 1, false), ("a", 7, false)]);
    let once = sort_entries(items, SortBy::Size);
    let first = names(&once);
    let twice = sort_entries(once, SortBy::Size);
    assert_eq!(names(&twice), first);
}

#[test]
fn rename_round_trip_restores_order() {
    let before = Pane::new("/d".to_string(), listing("/d", &[("b", 0, false), ("a", 0, false), ("c", 0, false)]));
    let order = names(&before.items);
    let mut pane = before;
    pane.refresh(listing("/d", &[("z", 0, false), ("b", 0, false), ("c", 0, false)]));
    assert_eq!(names(&pane.items), vec!["b", "c", "z"]);
    pane.refresh(listing("/d", &[("c", 0, false), ("a", 0, false), ("b", 0, false)]));
    assert_eq!(names(&pane.items), order);
}

#[test]
fn apply_sort_resets_cursor_and_marks() {
    let mut pane = Pane::new("/d".to_string(), five());
    pane.selected = 2;
    toggle_mark(&mut pane);
    apply_sort(&mut pane, SortBy::Size);
    assert_eq!(names(&pane.items), vec!["e", "d", "c", "b", "a"]);
    assert_eq!(pane.selected, 0);
    assert!(pane.marked.is_empty());
}

#[test]
fn cursor_stops_at_both_ends() {
    let mut app = session(five(), five());
    let mut input = fresh();
    press(&mut app, &mut input, "jjjjjjjj");
    assert_eq!(app.left.selected, 4);
    press(&mut app, &mut input, "kkkkkkkkkk");
    assert_eq!(app.left.selected, 0);
    app.on_down();
    assert_eq!(app.left.selected, 1);
    app.on_up();
    app.on_up();
    assert_eq!(app.left.selected, 0);
}

#[test]
fn cursor_on_empty_listing_stays_at_zero() {
    let mut app = session(Vec::new(), Vec::new());
    let mut input = fresh();
    press(&mut app, &mut input, "jjkG");
    assert_eq!(app.left.selected, 0);
}

#[test]
fn count_prefix_repeats_moves() {
    let mut app = session(five(), five());
    let mut input = fresh();
    press(&mut app, &mut input, "3j");
    assert_eq!(app.left.selected, 3);
    press(&mut app, &mut input, "2k");
    assert_eq!(app.left.selected, 1);
    press(&mut app, &mut input, "99j");
    assert_eq!(app.left.selected, 4);
    assert_eq!(input.prefix, 0);
}

#[test]
fn huge_count_saturates() {
    let mut app = session(five(), five());
    let mut input = fresh();
    press(&mut app, &mut input, "99999999999999999999999");
    assert_eq!(input.prefix, usize::MAX);
    press(&mut app, &mut input, "j");
    assert_eq!(app.left.selected, 4);
}

#[test]
fn gg_jumps_to_top_and_capital_g_to_bottom() {
    let mut app = session(five(), five());
    let mut input = fresh();
    press(&mut app, &mut input, "G");
    assert_eq!(app.left.selected, 4);
    press(&mut app, &mut input, "g");
    assert_eq!(app.left.selected, 4);
    assert!(input.pending_g);
    press(&mut app, &mut input, "g");
    assert_eq!(app.left.selected, 0);
    assert!(!input.pending_g);
}

#[test]
fn interrupted_gg_does_not_jump() {
    let mut app = session(five(), five());
    let mut input = fresh();
    press(&mut app, &mut input, "G");
    press(&mut app, &mut input, "gxg");
    assert_eq!(app.left.selected, 4);
    assert!(matches!(app.mode, Mode::ConfirmDelete { .. }));
    let mut app = session(five(), five());
    let mut input = fresh();
    press(&mut app, &mut input, "Gg");
    app.handle_key(&mut input, Key::Down, 10);
    press(&mut app, &mut input, "g");
    assert_eq!(app.left.selected, 4);
}

#[test]
fn quit_from_any_mode() {
    let mut app = session(five(), five());
    let mut input = fresh();
    assert!(matches!(app.handle_key(&mut input, Key::Char('q'), 10), Action::Quit));
    press(&mut app, &mut input, "/");
    assert!(matches!(app.handle_key(&mut input, Key::Char('q'), 10), Action::Quit));
}

#[test]
fn refresh_resets_cursor_and_marks() {
    let mut pane = Pane::new("/tmp/d".to_string(), five());
    pane.selected = 3;
    toggle_mark(&mut pane);
    pane.selected = 1;
    toggle_mark(&mut pane);
    pane.refresh(listing("/tmp/d", &[("only", 1, false)]));
    assert_eq!(pane.selected, 0);
    assert!(pane.marked.is_empty());
    assert_eq!(pane.current_dir, "/tmp/d");
    assert_eq!(names(&pane.items), vec!["only"]);
}

#[test]
fn toggle_mark_flips_and_keeps_order() {
    let mut pane = Pane::new("/d".to_string(), five());
    pane.selected = 3;
    toggle_mark(&mut pane);
    pane.selected = 1;
    toggle_mark(&mut pane);
    pane.selected = 4;
    toggle_mark(&mut pane);
    assert_eq!(pane.marked, vec![1, 3, 4]);
    pane.selected = 3;
    toggle_mark(&mut pane);
    assert_eq!(pane.marked, vec![1, 4]);
    let mut empty = Pane::new("/d".to_string(), Vec::new());
    toggle_mark(&mut empty);
    assert!(empty.marked.is_empty());
}

#[test]
fn resolved_targets_rule() {
    let mut pane = Pane::new("/d".to_string(), five());
    pane.selected = 2;
    assert_eq!(pane.resolved_targets(), vec!["/tmp/d/c"]);
    pane.selected = 4;
    toggle_mark(&mut pane);
    pane.selected = 0;
    toggle_mark(&mut pane);
    pane.selected = 2;
    assert_eq!(pane.resolved_targets(), vec!["/tmp/d/a", "/tmp/d/e"]);
    let empty = Pane::new("/d".to_string(), Vec::new());
    assert!(empty.resolved_targets().is_empty());
}

#[test]
fn visual_selection_marks_live_range() {
    let mut app = session(five(), five());
    let mut input = fresh();
    press(&mut app, &mut input, "jjV");
    assert!(matches!(app.mode, Mode::Visual { anchor: 2 }));
    assert_eq!(app.left.marked, vec![2]);
    press(&mut app, &mut input, "jj");
    assert_eq!(app.left.marked, vec![2, 3, 4]);
    press(&mut app, &mut input, "kkkk");
    assert_eq!(app.left.selected, 0);
    assert_eq!(app.left.marked, vec![0, 1, 2]);
    press(&mut app, &mut input, "V");
    assert!(matches!(app.mode, Mode::Filer));
    assert_eq!(app.left.marked, vec![0, 1, 2]);
}

#[test]
fn visual_range_is_symmetric() {
    let mut p = Pane::new("/d".to_string(), five());
    p.selected = 1;
    p.mark_range(3);
    let a = p.marked.clone();
    p.selected = 3;
    p.mark_range(1);
    assert_eq!(a, p.marked);
    assert_eq!(a, vec![1, 2, 3]);
}

#[test]
fn visual_escape_keeps_marks() {
    let mut app = session(five(), five());
    let mut input = fresh();
    press(&mut app, &mut input, "Vj");
    app.handle_key(&mut input, Key::Esc, 10);
    assert!(matches!(app.mode, Mode::Filer));
    assert_eq!(app.left.marked, vec![0, 1]);
}

#[test]
fn yank_then_paste_elsewhere() {
    let mut app = session(five(), Vec::new());
    let mut input = fresh();
    press(&mut app, &mut input, "jvjjv");
    assert_eq!(app.left.marked, vec![1, 3]);
    press(&mut app, &mut input, "y");
    assert!(app.left.marked.is_empty());
    assert_eq!(app.clipboard, vec!["/tmp/d/b", "/tmp/d/d"]);
    press(&mut app, &mut input, "l");
    assert_eq!(app.active, PaneType::Right);
    match app.handle_key(&mut input, Key::Char('p'), 10) {
        Action::Paste { sources, dest_dir } => {
            assert_eq!(sources, vec!["/tmp/d/b", "/tmp/d/d"]);
            assert_eq!(dest_dir, "/tmp/e");
        }
        other => panic!("expected a paste, got {:?}", other),
    }
    match app.handle_key(&mut input, Key::Char('p'), 10) {
        Action::Paste { sources, .. } => assert_eq!(sources.len(), 2),
        other => panic!("expected a paste, got {:?}", other),
    }
}

#[test]
fn copy_selection_without_marks_takes_cursor_entry() {
    let mut app = session(five(), five());
    app.left.selected = 2;
    copy_selection(&mut app);
    assert_eq!(app.clipboard, vec!["/tmp/d/c"]);
    match paste(&app) {
        Action::Paste { sources, dest_dir } => {
            assert_eq!(sources, vec!["/tmp/d/c"]);
            assert_eq!(dest_dir, "/tmp/d");
        }
        other => panic!("expected a paste, got {:?}", other),
    }
}

#[test]
fn delete_cancelled_keeps_everything() {
    let mut app = session(five(), five());
    let mut input = fresh();
    press(&mut app, &mut input, "jj");
    let before = names(&app.left.items);
    press(&mut app, &mut input, "x");
    match &app.mode {
        Mode::ConfirmDelete { items } => assert_eq!(items, &vec!["/tmp/d/c".to_string()]),
        other => panic!("expected a confirmation, got {:?}", other),
    }
    assert!(matches!(app.handle_key(&mut input, Key::Char('n'), 10), Action::Nothing));
    assert!(matches!(app.mode, Mode::Filer));
    assert_eq!(names(&app.left.items), before);
    assert_eq!(app.left.selected, 2);
}

#[test]
fn delete_confirmed_asks_for_removal() {
    let mut app = session(five(), five());
    let mut input = fresh();
    press(&mut app, &mut input, "jjx");
    match app.handle_key(&mut input, Key::Char('y'), 10) {
        Action::Delete { paths } => assert_eq!(paths, vec!["/tmp/d/c"]),
        other => panic!("expected a deletion, got {:?}", other),
    }
    assert!(matches!(app.mode, Mode::Filer));
    app.current_pane_mut().refresh(listing(
        "/tmp/d",
        &[("a", 1, false), ("b", 2, false), ("d", 4, false), ("e", 5, false)],
    ));
    assert_eq!(names(&app.left.items), vec!["a", "b", "d", "e"]);
}

#[test]
fn delete_without_confirmation_and_on_empty() {
    let mut app = session(five(), Vec::new());
    let mut input = fresh();
    press(&mut app, &mut input, "vj");
    match app.handle_key(&mut input, Key::Char('X'), 10) {
        Action::Delete { paths } => assert_eq!(paths, vec!["/tmp/d/a"]),
        other => panic!("expected a deletion, got {:?}", other),
    }
    press(&mut app, &mut input, "l");
    assert!(matches!(app.handle_key(&mut input, Key::Char('X'), 10), Action::Nothing));
    assert!(matches!(app.handle_key(&mut input, Key::Char('x'), 10), Action::Nothing));
    assert!(matches!(app.mode, Mode::Filer));
}

#[test]
fn enter_opens_directory_file_or_image() {
    let items = listing("/tmp/d", &[("docs", 0, true), ("notes.txt", 3, false), ("photo.PNG", 9, false)]);
    let mut app = session(items, Vec::new());
    let mut input = fresh();
    match app.handle_key(&mut input, Key::Enter, 10) {
        Action::Reload { pane } => assert_eq!(pane, PaneType::Left),
        other => panic!("expected a reload, got {:?}", other),
    }
    assert_eq!(app.left.current_dir, "/tmp/d/docs");
    app.left.refresh(listing("/tmp/d", &[("docs", 0, true), ("notes.txt", 3, false), ("photo.PNG", 9, false)]));
    press(&mut app, &mut input, "j");
    match app.handle_key(&mut input, Key::Enter, 10) {
        Action::OpenFile { path, title } => {
            assert_eq!(path, "/tmp/d/notes.txt");
            assert_eq!(title, "notes.txt");
        }
        other => panic!("expected a file to open, got {:?}", other),
    }
    press(&mut app, &mut input, "j");
    match app.handle_key(&mut input, Key::Enter, 10) {
        Action::ShowImage { path } => assert_eq!(path, "/tmp/d/photo.PNG"),
        other => panic!("expected an image, got {:?}", other),
    }
    assert_eq!(app.active, PaneType::Right);
}

#[test]
fn h_and_l_are_asymmetric() {
    let mut app = session(five(), five());
    let mut input = fresh();
    match app.handle_key(&mut input, Key::Char('h'), 10) {
        Action::Reload { pane } => assert_eq!(pane, PaneType::Left),
        other => panic!("expected a reload, got {:?}", other),
    }
    assert_eq!(app.left.current_dir, "/tmp");
    press(&mut app, &mut input, "l");
    assert_eq!(app.active, PaneType::Right);
    match app.handle_key(&mut input, Key::Char('l'), 10) {
        Action::Reload { pane } => assert_eq!(pane, PaneType::Right),
        other => panic!("expected a reload, got {:?}", other),
    }
    assert_eq!(app.right.current_dir, "/tmp");
    press(&mut app, &mut input, "h");
    assert_eq!(app.active, PaneType::Left);
}

#[test]
fn parent_of_root_is_no_move() {
    let mut app = App::new("/".to_string(), five(), five());
    assert!(matches!(app.on_left(), Action::Nothing));
    assert_eq!(app.left.current_dir, "/");
}

#[test]
fn search_jumps_case_insensitively() {
    let items = listing("/d", &[("Alpha", 0, false), ("beta", 0, false), ("ALPHABET", 0, false), ("gamma", 0, false)]);
    let mut app = session(items, Vec::new());
    let mut input = fresh();
    assert_eq!(names(&app.left.items), vec!["Alpha", "ALPHABET", "beta", "gamma"]);
    press(&mut app, &mut input, "/a");
    assert_eq!(app.left.selected, 1);
    press(&mut app, &mut input, "l");
    assert_eq!(app.left.selected, 0);
    press(&mut app, &mut input, "z");
    assert_eq!(app.left.selected, 0);
    app.handle_key(&mut input, Key::Backspace, 10);
    match &app.mode {
        Mode::Search { query } => assert_eq!(query, "al"),
        other => panic!("expected a search, got {:?}", other),
    }
    assert_eq!(app.left.selected, 1);
    app.handle_key(&mut input, Key::Down, 10);
    assert_eq!(app.left.selected, 0);
    app.handle_key(&mut input, Key::Enter, 10);
    assert!(matches!(app.mode, Mode::Filer));
    assert_eq!(app.left.selected, 0);
}

#[test]
fn search_treats_g_and_digits_as_text() {
    let items = listing("/d", &[("a", 0, false), ("g1", 0, false)]);
    let mut app = session(items, Vec::new());
    let mut input = fresh();
    press(&mut app, &mut input, "/g1");
    match &app.mode {
        Mode::Search { query } => assert_eq!(query, "g1"),
        other => panic!("expected a search, got {:?}", other),
    }
    assert_eq!(app.left.selected, 1);
}

#[test]
fn find_match_wraps_and_folds_case() {
    let items = listing("/d", &[("Readme", 0, false), ("src", 0, false), ("README.old", 0, false)]);
    assert_eq!(find_match(&items, "readme", 0), Some(2));
    assert_eq!(find_match(&items, "READ", 2), Some(0));
    assert_eq!(find_match(&items, "SRC", 1), Some(1));
    assert_eq!(find_match(&items, "nothing", 0), None);
    assert_eq!(find_match(&items, "", 0), None);
    assert_eq!(find_match(&[], "a", 0), None);
}

#[test]
fn find_match_folded_exact() {
    let lowered = vec!["abc".to_string(), "xbcx".to_string(), "q".to_string()];
    assert_eq!(find_match_folded(&lowered, "bc", 0), Some(1));
    assert_eq!(find_match_folded(&lowered, "bc", 1), Some(0));
    assert_eq!(find_match_folded(&lowered, "", 1), Some(2));
    assert_eq!(find_match_folded(&lowered, "BC", 0), None);
    assert_eq!(find_match_folded(&lowered, "q", 7), Some(2));
}

#[test]
fn rename_commits_and_cancels() {
    let mut app = session(five(), Vec::new());
    let mut input = fresh();
    press(&mut app, &mut input, "jr");
    match &app.mode {
        Mode::Rename { original, buffer } => {
            assert_eq!(original, "b");
            assert_eq!(buffer, "b");
        }
        other => panic!("expected a rename, got {:?}", other),
    }
    app.handle_key(&mut input, Key::Backspace, 10);
    press(&mut app, &mut input, "zz");
    match app.handle_key(&mut input, Key::Enter, 10) {
        Action::Rename { path, new_name } => {
            assert_eq!(path, "/tmp/d/b");
            assert_eq!(new_name, "zz");
        }
        other => panic!("expected a rename, got {:?}", other),
    }
    assert!(matches!(app.mode, Mode::Filer));
    press(&mut app, &mut input, "r");
    app.handle_key(&mut input, Key::Esc, 10);
    assert!(matches!(app.mode, Mode::Filer));
}

#[test]
fn select_name_after_reload() {
    let mut pane = Pane::new("/d".to_string(), five());
    pane.refresh(listing("/d", &[("a", 0, false), ("zz", 0, false), ("c", 0, false)]));
    pane.select_name("zz");
    assert_eq!(pane.selected, 2);
    pane.select_name("missing");
    assert_eq!(pane.selected, 2);
}

#[test]
fn refresh_selecting_follows_the_renamed_entry() {
    let mut pane = Pane::new("/d".to_string(), five());
    pane.selected = 3;
    pane.refresh_selecting(listing("/d", &[("e", 0, false), ("b2", 0, false), ("a", 0, false)]), "b2");
    assert_eq!(names(&pane.items), vec!["a", "b2", "e"]);
    assert_eq!(pane.selected, 1);
    pane.refresh_selecting(listing("/d", &[("e", 0, false), ("a", 0, false)]), "b2");
    assert_eq!(pane.selected, 0);
}

#[test]
fn sort_picker_cycles_and_applies() {
    let mut app = session(five(), Vec::new());
    let mut input = fresh();
    press(&mut app, &mut input, "jvs");
    assert!(matches!(app.mode, Mode::Sort { selected: 0 }));
    app.handle_key(&mut input, Key::Up, 10);
    assert!(matches!(app.mode, Mode::Sort { selected: 3 }));
    press(&mut app, &mut input, "jjj");
    assert!(matches!(app.mode, Mode::Sort { selected: 2 }));
    app.handle_key(&mut input, Key::Enter, 10);
    assert!(matches!(app.mode, Mode::Filer));
    assert_eq!(names(&app.left.items), vec!["e", "d", "c", "b", "a"]);
    assert_eq!(app.left.selected, 0);
    assert!(app.left.marked.is_empty());
    press(&mut app, &mut input, "s");
    app.handle_key(&mut input, Key::Esc, 10);
    assert!(matches!(app.mode, Mode::Filer));
    assert_eq!(names(&app.left.items), vec!["e", "d", "c", "b", "a"]);
}

#[test]
fn sort_by_index() {
    assert_eq!(SortBy::from_index(0), SortBy::Modified);
    assert_eq!(SortBy::from_index(1), SortBy::Created);
    assert_eq!(SortBy::from_index(2), SortBy::Size);
    assert_eq!(SortBy::from_index(3), SortBy::Name);
    assert_eq!(SortBy::from_index(9), SortBy::Name);
}

#[test]
fn viewer_scrolls_within_bounds() {
    let mut app = session(five(), five());
    let mut input = fresh();
    let text: String = (0..10).map(|i| format!("line {}\n", i)).collect();
    app.open_viewer(text, "t.txt".to_string());
    let offset = |app: &App| match &app.mode {
        Mode::Viewer { offset, .. } => *offset,
        other => panic!("expected the viewer, got {:?}", other),
    };
    app.handle_key(&mut input, Key::Char('j'), 4);
    assert_eq!(offset(&app), 1);
    for c in "50j".chars() {
        app.handle_key(&mut input, Key::Char(c), 4);
    }
    assert_eq!(offset(&app), 6);
    for c in "2k".chars() {
        app.handle_key(&mut input, Key::Char(c), 4);
    }
    assert_eq!(offset(&app), 4);
    for c in "gg".chars() {
        app.handle_key(&mut input, Key::Char(c), 4);
    }
    assert_eq!(offset(&app), 0);
    app.handle_key(&mut input, Key::Char('G'), 4);
    assert_eq!(offset(&app), 6);
    app.handle_key(&mut input, Key::Char('G'), 20);
    assert_eq!(offset(&app), 0);
    app.handle_key(&mut input, Key::Enter, 4);
    assert!(matches!(app.mode, Mode::Filer));
}

#[test]
fn line_counts() {
    assert_eq!(count_lines(""), 0);
    assert_eq!(count_lines("a"), 1);
    assert_eq!(count_lines("a\n"), 1);
    assert_eq!(count_lines("a\nb"), 2);
    assert_eq!(count_lines("\n\n"), 2);
    assert_eq!(count_lines("x\r\ny\r\n"), 2);
    assert_eq!(max_offset_exec("a\nb\nc\nd\n", 1), 3);
    assert_eq!(max_offset_exec("a\nb\n", 5), 0);
    let long = "\n".repeat(70000);
    assert_eq!(max_offset_exec(&long, 2), 65535);
}

#[test]
fn image_detection_by_extension() {
    assert!(is_image("/a/b.png"));
    assert!(is_image("/a/b.PNG"));
    assert!(is_image("photo.JpEg"));
    assert!(is_image("x.tif"));
    assert!(is_image("x.webp"));
    assert!(!is_image("notes.txt"));
    assert!(!is_image("/a/png"));
    assert!(!is_image(".png"));
    assert!(!is_image("archive.png.gz"));
}

#[test]
fn image_extensions_exact() {
    for e in ["png", "jpg", "jpeg", "gif", "bmp", "tiff", "tif", "webp"] {
        assert!(is_image_extension(e));
    }
    assert!(!is_image_extension("PNG"));
    assert!(!is_image_extension("svg"));
    assert!(!is_image_extension(""));
}

#[test]
fn new_session_starts_browsing_left() {
    let app = App::new("/w".to_string(), listing("/w", &[("b", 0, false), ("A", 0, false)]), Vec::new());
    assert_eq!(app.active, PaneType::Left);
    assert!(matches!(app.mode, Mode::Filer));
    assert!(app.clipboard.is_empty());
    assert_eq!(names(&app.left.items), vec!["A", "b"]);
    assert_eq!(app.right.current_dir, "/w");
}

#[test]
fn switch_pane_flips() {
    let mut app = session(five(), five());
    app.switch_pane();
    assert_eq!(app.active, PaneType::Right);
    app.current_pane_mut().selected = 3;
    assert_eq!(app.right.selected, 3);
    app.switch_pane();
    assert_eq!(app.active, PaneType::Left);
    assert_eq!(app.current_pane().selected, 0);
}
