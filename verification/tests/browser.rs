use tj::browser::{
    handle_browser_key, is_audio, run_search, BrowserEntry, BrowserKey, BrowserResult, BrowserState,
    BrowserStep, EntryKind, RawEntry, WorkspaceScan,
};
use tj::paths::relative_path;
use tj::browser::browser_labels;

fn make_state(kinds: &[EntryKind]) -> BrowserState {
    BrowserState {
        cwd: "/test".to_string(),
        entries: kinds
            .iter()
            .enumerate()
            .map(|(i, k)| BrowserEntry {
                name: format!("entry{i}"),
                path: format!("/test/entry{i}"),
                kind: k.clone(),
            })
            .collect(),
        cursor: 0,
        workspace: None,
        search_term: String::new(),
        search_results: None,
        workspace_files: None,
    }
}

fn raw(name: &str, dir: &str, is_dir: bool) -> RawEntry {
    RawEntry { name: name.to_string(), path: format!("{dir}/{name}"), is_dir }
}

#[test]
fn test_is_audio_known_extensions() {
    assert!(is_audio("track.flac"));
    assert!(is_audio("track.mp3"));
    assert!(is_audio("track.ogg"));
    assert!(is_audio("track.wav"));
}

#[test]
fn test_is_audio_case_insensitive() {
    assert!(is_audio("track.FLAC"));
    assert!(is_audio("track.Mp3"));
}

#[test]
fn test_is_audio_non_audio() {
    assert!(!is_audio("readme.txt"));
    assert!(!is_audio("noextension"));
    assert!(!is_audio("image.png"));
}

#[test]
fn test_dirs_and_audio_are_selectable() {
    assert!(BrowserState::is_selectable(&EntryKind::Dir));
    assert!(BrowserState::is_selectable(&EntryKind::Audio));
    assert!(!BrowserState::is_selectable(&EntryKind::Other));
}

#[test]
fn test_cursor_down_skips_other() {
    let mut state = make_state(&[EntryKind::Audio, EntryKind::Other, EntryKind::Audio]);
    state.cursor = 0;
    state.move_down();
    assert_eq!(state.cursor, 2);
}

#[test]
fn test_cursor_up_skips_other() {
    let mut state = make_state(&[EntryKind::Audio, EntryKind::Other, EntryKind::Audio]);
    state.cursor = 2;
    state.move_up();
    assert_eq!(state.cursor, 0);
}

#[test]
fn test_cursor_down_does_not_pass_end() {
    let mut state = make_state(&[EntryKind::Audio, EntryKind::Audio]);
    state.cursor = 1;
    state.move_down();
    assert_eq!(state.cursor, 1);
}

#[test]
fn test_cursor_up_does_not_pass_start() {
    let mut state = make_state(&[EntryKind::Audio, EntryKind::Audio]);
    state.cursor = 0;
    state.move_up();
    assert_eq!(state.cursor, 0);
}

#[test]
fn is_audio_in_directory_path() {
    assert!(is_audio("/music/set.one/track.opus"));
    assert!(is_audio("track.m4a"));
    assert!(is_audio("track.aac"));
    assert!(!is_audio("/music/album.flac/notes"));
    assert!(!is_audio("/music/.flac"));
    assert!(is_audio("/music/album/01.flac"));
}

#[test]
fn listing_puts_parent_then_dirs_then_audio_then_others() {
    let raw_entries = vec![
        raw("b.mp3", "/music", false),
        raw("notes.txt", "/music", false),
        raw("zeta", "/music", true),
        raw("a.flac", "/music", false),
        raw("alpha", "/music", true),
    ];
    let s = BrowserState::from_listing("/music".to_string(), raw_entries, None);
    let names: Vec<&str> = s.entries.iter().map(|e| e.name.as_str()).collect();
    assert_eq!(names, vec!["..", "alpha", "zeta", "a.flac", "b.mp3", "notes.txt"]);
    assert_eq!(s.entries[0].path, "/");
    assert_eq!(s.entries[0].kind, EntryKind::Dir);
    assert_eq!(s.entries[3].kind, EntryKind::Audio);
    assert_eq!(s.entries[5].kind, EntryKind::Other);
    // The cursor starts on the first entry below "..".
    assert_eq!(s.cursor, 1);
}

#[test]
fn highlighted_audio_path_only_for_audio() {
    let mut s = make_state(&[EntryKind::Dir, EntryKind::Audio]);
    s.cursor = 0;
    assert_eq!(s.highlighted_audio_path(), None);
    s.cursor = 1;
    assert_eq!(s.highlighted_audio_path(), Some("/test/entry1".to_string()));
}

#[test]
fn enter_on_audio_selects_it() {
    let mut s = make_state(&[EntryKind::Audio]);
    match handle_browser_key(&mut s, BrowserKey::Enter) {
        BrowserStep::Finish(BrowserResult::Selected(p)) => assert_eq!(p, "/test/entry0"),
        _ => panic!("expected a selection"),
    }
}

#[test]
fn enter_on_dir_opens_it() {
    let mut s = make_state(&[EntryKind::Dir]);
    match handle_browser_key(&mut s, BrowserKey::Enter) {
        BrowserStep::Open(p) => assert_eq!(p, "/test/entry0"),
        _ => panic!("expected to open the directory"),
    }
}

#[test]
fn escape_and_q_leave_the_browser() {
    let mut s = make_state(&[EntryKind::Audio]);
    assert!(matches!(
        handle_browser_key(&mut s, BrowserKey::Esc),
        BrowserStep::Finish(BrowserResult::ReturnToPlayer)
    ));
    assert!(matches!(
        handle_browser_key(&mut s, BrowserKey::Char('q')),
        BrowserStep::Finish(BrowserResult::Quit)
    ));
}

#[test]
fn at_sets_and_quote_clears_workspace() {
    let mut s = make_state(&[EntryKind::Audio]);
    match handle_browser_key(&mut s, BrowserKey::Char('@')) {
        BrowserStep::Finish(BrowserResult::WorkspaceSet(w)) => assert_eq!(w, "/test"),
        _ => panic!("expected the workspace to be set"),
    }
    assert_eq!(s.workspace, Some("/test".to_string()));
    assert!(matches!(
        handle_browser_key(&mut s, BrowserKey::Char('\'')),
        BrowserStep::Finish(BrowserResult::WorkspaceCleared)
    ));
    assert_eq!(s.workspace, None);
}

#[test]
fn typing_with_workspace_searches() {
    let mut s = make_state(&[EntryKind::Audio]);
    s.workspace = Some("/test".to_string());
    assert!(matches!(handle_browser_key(&mut s, BrowserKey::Char('e')), BrowserStep::Search));
    assert_eq!(s.search_term, "e");
    s.workspace_files = Some(vec!["/test/entry0.flac".to_string(), "/test/other.mp3".to_string()]);
    s.refresh_search();
    let results = s.search_results.clone().unwrap();
    assert!(results.contains(&"/test/entry0.flac".to_string()));
    assert_eq!(s.cursor, 0);
    // Escape with a search term only clears the search.
    assert!(matches!(handle_browser_key(&mut s, BrowserKey::Esc), BrowserStep::Stay));
    assert_eq!(s.search_term, "");
    assert!(s.search_results.is_none());
}

#[test]
fn run_search_orders_best_first_and_drops_misses() {
    let files = vec![
        "/ws/zzz.flac".to_string(),
        "/ws/abc.flac".to_string(),
        "/ws/a_b_c.flac".to_string(),
    ];
    let r = run_search("abc", &files, "/ws");
    assert!(!r.contains(&"/ws/zzz.flac".to_string()));
    assert_eq!(r[0], "/ws/abc.flac");
    assert_eq!(r.len(), 2);
}

#[test]
fn relative_path_below_and_beside() {
    assert_eq!(relative_path("/music", "/music/a/b.flac"), "./a/b.flac");
    assert_eq!(relative_path("/music", "/music"), "./");
    assert_eq!(relative_path("/music/x", "/music/y/z.mp3"), "../y/z.mp3");
}

#[test]
fn workspace_scan_collects_audio_depth_first() {
    let mut scan = WorkspaceScan::new("/ws".to_string());
    assert_eq!(scan.next_dir(), Some("/ws".to_string()));
    scan.add_children(vec![raw("sub", "/ws", true), raw("b.mp3", "/ws", false), raw("a.flac", "/ws", false)]);
    assert_eq!(scan.files, vec!["/ws/a.flac".to_string(), "/ws/b.mp3".to_string()]);
    assert_eq!(scan.next_dir(), Some("/ws/sub".to_string()));
    assert_eq!(scan.next_dir(), None);
}

#[test]
fn labels_for_listing_and_search() {
    let mut s = make_state(&[EntryKind::Dir, EntryKind::Audio]);
    assert_eq!(browser_labels(&s), vec!["entry0/".to_string(), "entry1".to_string()]);
    s.workspace = Some("/ws".to_string());
    s.search_results = Some(vec!["/ws/a/b.flac".to_string(), "/x/c.mp3".to_string()]);
    assert_eq!(browser_labels(&s), vec!["a/b.flac".to_string(), "/x/c.mp3".to_string()]);
}

#[test]
fn esc_and_z_work_with_any_cursor() {
    let mut s = make_state(&[EntryKind::Dir, EntryKind::Audio]);
    s.cursor = usize::MAX;
    assert!(matches!(handle_browser_key(&mut s, BrowserKey::Esc), BrowserStep::Finish(BrowserResult::ReturnToPlayer)));
    assert_eq!(s.cursor, usize::MAX);
    s.workspace = Some("/test".to_string());
    s.search_term = "ab".to_string();
    s.search_results = Some(vec!["/test/entry1".to_string()]);
    s.cursor = 40;
    assert!(matches!(handle_browser_key(&mut s, BrowserKey::Char('z')), BrowserStep::Stay));
    assert_eq!(s.search_term, "");
    assert!(s.search_results.is_none());
    assert_eq!(s.cursor, 0);
    assert_eq!(s.workspace.as_deref(), Some("/test"));
}
