use tj::editor::{collision_message, committed_track_name, editor_key, rename_target, EditorKey, EditorOutcome, TagEditorState};
use tj::paths::path_file_stem;
use tj::tags::{propose_rename_stem, rename_hint, TagItem, TagKey};

fn editor(values: [&str; 7]) -> TagEditorState {
    TagEditorState::open("/music/old name.flac", values.iter().map(|s| s.to_string()).collect())
}

#[test]
fn open_reads_stem_and_extension() {
    let ed = editor(["a", "t", "", "", "", "", ""]);
    assert_eq!(ed.current_stem, "old name");
    assert_eq!(ed.extension, "flac");
    assert_eq!(ed.active_field, 0);
    assert!(ed.fields.iter().all(|(_, c)| *c == 0));
}

#[test]
fn preview_is_title_dash_artist_trimmed() {
    let ed = editor(["  Band ", " Song", "", "", "", "", ""]);
    assert_eq!(ed.preview(), "Song - Band");
}

#[test]
fn active_field_mut_edits_the_active_field() {
    let mut ed = editor(["a", "t", "", "", "", "", ""]);
    ed.active_field = 1;
    {
        let (text, cur) = ed.active_field_mut();
        text.push('x');
        *cur = 2;
    }
    assert_eq!(ed.fields[1], ("tx".to_string(), 2));
    assert_eq!(ed.fields[0], ("a".to_string(), 0));
}

#[test]
fn typing_and_cursor_keys() {
    let mut ed = editor(["", "", "", "", "", "", ""]);
    assert!(matches!(editor_key(&mut ed, EditorKey::Char('a')), EditorOutcome::Keep));
    editor_key(&mut ed, EditorKey::Char('c'));
    editor_key(&mut ed, EditorKey::Left);
    editor_key(&mut ed, EditorKey::Char('b'));
    assert_eq!(ed.fields[0], ("abc".to_string(), 2));
    editor_key(&mut ed, EditorKey::Backspace);
    assert_eq!(ed.fields[0], ("ac".to_string(), 1));
    editor_key(&mut ed, EditorKey::Delete);
    assert_eq!(ed.fields[0], ("a".to_string(), 1));
    editor_key(&mut ed, EditorKey::Home);
    assert_eq!(ed.fields[0].1, 0);
    editor_key(&mut ed, EditorKey::End);
    assert_eq!(ed.fields[0].1, 1);
}

#[test]
fn tab_cycles_fields() {
    let mut ed = editor(["", "", "", "", "", "", ""]);
    editor_key(&mut ed, EditorKey::BackTab);
    assert_eq!(ed.active_field, 6);
    editor_key(&mut ed, EditorKey::Tab);
    assert_eq!(ed.active_field, 0);
    editor_key(&mut ed, EditorKey::Down);
    assert_eq!(ed.active_field, 1);
}

#[test]
fn enter_needs_artist_and_title() {
    let mut ed = editor(["  ", "Song", "", "", "", "", ""]);
    assert!(matches!(editor_key(&mut ed, EditorKey::Enter), EditorOutcome::Keep));
}

#[test]
fn enter_commits_trimmed_fields() {
    let mut ed = editor([" Band ", "Song ", "", "", "", "", ""]);
    match editor_key(&mut ed, EditorKey::Enter) {
        EditorOutcome::Commit { new_stem, needs_rename, file_name } => {
            assert_eq!(new_stem, "Song - Band");
            assert!(needs_rename);
            assert_eq!(file_name, "Song - Band.flac");
        }
        _ => panic!("expected a commit"),
    }
    assert_eq!(ed.fields[0].0, "Band");
    assert_eq!(ed.fields[1].0, "Song");
    assert!(matches!(editor_key(&mut ed, EditorKey::Esc), EditorOutcome::Close));
}

#[test]
fn rename_target_and_messages() {
    assert_eq!(rename_target("/music/old.flac", "new.flac"), "/music/new.flac");
    assert_eq!(rename_target("old.flac", "new.flac"), "new.flac");
    assert_eq!(collision_message("/music/new.flac"), "already exists: new.flac");
    let fields = vec![("Band".to_string(), 0), ("Song".to_string(), 0)];
    assert_eq!(committed_track_name(&fields), "Song \u{2013} Band");
}

#[test]
fn renamed_file_is_not_offered_again() {
    let tags = vec![
        TagItem { key: Some(TagKey::Artist), value: "AC/DC".to_string() },
        TagItem { key: Some(TagKey::TrackTitle), value: "T.N.T.".to_string() },
    ];
    let path = "/music/01 tnt.mp3";
    let stem = propose_rename_stem(path, Some(&tags));
    assert_eq!(stem, "T.N.T. - AC-DC");
    let target = rename_target(path, &format!("{stem}.mp3"));
    assert_eq!(target, "/music/T.N.T. - AC-DC.mp3");
    let new_stem = path_file_stem(&target).unwrap();
    assert_eq!(new_stem, stem);
    assert_eq!(rename_hint(&new_stem, propose_rename_stem(&target, Some(&tags))), None);
    // Without tags the proposal is the current stem, which is stable too.
    assert_eq!(propose_rename_stem(&target, None), stem);
}
