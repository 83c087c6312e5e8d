use tj::tags::{
    choose_tags, editor_field_values, find_tag, parse_u32, propose_rename_stem, read_track_name,
    rename_hint, sanitise_for_filename, tag_write_plan, TagItem, TagKey,
};

fn tag(key: TagKey, value: &str) -> TagItem {
    TagItem { key: Some(key), value: value.to_string() }
}

#[test]
fn sanitise_all_illegal() {
    let result = sanitise_for_filename(r#"/\:*?"<>|"#);
    assert!(!result.is_empty());
    assert!(result.chars().all(|c| c == '-'));
}

#[test]
fn sanitise_empty() {
    assert_eq!(sanitise_for_filename(""), "");
}

#[test]
fn sanitise_clean() {
    let s = "hello world";
    assert_eq!(sanitise_for_filename(s), s);
}

#[test]
fn sanitise_keeps_other_characters() {
    assert_eq!(sanitise_for_filename("AC/DC: Back?"), "AC-DC- Back-");
    assert_eq!(sanitise_for_filename("Motörhead"), "Motörhead");
}

#[test]
fn find_tag_takes_first_match() {
    let tags = vec![
        TagItem { key: None, value: "x".to_string() },
        tag(TagKey::Artist, "First"),
        tag(TagKey::Artist, "Second"),
    ];
    assert_eq!(find_tag(&tags, TagKey::Artist), Some("First".to_string()));
    assert_eq!(find_tag(&tags, TagKey::Genre), None);
}

#[test]
fn probe_tags_win_when_present() {
    let r = choose_tags(Some(vec![tag(TagKey::Artist, "P")]), vec![tag(TagKey::Artist, "F")]);
    assert_eq!(r[0].value, "P");
    let r = choose_tags(Some(Vec::new()), vec![tag(TagKey::Artist, "F")]);
    assert_eq!(r[0].value, "F");
    let r = choose_tags(None, vec![tag(TagKey::TrackTitle, "T")]);
    assert_eq!(r[0].value, "T");
}

#[test]
fn editor_fields_in_order() {
    let tags = vec![
        tag(TagKey::Comment, "c"),
        tag(TagKey::TrackTitle, "Song"),
        tag(TagKey::Artist, "Band"),
        tag(TagKey::Date, "1999"),
    ];
    let v = editor_field_values(Some(&tags));
    assert_eq!(v, vec!["Band", "Song", "", "1999", "", "", "c"]);
    let none = editor_field_values(None);
    assert_eq!(none, vec![""; 7]);
}

#[test]
fn rename_stem_from_tags_or_file() {
    let tags = vec![tag(TagKey::Artist, "AC/DC"), tag(TagKey::TrackTitle, "T.N.T.")];
    assert_eq!(propose_rename_stem("/m/01 tnt.mp3", Some(&tags)), "T.N.T. - AC-DC");
    let only_title = vec![tag(TagKey::TrackTitle, "Song")];
    assert_eq!(propose_rename_stem("/m/01 song.mp3", Some(&only_title)), "01 song");
    assert_eq!(propose_rename_stem("/m/track.flac", None), "track");
}

#[test]
fn track_name_from_tags_or_file() {
    let tags = vec![tag(TagKey::Artist, "Band"), tag(TagKey::TrackTitle, "Song")];
    assert_eq!(read_track_name("/m/x.flac", Some(&tags)), "Song \u{2013} Band");
    let only_title = vec![tag(TagKey::TrackTitle, "Song")];
    assert_eq!(read_track_name("/m/x.flac", Some(&only_title)), "Song");
    let only_artist = vec![tag(TagKey::Artist, "Band")];
    assert_eq!(read_track_name("/m/x.flac", Some(&only_artist)), "x.flac");
    assert_eq!(read_track_name("/m/x.flac", None), "x.flac");
}

#[test]
fn rename_hint_only_when_stem_differs() {
    assert_eq!(rename_hint("old name", "Song - Band".to_string()), Some("Song - Band".to_string()));
    assert_eq!(rename_hint("Song - Band", "Song - Band".to_string()), None);
    assert_eq!(rename_hint("", "Song - Band".to_string()), None);
}

#[test]
fn parse_u32_like_std() {
    assert_eq!(parse_u32("1999"), Some(1999));
    assert_eq!(parse_u32("+7"), Some(7));
    assert_eq!(parse_u32("007"), Some(7));
    assert_eq!(parse_u32("4294967295"), Some(u32::MAX));
    assert_eq!(parse_u32("4294967296"), None);
    assert_eq!(parse_u32(""), None);
    assert_eq!(parse_u32("+"), None);
    assert_eq!(parse_u32("3/12"), None);
    assert_eq!(parse_u32("-1"), None);
    assert_eq!(parse_u32(" 5"), None);
}

#[test]
fn write_plan_parses_numbers() {
    let fields: Vec<(String, usize)> = ["A", "T", "Al", "2001", "x", "G", "C"]
        .iter()
        .map(|s| (s.to_string(), 0))
        .collect();
    let p = tag_write_plan(&fields);
    assert_eq!(p.artist, "A");
    assert_eq!(p.title, "T");
    assert_eq!(p.album, "Al");
    assert_eq!(p.year, Some(2001));
    assert_eq!(p.track, None);
    assert_eq!(p.genre, "G");
    assert_eq!(p.comment, "C");
}

#[test]
fn proposed_stem_never_empty_for_audio_names() {
    for p in ["/m/.hidden.mp3", "/m/a.flac", "x..ogg", "/m/..wav"] {
        assert!(!propose_rename_stem(p, None).is_empty(), "{p}");
    }
    let tags = vec![tag(TagKey::Artist, ""), tag(TagKey::TrackTitle, "")];
    assert_eq!(propose_rename_stem("/m/a.flac", Some(&tags)), " - ");
}
