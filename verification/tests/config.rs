use tj::config::{
    action_from_name, keymap_from_configs, parse_bare_key, parse_display_config, parse_key, parse_keymap, Action,
    DisplayConfig, KeyBinding, KeyCode, KeyMap,
};

#[test]
fn bare_keys() {
    assert_eq!(parse_bare_key("space"), Some(KeyCode::Char(' ')));
    assert_eq!(parse_bare_key("left"), Some(KeyCode::Left));
    assert_eq!(parse_bare_key("right"), Some(KeyCode::Right));
    assert_eq!(parse_bare_key("up"), Some(KeyCode::Up));
    assert_eq!(parse_bare_key("down"), Some(KeyCode::Down));
    assert_eq!(parse_bare_key("enter"), Some(KeyCode::Enter));
    assert_eq!(parse_bare_key("backspace"), Some(KeyCode::Backspace));
    assert_eq!(parse_bare_key("esc"), Some(KeyCode::Esc));
    assert_eq!(parse_bare_key("q"), Some(KeyCode::Char('q')));
    assert_eq!(parse_bare_key("é"), Some(KeyCode::Char('é')));
    assert_eq!(parse_bare_key("tab"), None);
    assert_eq!(parse_bare_key(""), None);
}

#[test]
fn chords_and_keys() {
    assert_eq!(parse_key("space+a"), Some(KeyBinding::SpaceChord(KeyCode::Char('a'))));
    assert_eq!(parse_key("space+left"), Some(KeyBinding::SpaceChord(KeyCode::Left)));
    assert_eq!(parse_key("space"), Some(KeyBinding::Key(KeyCode::Char(' '))));
    assert_eq!(parse_key("a"), Some(KeyBinding::Key(KeyCode::Char('a'))));
    assert_eq!(parse_key("space+"), None);
    assert_eq!(parse_key("space+bogus"), None);
}

#[test]
fn action_names() {
    assert_eq!(action_from_name("quit"), Some(Action::Quit));
    assert_eq!(action_from_name("deck1_metronome"), Some(Action::Deck1MetronomeToggle));
    assert_eq!(action_from_name("deck2_pitch_down"), Some(Action::Deck2PitchDown));
    assert_eq!(action_from_name("art_cycle"), Some(Action::ArtCycle));
    assert_eq!(action_from_name("Quit"), None);
    assert_eq!(action_from_name("deck3_play_pause"), None);
}

#[test]
fn keymap_insert_replaces() {
    let mut m = KeyMap::new();
    let k = KeyBinding::Key(KeyCode::Char('q'));
    assert_eq!(m.get(&k), None);
    m.insert(k, Action::Quit);
    assert_eq!(m.get(&k), Some(Action::Quit));
    m.insert(k, Action::Help);
    assert_eq!(m.get(&k), Some(Action::Help));
    assert_eq!(m.get(&KeyBinding::SpaceChord(KeyCode::Char('q'))), None);
}

#[test]
fn parse_keymap_strings_and_arrays() {
    let text = "[keys]\nquit = \"q\"\nhelp = [\"?\", \"h\", 3]\nbogus = \"x\"\ndeck1_cue = \"space+c\"\nzoom_in = 5\n";
    let mut seed = KeyMap::new();
    let m = parse_keymap(text, &mut seed);
    assert_eq!(m.get(&KeyBinding::Key(KeyCode::Char('q'))), Some(Action::Quit));
    assert_eq!(m.get(&KeyBinding::Key(KeyCode::Char('?'))), Some(Action::Help));
    assert_eq!(m.get(&KeyBinding::Key(KeyCode::Char('h'))), Some(Action::Help));
    assert_eq!(m.get(&KeyBinding::Key(KeyCode::Char('x'))), None);
    assert_eq!(m.get(&KeyBinding::SpaceChord(KeyCode::Char('c'))), Some(Action::Deck1Cue));
    // The map handed in is taken.
    assert_eq!(seed.get(&KeyBinding::Key(KeyCode::Char('q'))), None);
}

#[test]
fn parse_keymap_bad_text_keeps_map() {
    let mut seed = KeyMap::new();
    seed.insert(KeyBinding::Key(KeyCode::Esc), Action::Quit);
    let m = parse_keymap("this is [ not toml", &mut seed);
    assert_eq!(m.get(&KeyBinding::Key(KeyCode::Esc)), Some(Action::Quit));
    let mut seed = KeyMap::new();
    seed.insert(KeyBinding::Key(KeyCode::Esc), Action::Quit);
    let m = parse_keymap("[display]\nplayhead_position = 3\n", &mut seed);
    assert_eq!(m.get(&KeyBinding::Key(KeyCode::Esc)), Some(Action::Quit));
}

#[test]
fn user_config_overrides_defaults_and_keeps_the_rest() {
    let defaults = "[keys]\nquit = \"q\"\nhelp = \"h\"\n";
    let user = "[keys]\nzoom_in = \"h\"\n";
    let m = keymap_from_configs(defaults, user);
    assert_eq!(m.get(&KeyBinding::Key(KeyCode::Char('q'))), Some(Action::Quit));
    assert_eq!(m.get(&KeyBinding::Key(KeyCode::Char('h'))), Some(Action::ZoomIn));
}

#[test]
fn display_config_defaults_and_clamps() {
    let d = DisplayConfig::default();
    assert_eq!((d.playhead_position, d.detail_height), (20, 6));
    let d = parse_display_config("not toml [");
    assert_eq!((d.playhead_position, d.detail_height), (20, 6));
    let d = parse_display_config("[display]\nplayhead_position = 150\ndetail_height = 1\n");
    assert_eq!((d.playhead_position, d.detail_height), (100, 3));
    let d = parse_display_config("[display]\nplayhead_position = -4\ndetail_height = 9\n");
    assert_eq!((d.playhead_position, d.detail_height), (0, 9));
    let d = parse_display_config("[display]\nplayhead_position = \"x\"\n");
    assert_eq!((d.playhead_position, d.detail_height), (20, 6));
}
