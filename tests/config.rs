use trooper::action::Action;
use trooper::bindings::BindingTable;
use trooper::config::{read_config, str_to_key_events, DEFAULT_CONFIG};
use trooper::keys::{KeyCode, KeyPress};
use trooper::resolver::{ChordResolver, Resolution};

fn lookup(table: &BindingTable, chord: &Vec<KeyPress>) -> Option<Action> {
    table
        .entries
        .iter()
        .find(|b| &b.chord == chord)
        .map(|b| b.action)
}

fn fire(table: &BindingTable, keys: &[KeyPress]) -> Vec<Resolution> {
    let mut r = ChordResolver::new();
    keys.iter().map(|k| r.feed(table, *k)).collect()
}

fn plain_keys(s: &str) -> Vec<KeyPress> {
    s.chars().map(KeyPress::plain).collect()
}

#[test]
fn reading_default_config_gives_default_bindings() {
    let mut bindings: Vec<(Vec<KeyPress>, Action)> = Vec::new();
    bindings.push((str_to_key_events("j"), Action::MoveDown));
    bindings.push((str_to_key_events("k"), Action::MoveUp));
    bindings.push((str_to_key_events("h"), Action::MoveUpDir));
    bindings.push((str_to_key_events("l"), Action::EnterDir));
    bindings.push((str_to_key_events("q"), Action::Quit));
    bindings.push((str_to_key_events("gg"), Action::MoveToTop));
    bindings.push((str_to_key_events("G"), Action::MoveToBottom));
    bindings.push((str_to_key_events("yy"), Action::CopyFiles));
    bindings.push((str_to_key_events("dd"), Action::CutFiles));
    bindings.push((str_to_key_events("p"), Action::PasteFiles));
    bindings.push((str_to_key_events(":"), Action::OpenCommandMode));
    bindings.push((str_to_key_events("b"), Action::ToggleBookmark));
    bindings.push((
        vec![KeyPress::control('w'), KeyPress::control('h')],
        Action::MoveToLeftPanel,
    ));
    bindings.push((
        vec![KeyPress::control('w'), KeyPress::control('l')],
        Action::MoveToRightPanel,
    ));
    bindings.push((vec![KeyPress::control('h')], Action::MoveToLeftPanel));
    bindings.push((vec![KeyPress::control('l')], Action::MoveToRightPanel));
    bindings.push((str_to_key_events("z"), Action::ToggleHiddenFiles));
    bindings.push((str_to_key_events("v"), Action::ToggleVisualMode));

    let generated_bindings = read_config(DEFAULT_CONFIG, None);
    assert!(!generated_bindings.user_config_rejected);

    for b in generated_bindings.normal.entries.iter() {
        let expected = bindings.iter().find(|(k, _)| *k == b.chord);
        assert!(expected.is_some(), "{:?}", b.chord);

        assert!(expected.unwrap().1 == b.action);
    }
}

#[test]
fn default_config_binds_the_documented_keys() {
    let loaded = read_config(DEFAULT_CONFIG, None);
    let t = &loaded.normal;
    let cases: Vec<(&str, Action)> = vec![
        ("j", Action::MoveDown),
        ("k", Action::MoveUp),
        ("h", Action::MoveUpDir),
        ("l", Action::EnterDir),
        ("gg", Action::MoveToTop),
        ("G", Action::MoveToBottom),
        ("yy", Action::CopyFiles),
        ("dd", Action::CutFiles),
        ("p", Action::PasteFiles),
        (":", Action::OpenCommandMode),
        ("v", Action::ToggleVisualMode),
        ("z", Action::ToggleHiddenFiles),
    ];
    for (keys, action) in cases {
        let r = fire(t, &plain_keys(keys));
        assert_eq!(*r.last().unwrap(), Resolution::Fired(action), "{}", keys);
        for step in &r[..r.len() - 1] {
            assert_eq!(*step, Resolution::Pending, "{}", keys);
        }
    }
    let v = &loaded.visual;
    assert_eq!(fire(v, &plain_keys("v")), vec![Resolution::Fired(Action::ToggleVisualMode)]);
    assert_eq!(
        fire(v, &plain_keys("yy")),
        vec![Resolution::Pending, Resolution::Fired(Action::CopyFiles)]
    );
}

#[test]
fn typed_upper_case_matches_configured_upper_case() {
    let loaded = read_config(DEFAULT_CONFIG, None);
    let g = KeyPress::new(KeyCode::Char('G'), false, true, false);
    assert_eq!(fire(&loaded.normal, &[g]), vec![Resolution::Fired(Action::MoveToBottom)]);
    let shifted = KeyPress::new(KeyCode::Char('g'), false, true, false);
    assert_eq!(shifted, KeyPress::plain('G'));
}

#[test]
fn exact_chord_fires_before_a_longer_one() {
    let loaded = read_config(DEFAULT_CONFIG, None);
    // <C-w> is not bound, <C-w><C-h> and <C-h> are
    let r = fire(
        &loaded.normal,
        &[KeyPress::control('w'), KeyPress::control('h')],
    );
    assert_eq!(r, vec![Resolution::Pending, Resolution::Fired(Action::MoveToLeftPanel)]);

    let user = "[normal]\ng = Quit\n";
    let loaded = read_config(DEFAULT_CONFIG, Some(user));
    // g is now bound and gg still is: g fires at once
    let mut res = ChordResolver::new();
    assert_eq!(
        res.feed(&loaded.normal, KeyPress::plain('g')),
        Resolution::Fired(Action::Quit)
    );
    assert!(res.pending.is_empty());
    assert_eq!(
        res.feed(&loaded.normal, KeyPress::plain('g')),
        Resolution::Fired(Action::Quit)
    );
}

#[test]
fn unmatched_keys_leave_nothing_pending() {
    let loaded = read_config(DEFAULT_CONFIG, None);
    let mut res = ChordResolver::new();
    assert_eq!(res.feed(&loaded.normal, KeyPress::plain('x')), Resolution::Reset);
    assert!(res.pending.is_empty());
    assert_eq!(res.feed(&loaded.normal, KeyPress::plain('g')), Resolution::Pending);
    assert_eq!(res.pending.len(), 1);
    assert_eq!(res.feed(&loaded.normal, KeyPress::plain('x')), Resolution::Reset);
    assert!(res.pending.is_empty());
    // the dropped key does not start a new chord
    assert_eq!(res.feed(&loaded.normal, KeyPress::plain('d')), Resolution::Pending);
    assert_eq!(res.feed(&loaded.normal, KeyPress::plain('j')), Resolution::Reset);
    assert!(res.pending.is_empty());
}

#[test]
fn user_entries_override_and_extend_defaults() {
    let user = "[normal]\nj = MoveUp\nx = Quit\n\n[visual]\nx = DeleteFile\n";
    let loaded = read_config(DEFAULT_CONFIG, Some(user));
    assert!(!loaded.user_config_rejected);
    assert_eq!(lookup(&loaded.normal, &plain_keys("j")), Some(Action::MoveUp));
    assert_eq!(lookup(&loaded.normal, &plain_keys("x")), Some(Action::Quit));
    assert_eq!(lookup(&loaded.normal, &plain_keys("k")), Some(Action::MoveUp));
    assert_eq!(lookup(&loaded.normal, &plain_keys("gg")), Some(Action::MoveToTop));
    assert_eq!(lookup(&loaded.visual, &plain_keys("x")), Some(Action::DeleteFile));
    assert_eq!(lookup(&loaded.visual, &plain_keys("j")), Some(Action::MoveDown));
    let defaults = read_config(DEFAULT_CONFIG, None);
    assert_eq!(loaded.normal.entries.len(), defaults.normal.entries.len() + 1);
}

#[test]
fn unknown_action_names_are_ignored() {
    let user = "[normal]\nj = Fly\nw = movedown\ny\n";
    let loaded = read_config(DEFAULT_CONFIG, Some(user));
    assert!(!loaded.user_config_rejected);
    assert_eq!(lookup(&loaded.normal, &plain_keys("j")), Some(Action::MoveDown));
    assert_eq!(lookup(&loaded.normal, &plain_keys("w")), None);
    assert_eq!(lookup(&loaded.normal, &plain_keys("y")), None);
}

#[test]
fn malformed_user_config_falls_back_to_defaults() {
    let user = "[normal\nj = Quit\n";
    let loaded = read_config(DEFAULT_CONFIG, Some(user));
    assert!(loaded.user_config_rejected);
    assert_eq!(lookup(&loaded.normal, &plain_keys("j")), Some(Action::MoveDown));
    let empty_key = "[normal]\n = Quit\n";
    assert!(read_config(DEFAULT_CONFIG, Some(empty_key)).user_config_rejected);
}

#[test]
fn chord_spec_escapes() {
    assert_eq!(str_to_key_events("<lt>"), vec![KeyPress::plain('<')]);
    assert_eq!(str_to_key_events("<gt>"), vec![KeyPress::plain('>')]);
    assert_eq!(str_to_key_events("<Space>x"), vec![KeyPress::plain(' '), KeyPress::plain('x')]);
    assert_eq!(str_to_key_events("<c-x>"), vec![KeyPress::control('x')]);
    assert_eq!(str_to_key_events("<C-w><C-l>"), vec![KeyPress::control('w'), KeyPress::control('l')]);
    assert_eq!(str_to_key_events("<C-ab>"), vec![]);
    assert_eq!(str_to_key_events("<Cxa>"), vec![]);
    assert_eq!(str_to_key_events("gg"), vec![KeyPress::plain('g'), KeyPress::plain('g')]);
    assert_eq!(str_to_key_events("<"), vec![KeyPress::plain('<')]);
    assert_eq!(str_to_key_events(""), vec![]);
}

#[test]
fn action_names_match_exactly() {
    assert_eq!(Action::from_name("MoveDown"), Some(Action::MoveDown));
    assert_eq!(Action::from_name("CreateDir"), Some(Action::CreateDir));
    assert_eq!(Action::from_name("movedown"), None);
    assert_eq!(Action::from_name(""), None);
}

#[test]
fn a_malformed_section_falls_back_alone() {
    let user = "[normal]\nj = Quit\n\n[visual\nj = Quit\n";
    let loaded = read_config(DEFAULT_CONFIG, Some(user));
    assert!(loaded.user_config_rejected);
    assert_eq!(lookup(&loaded.normal, &plain_keys("j")), Some(Action::Quit));
    assert_eq!(lookup(&loaded.visual, &plain_keys("j")), Some(Action::MoveDown));

    let user = "[normal]\n = Quit\n[visual]\nj = Quit\n";
    let loaded = read_config(DEFAULT_CONFIG, Some(user));
    assert!(loaded.user_config_rejected);
    assert_eq!(lookup(&loaded.normal, &plain_keys("j")), Some(Action::MoveDown));
    assert_eq!(lookup(&loaded.visual, &plain_keys("j")), Some(Action::Quit));
}

#[test]
fn repeated_sections_merge_in_order() {
    let user = "[normal]\nj = Quit\n[visual]\nk = Quit\n[normal]\nj = MoveUp\n";
    let loaded = read_config(DEFAULT_CONFIG, Some(user));
    assert!(!loaded.user_config_rejected);
    assert_eq!(lookup(&loaded.normal, &plain_keys("j")), Some(Action::MoveUp));
    assert_eq!(lookup(&loaded.visual, &plain_keys("k")), Some(Action::Quit));
}

#[test]
fn user_text_is_cut_before_section_headers() {
    assert_eq!(
        trooper::config::split_section_chunks("a = b\n[normal]\nj = Quit\n[visual]\n"),
        vec!["a = b\n", "[normal]\nj = Quit\n", "[visual]\n"]
    );
    assert_eq!(
        trooper::config::split_section_chunks("[normal]\n x[y\n"),
        vec!["[normal]\n x[y\n"]
    );
    assert_eq!(trooper::config::split_section_chunks(""), vec![""]);
}
