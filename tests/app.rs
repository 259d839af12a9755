use trooper::app::{ActiveMode, App, Bookmark, Effect, Focus};
use trooper::config::{read_config, DEFAULT_CONFIG};
use trooper::files::YankMode;
use trooper::keys::{KeyCode, KeyPress};
use trooper::listing::Entry;
use trooper::ui::ActivePanel;

fn entry(dir: &str, name: &str, is_dir: bool) -> Entry {
    Entry {
        name: name.to_string(),
        path: format!("{}/{}", dir, name),
        is_dir,
        is_file: !is_dir,
    }
}

fn listing(dir: &str) -> Vec<Entry> {
    vec![
        entry(dir, "docs", true),
        entry(dir, "src", true),
        entry(dir, "a.txt", false),
        entry(dir, "b.txt", false),
        entry(dir, ".env", false),
    ]
}

fn started() -> App {
    let mut app = App::new(
        "Files".to_string(),
        "/home/u".to_string(),
        read_config(DEFAULT_CONFIG, None),
    );
    app.ui.height = 10;
    let fx = app.init(vec![]);
    assert_eq!(fx.len(), 1);
    app.dir_read("/home/u".to_string(), listing("/home/u"), Focus::Top);
    app
}

fn keys(app: &mut App, s: &str) -> Vec<Effect> {
    let mut all = Vec::new();
    for c in s.chars() {
        all.extend(app.handle_key(KeyPress::plain(c)));
    }
    all
}

fn key(app: &mut App, code: KeyCode) -> Vec<Effect> {
    app.handle_key(KeyPress::new(code, false, false, false))
}

#[test]
fn listing_hides_dot_files_by_default() {
    let app = started();
    let names: Vec<&str> = app.dir_contents.iter().map(|e| e.name.as_str()).collect();
    assert_eq!(names, vec!["docs", "src", "a.txt", "b.txt"]);
}

#[test]
fn moving_and_yanking() {
    let mut app = started();
    keys(&mut app, "jj");
    assert_eq!(app.ui.cursor_y, 2);
    keys(&mut app, "yy");
    assert_eq!(app.yank.paths, vec!["/home/u/a.txt"]);
    assert_eq!(app.yank.mode, Some(YankMode::Copying));
    keys(&mut app, "G");
    assert_eq!(app.ui.cursor_y, 3);
    keys(&mut app, "gg");
    assert_eq!(app.ui.cursor_y, 0);
    keys(&mut app, "k");
    assert_eq!(app.ui.cursor_y, 0);
}

#[test]
fn paste_asks_for_a_paste_and_a_refresh() {
    let mut app = started();
    assert!(keys(&mut app, "p").is_empty());
    keys(&mut app, "jjdd");
    assert_eq!(app.yank.mode, Some(YankMode::Cutting));
    let fx = keys(&mut app, "p");
    assert_eq!(fx.len(), 2);
    match &fx[0] {
        Effect::Paste { dir, paths, mode } => {
            assert_eq!(dir, "/home/u");
            assert_eq!(paths, &vec!["/home/u/a.txt".to_string()]);
            assert_eq!(*mode, YankMode::Cutting);
        }
        _ => panic!("expected a paste"),
    }
    match &fx[1] {
        Effect::ReadDir { path, focus: Focus::Keep } => assert_eq!(path, "/home/u"),
        _ => panic!("expected a refresh"),
    }
}

#[test]
fn visual_mode_selects_a_range() {
    let mut app = started();
    keys(&mut app, "jv");
    assert_eq!(app.active_mode, ActiveMode::Visual);
    assert_eq!(app.anchor, 1);
    keys(&mut app, "jjyy");
    assert_eq!(app.yank.paths, vec!["/home/u/src", "/home/u/a.txt", "/home/u/b.txt"]);
    keys(&mut app, "kkk");
    let fx = keys(&mut app, "dd");
    assert!(fx.is_empty());
    assert_eq!(app.yank.paths, vec!["/home/u/docs", "/home/u/src"]);
    key(&mut app, KeyCode::Esc);
    assert_eq!(app.active_mode, ActiveMode::Normal);
}

#[test]
fn delete_command_targets_the_selection() {
    let mut app = started();
    keys(&mut app, "j:delete");
    assert_eq!(app.active_mode, ActiveMode::Command);
    let fx = key(&mut app, KeyCode::Enter);
    assert_eq!(app.active_mode, ActiveMode::Normal);
    match &fx[0] {
        Effect::Delete { targets } => {
            assert_eq!(targets.len(), 1);
            assert_eq!(targets[0].path, "/home/u/src");
            assert!(targets[0].is_dir);
        }
        _ => panic!("expected a delete"),
    }
    assert_eq!(app.command_line.history, vec!["delete"]);
}

#[test]
fn mkdir_and_mv_commands() {
    let mut app = started();
    keys(&mut app, ":mkdir new /abs");
    let fx = key(&mut app, KeyCode::Enter);
    match &fx[0] {
        Effect::MakeDirs { paths } => assert_eq!(paths, &vec!["/home/u/new".to_string(), "/abs".to_string()]),
        _ => panic!("expected mkdir"),
    }
    keys(&mut app, "jj:mv c.txt");
    let fx = key(&mut app, KeyCode::Enter);
    match &fx[0] {
        Effect::Rename { from, to } => {
            assert_eq!(from, "/home/u/a.txt");
            assert_eq!(to, "/home/u/c.txt");
        }
        _ => panic!("expected a rename"),
    }
    keys(&mut app, ":mv");
    assert!(key(&mut app, KeyCode::Enter).is_empty());
}

#[test]
fn entering_and_leaving_directories() {
    let mut app = started();
    let fx = keys(&mut app, "l");
    match &fx[0] {
        Effect::ReadDir { path, focus: Focus::Top } => assert_eq!(path, "/home/u/docs"),
        _ => panic!("expected a read"),
    }
    app.dir_read("/home/u/docs".to_string(), vec![], Focus::Top);
    assert_eq!(app.current_dir, "/home/u/docs");
    let fx = keys(&mut app, "h");
    match &fx[0] {
        Effect::ReadDir { path, focus: Focus::Name(n) } => {
            assert_eq!(path, "/home/u");
            assert_eq!(n, "docs");
        }
        _ => panic!("expected a read of the parent"),
    }
    app.dir_read("/home/u".to_string(), listing("/home/u"), Focus::Name("src".to_string()));
    assert_eq!(app.ui.cursor_y, 1);
    // entering a file does nothing
    keys(&mut app, "j");
    assert!(keys(&mut app, "l").is_empty());
}

#[test]
fn toggling_hidden_files_refreshes() {
    let mut app = started();
    let fx = keys(&mut app, "z");
    assert!(app.show_hidden_files);
    assert_eq!(fx.len(), 1);
    app.dir_read("/home/u".to_string(), listing("/home/u"), Focus::Keep);
    assert_eq!(app.dir_contents.len(), 5);
    assert_eq!(app.dir_contents[2].name, ".env");
}

#[test]
fn bookmarks_panel() {
    let mut app = started();
    app.init(vec![Bookmark { name: "projects".to_string(), path: "/p".to_string() }]);
    keys(&mut app, ":bm");
    key(&mut app, KeyCode::Enter);
    assert_eq!(app.bookmarks.len(), 2);
    assert_eq!(app.bookmarks[1].name, "u");
    assert_eq!(app.bookmarks[1].path, "/home/u");
    assert_eq!(app.ui.bookmark_width, 16);
    keys(&mut app, "b");
    assert_eq!(app.active_panel, ActivePanel::Bookmarks);
    keys(&mut app, "j");
    assert_eq!(app.ui.bookmark_y, 1);
    keys(&mut app, ":dbm");
    key(&mut app, KeyCode::Enter);
    assert_eq!(app.bookmarks.len(), 1);
    let fx = keys(&mut app, "kl");
    assert_eq!(app.active_panel, ActivePanel::Main);
    match &fx[0] {
        Effect::ReadDir { path, .. } => assert_eq!(path, "/p"),
        _ => panic!("expected a read"),
    }
}

#[test]
fn quitting() {
    let mut app = started();
    keys(&mut app, "q");
    assert!(app.should_quit);
}

#[test]
fn command_mode_keys_do_not_trigger_bindings() {
    let mut app = started();
    keys(&mut app, ":jq");
    assert!(!app.should_quit);
    assert_eq!(app.command_line.text, "jq");
    key(&mut app, KeyCode::Backspace);
    assert_eq!(app.command_line.text, "j");
    key(&mut app, KeyCode::Esc);
    assert_eq!(app.active_mode, ActiveMode::Normal);
    assert_eq!(app.command_line.text, "");
    assert_eq!(app.ui.cursor_y, 0);
}

#[test]
fn tab_completes_in_command_mode() {
    let mut app = started();
    keys(&mut app, ":de");
    key(&mut app, KeyCode::Tab);
    assert_eq!(app.command_line.text, "del_bookmark");
    key(&mut app, KeyCode::BackTab);
    assert_eq!(app.command_line.text, "de");
    app.handle_key(KeyPress::new(KeyCode::Tab, false, true, false));
    assert_eq!(app.command_line.text, "delete");
}

#[test]
fn command_history_survives_leaving_command_mode() {
    let mut app = started();
    keys(&mut app, ":abc");
    key(&mut app, KeyCode::Enter);
    keys(&mut app, ":d");
    key(&mut app, KeyCode::Up);
    assert_eq!(app.command_line.text, "abc");
    key(&mut app, KeyCode::Down);
    assert_eq!(app.command_line.text, "d");
}
