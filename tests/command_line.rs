use trooper::action::Action;
use trooper::command_line::{CommandLine, Submission};
use trooper::command_mode::CommandMode;
use trooper::text::split_words;

fn type_str(line: &mut CommandLine, s: &str) {
    for c in s.chars() {
        line.type_char(c);
    }
}

#[test]
fn command_table_lookup() {
    let commands = CommandMode::new();
    assert_eq!(commands.lookup("delete"), Some(Action::DeleteFile));
    assert_eq!(commands.lookup("up"), Some(Action::MoveUp));
    assert_eq!(commands.lookup("bookmark"), Some(Action::CreateBookmark));
    assert_eq!(commands.lookup("bm"), Some(Action::CreateBookmark));
    assert_eq!(commands.lookup("del_bookmark"), Some(Action::DeleteBookmark));
    assert_eq!(commands.lookup("dbm"), Some(Action::DeleteBookmark));
    assert_eq!(commands.lookup("mv"), Some(Action::MoveEntry));
    assert_eq!(commands.lookup("mkdir"), Some(Action::CreateDir));
    assert_eq!(commands.lookup("rm"), None);
    assert_eq!(commands.lookup(""), None);
}

#[test]
fn completions_are_sorted_prefix_matches() {
    let commands = CommandMode::new();
    assert_eq!(commands.completions("d"), vec!["dbm", "del_bookmark", "delete"]);
    assert_eq!(commands.completions("b"), vec!["bm", "bookmark"]);
    assert_eq!(commands.completions("x"), Vec::<String>::new());
    assert_eq!(commands.completions("").len(), 8);
}

#[test]
fn tab_cycles_through_matches_and_back() {
    let commands = CommandMode::new();
    let mut line = CommandLine::new();
    type_str(&mut line, "d");
    line.tab(&commands);
    assert_eq!(line.text, "dbm");
    line.tab(&commands);
    assert_eq!(line.text, "del_bookmark");
    line.tab(&commands);
    assert_eq!(line.text, "delete");
    line.tab(&commands);
    assert_eq!(line.text, "d");
    assert_eq!(line.completion_index, None);
    // the cycle starts again
    line.tab(&commands);
    assert_eq!(line.text, "dbm");
}

#[test]
fn tab_with_no_match_returns_at_once() {
    let commands = CommandMode::new();
    let mut line = CommandLine::new();
    type_str(&mut line, "zz");
    line.tab(&commands);
    assert_eq!(line.text, "zz");
    assert_eq!(line.completion_index, None);
}

#[test]
fn shift_tab_cycles_backward() {
    let commands = CommandMode::new();
    let mut line = CommandLine::new();
    type_str(&mut line, "m");
    line.back_tab(&commands);
    assert_eq!(line.text, "mv");
    line.back_tab(&commands);
    assert_eq!(line.text, "mkdir");
    line.back_tab(&commands);
    assert_eq!(line.text, "m");
    line.tab(&commands);
    assert_eq!(line.text, "mkdir");
}

#[test]
fn typing_ends_a_completion_cycle() {
    let commands = CommandMode::new();
    let mut line = CommandLine::new();
    type_str(&mut line, "b");
    line.tab(&commands);
    assert_eq!(line.text, "bm");
    line.type_char(' ');
    assert_eq!(line.text, "bm ");
    assert_eq!(line.completion_index, None);
    assert!(line.matches.is_empty());
}

#[test]
fn escape_cancels_a_completion_first() {
    let commands = CommandMode::new();
    let mut line = CommandLine::new();
    type_str(&mut line, "mk");
    line.tab(&commands);
    assert_eq!(line.text, "mkdir");
    assert!(line.escape());
    assert_eq!(line.text, "mk");
    assert_eq!(line.completion_index, None);
    assert!(line.matches.is_empty());
    assert!(!line.escape());
    assert_eq!(line.text, "");
}

#[test]
fn enter_accepts_a_highlighted_completion() {
    let commands = CommandMode::new();
    let mut line = CommandLine::new();
    type_str(&mut line, "mk");
    line.tab(&commands);
    match line.submit(&commands) {
        Submission::Completed => {}
        _ => panic!("a completion should be accepted"),
    }
    assert_eq!(line.text, "mkdir");
    assert!(line.history.is_empty());
    type_str(&mut line, " new");
    match line.submit(&commands) {
        Submission::Run { action, args } => {
            assert_eq!(action, Some(Action::CreateDir));
            assert_eq!(args, vec!["new"]);
        }
        _ => panic!("the command should run"),
    }
}

#[test]
fn history_browsing_restores_typed_text() {
    let commands = CommandMode::new();
    let mut line = CommandLine::new();
    type_str(&mut line, "abc");
    line.submit(&commands);
    type_str(&mut line, "d");
    line.up();
    assert_eq!(line.text, "abc");
    line.down();
    assert_eq!(line.text, "d");
}

#[test]
fn history_goes_back_and_stops_at_the_oldest() {
    let commands = CommandMode::new();
    let mut line = CommandLine::new();
    for s in ["one", "two", "three"] {
        type_str(&mut line, s);
        line.submit(&commands);
    }
    line.up();
    assert_eq!(line.text, "three");
    line.up();
    assert_eq!(line.text, "two");
    line.up();
    assert_eq!(line.text, "one");
    line.up();
    assert_eq!(line.text, "one");
    line.down();
    assert_eq!(line.text, "two");
    line.down();
    line.down();
    assert_eq!(line.text, "");
    line.down();
    assert_eq!(line.text, "");
}

#[test]
fn unknown_commands_still_enter_history() {
    let commands = CommandMode::new();
    let mut line = CommandLine::new();
    type_str(&mut line, "frobnicate now");
    match line.submit(&commands) {
        Submission::Run { action, args } => {
            assert_eq!(action, None);
            assert_eq!(args, vec!["now"]);
        }
        _ => panic!("the text should be submitted"),
    }
    assert_eq!(line.history, vec!["frobnicate now"]);
    assert_eq!(line.text, "");
}

#[test]
fn backspace_removes_the_last_character() {
    let mut line = CommandLine::new();
    line.backspace();
    assert_eq!(line.text, "");
    type_str(&mut line, "mvé");
    line.backspace();
    assert_eq!(line.text, "mv");
}

#[test]
fn words_split_on_whitespace() {
    assert_eq!(split_words("mv  a\tb "), vec!["mv", "a", "b"]);
    assert_eq!(split_words("   "), Vec::<String>::new());
    assert_eq!(split_words("mkdir"), vec!["mkdir"]);
}
