use sawdust::buffer::TextBuffer;
use sawdust::cursor::Mode;
use sawdust::cursor::clamped_column;
use sawdust::editor::EditError;
use sawdust::editor::HostAction;
use sawdust::editor::Key;
use sawdust::editor::KeyInput;
use sawdust::editor::SawdustApp;

fn chars(s: &str) -> Vec<char> {
    s.chars().collect()
}

fn string_of(cs: &[char]) -> String {
    cs.iter().collect()
}

fn app_with(lines: Vec<&str>) -> SawdustApp {
    let mut rows: Vec<Vec<char>> = Vec::new();
    for l in lines {
        rows.push(chars(l));
    }
    SawdustApp::with_buffer(TextBuffer::from_lines(rows))
}

fn press(app: &mut SawdustApp, code: Key) -> HostAction {
    app.handle_key_input(KeyInput { code, press: true }).unwrap()
}

fn line_str(app: &SawdustApp, i: usize) -> String {
    string_of(&app.text().line(i))
}

#[test]
fn clamp_normal_on_empty_line_is_zero() {
    assert_eq!(clamped_column(Mode::Normal, 0, 0), 0);
    assert_eq!(clamped_column(Mode::Normal, 0, 7), 0);
}

#[test]
fn clamp_rules_differ_by_mode() {
    assert_eq!(clamped_column(Mode::Normal, 5, 9), 4);
    assert_eq!(clamped_column(Mode::Insert, 5, 9), 5);
    assert_eq!(clamped_column(Mode::Replace, 5, 9), 4);
    assert_eq!(clamped_column(Mode::Normal, 5, 2), 2);
    assert_eq!(clamped_column(Mode::Insert, 5, 2), 2);
}

#[test]
fn get_col_in_line_on_empty_line_in_normal_mode() {
    let app = app_with(vec![""]);
    assert_eq!(app.get_col_in_line(), 0);
}

#[test]
fn new_session_starts_in_normal_mode_at_origin() {
    let app = SawdustApp::new();
    assert_eq!(app.mode(), Mode::Normal);
    assert_eq!(app.current_line(), 0);
    assert_eq!(app.current_col(), 0);
    assert_eq!(app.top_line(), 0);
    assert_eq!(app.text().line_count(), 1);
}

#[test]
fn l_stops_at_last_character() {
    let mut app = app_with(vec!["abc"]);
    for _ in 0..5 {
        press(&mut app, Key::Char('l'));
    }
    assert_eq!(app.current_col(), 2);
}

#[test]
fn h_snaps_then_decrements() {
    let mut app = app_with(vec!["abcdefghij", "abc"]);
    for _ in 0..9 {
        press(&mut app, Key::Char('l'));
    }
    assert_eq!(app.current_col(), 9);
    press(&mut app, Key::Char('j'));
    assert_eq!(app.current_line(), 1);
    press(&mut app, Key::Char('h'));
    assert_eq!(app.current_col(), 1);
}

#[test]
fn h_at_column_zero_stays() {
    let mut app = app_with(vec!["abc"]);
    press(&mut app, Key::Char('h'));
    assert_eq!(app.current_col(), 0);
}

#[test]
fn j_and_k_clamp_to_document() {
    let mut app = app_with(vec!["a", "b"]);
    press(&mut app, Key::Char('k'));
    assert_eq!(app.current_line(), 0);
    press(&mut app, Key::Char('j'));
    assert_eq!(app.current_line(), 1);
    press(&mut app, Key::Char('j'));
    assert_eq!(app.current_line(), 1);
    press(&mut app, Key::Char('k'));
    assert_eq!(app.current_line(), 0);
}

#[test]
fn i_enters_insert_at_clamped_column() {
    let mut app = app_with(vec!["abc"]);
    press(&mut app, Key::Char('l'));
    press(&mut app, Key::Char('l'));
    let action = press(&mut app, Key::Char('i'));
    assert_eq!(app.mode(), Mode::Insert);
    assert_eq!(app.current_col(), 2);
    assert_eq!(action, HostAction::CursorBar);
}

#[test]
fn capital_a_appends_at_end_of_line() {
    let mut app = app_with(vec!["abcd"]);
    let action = press(&mut app, Key::Char('A'));
    assert_eq!(app.mode(), Mode::Insert);
    assert_eq!(app.current_col(), 4);
    assert_eq!(action, HostAction::CursorBar);
    press(&mut app, Key::Char('x'));
    assert_eq!(line_str(&app, 0), "abcdx");
    assert_eq!(app.current_col(), 5);
}

#[test]
fn capital_i_inserts_at_line_start() {
    let mut app = app_with(vec!["abc"]);
    press(&mut app, Key::Char('l'));
    press(&mut app, Key::Char('I'));
    assert_eq!(app.mode(), Mode::Insert);
    assert_eq!(app.current_col(), 0);
    press(&mut app, Key::Char('z'));
    assert_eq!(line_str(&app, 0), "zabc");
}

#[test]
fn escape_returns_to_normal_with_block_cursor() {
    let mut app = app_with(vec!["abc"]);
    press(&mut app, Key::Char('i'));
    let action = press(&mut app, Key::Esc);
    assert_eq!(app.mode(), Mode::Normal);
    assert_eq!(action, HostAction::CursorBlock);
}

#[test]
fn typed_characters_insert_and_advance() {
    let mut app = app_with(vec!["ac"]);
    press(&mut app, Key::Char('l'));
    press(&mut app, Key::Char('i'));
    assert_eq!(app.current_col(), 1);
    press(&mut app, Key::Char('b'));
    assert_eq!(line_str(&app, 0), "abc");
    assert_eq!(app.current_col(), 2);
}

#[test]
fn backspace_deletes_before_cursor() {
    let mut app = app_with(vec!["abc"]);
    press(&mut app, Key::Char('A'));
    press(&mut app, Key::Backspace);
    assert_eq!(line_str(&app, 0), "ab");
    assert_eq!(app.current_col(), 2);
}

#[test]
fn backspace_at_column_zero_merges_lines() {
    let mut app = app_with(vec!["foo", "bar"]);
    press(&mut app, Key::Char('j'));
    press(&mut app, Key::Char('I'));
    assert_eq!(app.current_line(), 1);
    assert_eq!(app.current_col(), 0);
    press(&mut app, Key::Backspace);
    assert_eq!(app.text().line_count(), 1);
    assert_eq!(line_str(&app, 0), "foobar");
    assert_eq!(app.current_line(), 0);
    assert_eq!(app.current_col(), 3);
}

#[test]
fn backspace_merge_into_empty_line_keeps_column_zero() {
    let mut app = app_with(vec!["", "x"]);
    press(&mut app, Key::Char('j'));
    press(&mut app, Key::Char('I'));
    press(&mut app, Key::Backspace);
    assert_eq!(app.text().line_count(), 1);
    assert_eq!(line_str(&app, 0), "x");
    assert_eq!(app.current_line(), 0);
    assert_eq!(app.current_col(), 0);
}

#[test]
fn backspace_at_document_start_does_nothing() {
    let mut app = app_with(vec!["abc"]);
    press(&mut app, Key::Char('I'));
    press(&mut app, Key::Backspace);
    assert_eq!(line_str(&app, 0), "abc");
    assert_eq!(app.current_line(), 0);
    assert_eq!(app.current_col(), 0);
}

#[test]
fn enter_splits_line_at_cursor() {
    let mut app = app_with(vec!["hello"]);
    press(&mut app, Key::Char('l'));
    press(&mut app, Key::Char('l'));
    press(&mut app, Key::Char('i'));
    press(&mut app, Key::Enter);
    assert_eq!(app.text().line_count(), 2);
    assert_eq!(line_str(&app, 0), "he");
    assert_eq!(line_str(&app, 1), "llo");
    assert_eq!(app.current_line(), 1);
    assert_eq!(app.current_col(), 0);
}

#[test]
fn replace_overwrites_without_advancing() {
    let mut app = app_with(vec!["abc"]);
    press(&mut app, Key::Char('r'));
    assert_eq!(app.mode(), Mode::Replace);
    press(&mut app, Key::Char('X'));
    assert_eq!(line_str(&app, 0), "Xbc");
    assert_eq!(app.current_col(), 0);
    press(&mut app, Key::Char('Y'));
    assert_eq!(line_str(&app, 0), "Ybc");
    press(&mut app, Key::Esc);
    assert_eq!(app.mode(), Mode::Normal);
}

#[test]
fn replace_on_empty_line_is_refused() {
    let mut app = app_with(vec![""]);
    press(&mut app, Key::Char('r'));
    assert!(!app.accepts(KeyInput { code: Key::Char('x'), press: true }));
    assert!(app.accepts(KeyInput { code: Key::Char('x'), press: false }));
    assert!(app.accepts(KeyInput { code: Key::Esc, press: true }));
}

#[test]
fn q_enters_quit_and_keys_are_ignored() {
    let mut app = app_with(vec!["abc"]);
    press(&mut app, Key::Char('q'));
    assert_eq!(app.mode(), Mode::Quit);
    press(&mut app, Key::Char('l'));
    assert_eq!(app.current_col(), 0);
    assert_eq!(app.mode(), Mode::Quit);
}

#[test]
fn w_requests_a_save() {
    let mut app = app_with(vec!["abc"]);
    let action = press(&mut app, Key::Char('w'));
    assert_eq!(action, HostAction::Save);
    assert_eq!(app.mode(), Mode::Normal);
    assert_eq!(line_str(&app, 0), "abc");
}

#[test]
fn undo_and_command_mode_are_reported_unsupported() {
    let mut app = app_with(vec!["abc"]);
    let r = app.handle_key_input(KeyInput { code: Key::Char('u'), press: true });
    assert_eq!(r, Err(EditError::Unsupported));
    let r = app.handle_key_input(KeyInput { code: Key::Char(':'), press: true });
    assert_eq!(r, Err(EditError::Unsupported));
    assert_eq!(app.mode(), Mode::Normal);
    assert_eq!(line_str(&app, 0), "abc");
}

#[test]
fn release_events_are_ignored() {
    let mut app = app_with(vec!["abc"]);
    let r = app.handle_key_input(KeyInput { code: Key::Char('i'), press: false }).unwrap();
    assert_eq!(r, HostAction::Idle);
    assert_eq!(app.mode(), Mode::Normal);
    assert_eq!(app.current_col(), 0);
}

#[test]
fn unrecognized_keys_are_noops_in_normal_mode() {
    let mut app = app_with(vec!["abc"]);
    let r = press(&mut app, Key::Char('z'));
    assert_eq!(r, HostAction::Idle);
    assert_eq!(app.mode(), Mode::Normal);
    let r = press(&mut app, Key::Enter);
    assert_eq!(r, HostAction::Idle);
    assert_eq!(line_str(&app, 0), "abc");
}

#[test]
fn mode_switch_changes_effective_column_without_desired_change() {
    let mut app = app_with(vec!["abcde"]);
    press(&mut app, Key::Char('A'));
    assert_eq!(app.current_col(), 5);
    assert_eq!(app.get_col_in_line(), 5);
    press(&mut app, Key::Esc);
    assert_eq!(app.current_col(), 5);
    assert_eq!(app.get_col_in_line(), 4);
}

#[test]
fn cursor_position_adds_gutter_margin() {
    let mut app = app_with(vec!["abc", "d"]);
    let (x, y) = app.cursor_position();
    assert_eq!((x, y), (4, 0));
    press(&mut app, Key::Char('l'));
    press(&mut app, Key::Char('j'));
    let (x, y) = app.cursor_position();
    assert_eq!(x, 4);
    assert_eq!(y, 1);
}
