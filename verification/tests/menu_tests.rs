use rmenu::config::Config;
use rmenu::errors::LaunchError;
use rmenu::index::AppEntry;
use rmenu::menu::{Action, Event, Key, Menu};

const CAP: usize = 10;

fn entry(name: &str, path: &str) -> AppEntry {
    AppEntry { name: name.to_string(), path: path.to_string() }
}

fn menu() -> Menu {
    let config = Config::load(None).unwrap();
    let mut m = Menu::new(config);
    m.load_applications(vec![
        entry("firefox", "/usr/bin/firefox"),
        entry("find", "/usr/bin/find"),
        entry("foo", "/bin/foo"),
    ]);
    m
}

fn press(m: &mut Menu, key: Key) -> Result<Action, LaunchError> {
    m.step(&Event::KeyPress(key), CAP)
}

fn release(m: &mut Menu, key: Key) -> Result<Action, LaunchError> {
    m.step(&Event::KeyRelease(key), CAP)
}

#[test]
fn modifier_upper_cases_only_while_held() {
    let mut m = menu();
    press(&mut m, Key::Printable('a')).unwrap();
    press(&mut m, Key::Modifier).unwrap();
    press(&mut m, Key::Printable('b')).unwrap();
    release(&mut m, Key::Modifier).unwrap();
    press(&mut m, Key::Printable('c')).unwrap();
    assert_eq!(m.query, "aBc");
}

#[test]
fn typing_narrows_the_match_list() {
    let mut m = menu();
    press(&mut m, Key::Printable('f')).unwrap();
    press(&mut m, Key::Printable('i')).unwrap();
    assert_eq!(m.query, "fi");
    assert_eq!(m.matches.len(), CAP);
    assert_eq!(m.matches[0].name, "find");
    assert_eq!(m.matches[1].name, "firefox");
    assert!(m.matches[2].name.is_empty());
}

#[test]
fn confirm_on_unresolvable_selection_fails_and_keeps_the_window() {
    let mut m = menu();
    for c in ['z', 'z', 'z'] {
        press(&mut m, Key::Printable(c)).unwrap();
    }
    let r = press(&mut m, Key::Confirm);
    assert_eq!(r, Err(LaunchError::NoSuchProgram));
    assert!(!m.should_close);
}

#[test]
fn confirm_launches_the_selected_entry_and_closes() {
    let mut m = menu();
    press(&mut m, Key::Printable('f')).unwrap();
    press(&mut m, Key::Printable('i')).unwrap();
    press(&mut m, Key::CursorRight).unwrap();
    let r = press(&mut m, Key::Confirm);
    assert_eq!(r, Ok(Action::Launch("/usr/bin/firefox".to_string())));
    assert!(m.should_close);
}

#[test]
fn escape_requests_close() {
    let mut m = menu();
    press(&mut m, Key::Escape).unwrap();
    assert!(m.should_close);
}

#[test]
fn cursor_stays_clamped_under_any_walk() {
    let mut m = menu();
    press(&mut m, Key::Printable('f')).unwrap();
    // two real matches: "find", "firefox"
    for _ in 0..7 {
        press(&mut m, Key::CursorRight).unwrap();
    }
    assert_eq!(m.selected, 2); // "find", "firefox", "foo"
    for _ in 0..9 {
        press(&mut m, Key::CursorLeft).unwrap();
    }
    assert_eq!(m.selected, 0);
    press(&mut m, Key::CursorLeft).unwrap();
    assert_eq!(m.selected, 0);
}

#[test]
fn cursor_right_on_empty_match_list_is_a_no_op() {
    let mut m = menu();
    press(&mut m, Key::Printable('q')).unwrap();
    press(&mut m, Key::CursorRight).unwrap();
    assert_eq!(m.selected, 0);
}

#[test]
fn appending_a_character_resets_the_cursor() {
    let mut m = menu();
    press(&mut m, Key::Printable('f')).unwrap();
    press(&mut m, Key::CursorRight).unwrap();
    assert_eq!(m.selected, 1);
    press(&mut m, Key::Printable('i')).unwrap();
    assert_eq!(m.selected, 0);
}

#[test]
fn removing_a_character_resets_the_cursor() {
    let mut m = menu();
    press(&mut m, Key::Printable('f')).unwrap();
    press(&mut m, Key::CursorRight).unwrap();
    assert_eq!(m.selected, 1);
    press(&mut m, Key::Backspace).unwrap();
    assert_eq!(m.selected, 0);
    assert_eq!(m.query, "");
}

#[test]
fn space_appends_and_resets_the_cursor() {
    let mut m = menu();
    press(&mut m, Key::Printable('f')).unwrap();
    press(&mut m, Key::CursorRight).unwrap();
    press(&mut m, Key::Space).unwrap();
    assert_eq!(m.query, "f ");
    assert_eq!(m.selected, 0);
}

#[test]
fn backspace_on_empty_query_is_harmless() {
    let mut m = menu();
    press(&mut m, Key::Backspace).unwrap();
    assert_eq!(m.query, "");
    assert_eq!(m.selected, 0);
}

#[test]
fn other_keys_change_nothing() {
    let mut m = menu();
    press(&mut m, Key::Printable('f')).unwrap();
    let query_before = m.query.clone();
    press(&mut m, Key::Other).unwrap();
    release(&mut m, Key::CursorLeft).unwrap();
    assert_eq!(m.query, query_before);
    assert_eq!(m.selected, 0);
    assert!(!m.should_close);
}

#[test]
fn releasing_another_key_keeps_the_modifier_held() {
    let mut m = menu();
    press(&mut m, Key::Modifier).unwrap();
    release(&mut m, Key::Other).unwrap();
    press(&mut m, Key::Printable('x')).unwrap();
    assert_eq!(m.query, "X");
}

#[test]
fn a_fresh_controller_is_fully_empty() {
    let m = Menu::new(Config::load(None).unwrap());
    assert_eq!(m.query, "");
    assert_eq!(m.selected, 0);
    assert!(!m.shift_held);
    assert!(!m.should_close);
    assert_eq!(m.matches.len(), 5);
    for e in &m.matches {
        assert!(e.name.is_empty());
        assert!(e.path.is_empty());
    }
}
