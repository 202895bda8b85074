use caprice::scanner::is_admitted;
use caprice::scanner::Event;
use caprice::scanner::KeyCode;
use caprice::scanner::KeyEvent;
use caprice::scanner::KeyModifiers;
use caprice::scanner::Scanner;
use caprice::scanner::TokenType;

fn plain() -> KeyModifiers {
    KeyModifiers { shift: false, control: false, alt: false }
}

fn key(code: KeyCode) -> Event {
    Event::Key(KeyEvent { code, modifiers: plain() })
}

fn ctrl(c: char) -> Event {
    Event::Key(KeyEvent {
        code: KeyCode::Char(c),
        modifiers: KeyModifiers { shift: false, control: true, alt: false },
    })
}

#[test]
fn characters_accumulate_in_the_line() {
    let mut scanner = Scanner::new();
    assert_eq!(scanner.scan(key(KeyCode::Char('a'))), TokenType::Continue("a".to_owned()));
    assert_eq!(scanner.scan(key(KeyCode::Char('_'))), TokenType::Continue("a_".to_owned()));
    assert_eq!(scanner.scan(key(KeyCode::Char('7'))), TokenType::Continue("a_7".to_owned()));
    assert_eq!(scanner.buffer(), "a_7");
}

#[test]
fn the_command_mark_is_admitted() {
    let mut scanner = Scanner::new();
    assert_eq!(scanner.scan(key(KeyCode::Char('/'))), TokenType::Continue("/".to_owned()));
    assert_eq!(scanner.scan_char('l'), TokenType::Continue("/l".to_owned()));
}

#[test]
fn other_characters_are_dropped() {
    let mut scanner = Scanner::new();
    scanner.scan(key(KeyCode::Char('a')));
    for c in [' ', '#', '-', '.', '\t', '\n', '!', '"'] {
        assert_eq!(scanner.scan(key(KeyCode::Char(c))), TokenType::Nothing);
        assert!(!is_admitted(c));
    }
    assert_eq!(scanner.buffer(), "a");
}

#[test]
fn alphanumeric_characters_beyond_ascii_are_admitted() {
    let mut scanner = Scanner::new();
    assert!(is_admitted('\u{e9}'));
    assert!(is_admitted('\u{663}'));
    assert_eq!(
        scanner.scan(key(KeyCode::Char('\u{e9}'))),
        TokenType::Continue("\u{e9}".to_owned())
    );
}

#[test]
fn an_admission_decided_elsewhere_is_followed() {
    let mut scanner = Scanner::new();
    assert_eq!(scanner.scan_admitted('#', true), TokenType::Continue("#".to_owned()));
    assert_eq!(scanner.scan_admitted('a', false), TokenType::Nothing);
    assert_eq!(scanner.buffer(), "#");
}

#[test]
fn backspace_reports_only_what_it_removed() {
    let mut scanner = Scanner::new();
    assert_eq!(scanner.scan(key(KeyCode::Backspace)), TokenType::Nothing);
    scanner.scan(key(KeyCode::Char('a')));
    scanner.scan(key(KeyCode::Char('b')));
    assert_eq!(scanner.scan(key(KeyCode::Backspace)), TokenType::BackSpace);
    assert_eq!(scanner.buffer(), "a");
    assert_eq!(scanner.scan_backspace(), TokenType::BackSpace);
    assert_eq!(scanner.scan_backspace(), TokenType::Nothing);
    assert_eq!(scanner.buffer(), "");
}

#[test]
fn tab_reports_the_line_and_keeps_it() {
    let mut scanner = Scanner::new();
    scanner.scan(key(KeyCode::Char('s')));
    scanner.scan(key(KeyCode::Char('o')));
    assert_eq!(scanner.scan(key(KeyCode::Tab)), TokenType::Tab("so".to_owned()));
    assert_eq!(scanner.scan_tab(), TokenType::Tab("so".to_owned()));
    assert_eq!(scanner.buffer(), "so");
}

#[test]
fn enter_reports_the_line_and_starts_a_new_one() {
    let mut scanner = Scanner::new();
    scanner.scan(key(KeyCode::Char('o')));
    scanner.scan(key(KeyCode::Char('k')));
    assert_eq!(scanner.scan(key(KeyCode::Enter)), TokenType::Token("ok".to_owned()));
    assert_eq!(scanner.buffer(), "");
    assert_eq!(scanner.scan_enter(), TokenType::Token(String::new()));
}

#[test]
fn the_interrupt_combination_exits_while_enabled() {
    let mut scanner = Scanner::new();
    assert!(scanner.ctrl_c_enabled());
    assert_eq!(scanner.scan(ctrl('c')), TokenType::Exit);
    assert_eq!(scanner.scan_ctrl_c(), TokenType::Exit);
    scanner.set_ctrl_c(false);
    assert_eq!(scanner.scan(ctrl('c')), TokenType::Nothing);
    assert_eq!(scanner.scan_ctrl_c(), TokenType::Nothing);
    assert_eq!(scanner.buffer(), "");
}

#[test]
fn control_with_other_keys_is_not_the_interrupt() {
    let mut scanner = Scanner::new();
    // control with another letter is that letter
    assert_eq!(scanner.scan(ctrl('d')), TokenType::Continue("d".to_owned()));
    // control and shift with c is the letter c
    let both = Event::Key(KeyEvent {
        code: KeyCode::Char('c'),
        modifiers: KeyModifiers { shift: true, control: true, alt: false },
    });
    assert_eq!(scanner.scan(both), TokenType::Continue("dc".to_owned()));
    let alt = Event::Key(KeyEvent {
        code: KeyCode::Char('c'),
        modifiers: KeyModifiers { shift: false, control: true, alt: true },
    });
    assert_eq!(scanner.scan(alt), TokenType::Continue("dcc".to_owned()));
}

#[test]
fn other_events_mean_nothing() {
    let mut scanner = Scanner::new();
    scanner.scan(key(KeyCode::Char('a')));
    assert_eq!(scanner.scan(key(KeyCode::Other)), TokenType::Nothing);
    assert_eq!(scanner.scan(Event::Other), TokenType::Nothing);
    assert_eq!(scanner.buffer(), "a");
}

#[test]
fn the_line_can_be_replaced_and_cleared() {
    let mut scanner = Scanner::new();
    scanner.update_buffer("some_word".to_owned());
    assert_eq!(scanner.buffer(), "some_word");
    assert_eq!(scanner.scan(key(KeyCode::Char('s'))), TokenType::Continue("some_words".to_owned()));
    scanner.clear_buffer();
    assert_eq!(scanner.buffer(), "");
    assert!(scanner.ctrl_c_enabled());
}
