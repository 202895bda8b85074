//! The key scanner: turns one key event into one logical edit event, keeping its own copy
//! of the text typed so far.

use crate::text::char_is_alphanumeric;
use vstd::prelude::*;

verus! {

/// The keys the scanner tells apart.
#[derive(Clone, Copy, Debug, PartialEq, Eq)]
pub enum KeyCode {
    /// The backspace key.
    Backspace,
    /// The enter key.
    Enter,
    /// The tab key.
    Tab,
    /// A character key.
    Char(char),
    /// Any other key.
    Other,
}

/// The modifier keys held down with a key.
#[derive(Clone, Copy, Debug, PartialEq, Eq)]
pub struct KeyModifiers {
    /// Shift is held.
    pub shift: bool,
    /// Control is held.
    pub control: bool,
    /// Alt is held.
    pub alt: bool,
}

/// A key press.
#[derive(Clone, Copy, Debug, PartialEq, Eq)]
pub struct KeyEvent {
    /// The key.
    pub code: KeyCode,
    /// The modifiers held with it.
    pub modifiers: KeyModifiers,
}

/// A terminal event.
#[derive(Clone, Copy, Debug, PartialEq, Eq)]
pub enum Event {
    /// A key press.
    Key(KeyEvent),
    /// Anything else: mouse input, a resize.
    Other,
}

/// What one key event means for the line being edited.
#[derive(Debug, PartialEq, Eq)]
pub enum TokenType {
    /// Enter: the line as typed.
    Token(String),
    /// A character was removed from the end of the line.
    BackSpace,
    /// A character was accepted; the line with it.
    Continue(String),
    /// Tab: the line as it stands.
    Tab(String),
    /// The interrupt combination, while it is enabled.
    Exit,
    /// Nothing happened.
    Nothing,
}

/// A logical edit event as plain values.
pub enum TokenView {
    /// Enter: the line as typed.
    Token(Seq<char>),
    /// A character was removed from the end of the line.
    BackSpace,
    /// A character was accepted; the line with it.
    Continue(Seq<char>),
    /// Tab: the line as it stands.
    Tab(Seq<char>),
    /// The interrupt combination, while it is enabled.
    Exit,
    /// Nothing happened.
    Nothing,
}

impl View for TokenType {
    type V = TokenView;

    open spec fn view(&self) -> TokenView {
        match self {
            TokenType::Token(line) => TokenView::Token(line@),
            TokenType::BackSpace => TokenView::BackSpace,
            TokenType::Continue(line) => TokenView::Continue(line@),
            TokenType::Tab(line) => TokenView::Tab(line@),
            TokenType::Exit => TokenView::Exit,
            TokenType::Nothing => TokenView::Nothing,
        }
    }
}

/// The state of a scanner as plain values.
pub struct ScannerView {
    /// The text typed so far.
    pub buffer: Seq<char>,
    /// Whether the interrupt combination ends the session.
    pub enable_ctrl_c: bool,
}

/// The key scanner.
#[derive(Debug)]
pub struct Scanner {
    buffer: String,
    enable_ctrl_c: bool,
}

impl View for Scanner {
    type V = ScannerView;

    closed spec fn view(&self) -> ScannerView {
        ScannerView { buffer: self.buffer@, enable_ctrl_c: self.enable_ctrl_c }
    }
}

/// The mark that starts a built-in command.
pub const COMMAND_MARK: char = '/';

/// Whether a character with the given classification may enter the line: alphanumeric
/// characters, the underscore and the command mark.
pub open spec fn admits_as(c: char, alphanumeric: bool) -> bool {
    alphanumeric || c == COMMAND_MARK || c == '_'
}

/// Whether `c` may enter the line.
pub open spec fn admits(c: char) -> bool {
    admits_as(c, char_is_alphanumeric(c))
}

/// Whether the key is the interrupt combination: `c` with control and nothing else.
pub open spec fn is_interrupt(key: KeyEvent) -> bool {
    key.code == KeyCode::Char('c') && key.modifiers.control && !key.modifiers.shift
        && !key.modifiers.alt
}

/// The scanner after a character with the given admission, and the event it reports.
pub open spec fn scanned_char(s: ScannerView, c: char, admitted: bool) -> (
    ScannerView,
    TokenView,
) {
    if admitted {
        (ScannerView { buffer: s.buffer.push(c), ..s }, TokenView::Continue(s.buffer.push(c)))
    } else {
        (s, TokenView::Nothing)
    }
}

/// The scanner after a backspace, and the event it reports.
pub open spec fn scanned_backspace(s: ScannerView) -> (ScannerView, TokenView) {
    if s.buffer.len() > 0 {
        (ScannerView { buffer: s.buffer.drop_last(), ..s }, TokenView::BackSpace)
    } else {
        (s, TokenView::Nothing)
    }
}

/// The scanner after enter, and the event it reports.
pub open spec fn scanned_enter(s: ScannerView) -> (ScannerView, TokenView) {
    (ScannerView { buffer: Seq::empty(), ..s }, TokenView::Token(s.buffer))
}

/// The event reported for the interrupt combination.
pub open spec fn scanned_ctrl_c(s: ScannerView) -> TokenView {
    if s.enable_ctrl_c {
        TokenView::Exit
    } else {
        TokenView::Nothing
    }
}

/// The scanner after an event, and the logical event it reports.
pub open spec fn scanned(s: ScannerView, event: Event) -> (ScannerView, TokenView) {
    match event {
        Event::Key(key) => match key.code {
            KeyCode::Tab => (s, TokenView::Tab(s.buffer)),
            KeyCode::Enter => scanned_enter(s),
            KeyCode::Char(c) => if is_interrupt(key) {
                (s, scanned_ctrl_c(s))
            } else {
                scanned_char(s, c, admits(c))
            },
            KeyCode::Backspace => scanned_backspace(s),
            KeyCode::Other => (s, TokenView::Nothing),
        },
        Event::Other => (s, TokenView::Nothing),
    }
}

/// The line changes one character at a time, and only admitted characters enter it: after
/// an event the line is what it was, or what it was with one admitted character more, or
/// with its last character less, or empty after Enter.
pub proof fn lemma_only_admitted_characters_enter(s: ScannerView, event: Event)
    ensures
        ({
            let after = scanned(s, event).0.buffer;
            ||| after == s.buffer
            ||| exists|c: char| admits(c) && after == #[trigger] s.buffer.push(c)
            ||| s.buffer.len() > 0 && after == s.buffer.drop_last()
            ||| after.len() == 0
        }),
        scanned(s, event).0.enable_ctrl_c == s.enable_ctrl_c,
{
    match event {
        Event::Key(key) => match key.code {
            KeyCode::Char(c) => {
                if !is_interrupt(key) && admits(c) {
                    assert(scanned(s, event).0.buffer == s.buffer.push(c));
                }
            },
            _ => {},
        },
        Event::Other => {},
    }
}

/// Whether `c` may enter the line.
pub fn is_admitted(c: char) -> (r: bool)
    ensures
        r == admits(c),
{
    c.is_alphanumeric() || c == COMMAND_MARK || c == '_'
}

impl Scanner {
    /// A scanner with an empty line, on which the interrupt combination ends the session.
    pub fn new() -> (r: Self)
        ensures
            r@ == (ScannerView { buffer: Seq::empty(), enable_ctrl_c: true }),
    {
        Scanner { buffer: String::new(), enable_ctrl_c: true }
    }

    /// The text typed so far.
    pub fn buffer(&self) -> (r: &String)
        ensures
            r@ == self@.buffer,
    {
        &self.buffer
    }

    /// Whether the interrupt combination ends the session.
    pub fn ctrl_c_enabled(&self) -> (r: bool)
        ensures
            r == self@.enable_ctrl_c,
    {
        self.enable_ctrl_c
    }

    /// Chooses whether the interrupt combination ends the session.
    pub fn set_ctrl_c(&mut self, enabled: bool)
        ensures
            final(self)@ == (ScannerView { enable_ctrl_c: enabled, ..old(self)@ }),
    {
        self.enable_ctrl_c = enabled;
    }

    /// Classifies one terminal event.
    pub fn scan(&mut self, input_event: Event) -> (r: TokenType)
        ensures
            (final(self)@, r@) == scanned(old(self)@, input_event),
    {
        match input_event {
            Event::Key(key) => match key.code {
                KeyCode::Tab => self.scan_tab(),
                KeyCode::Enter => self.scan_enter(),
                KeyCode::Char(c) => {
                    if c == 'c' && key.modifiers.control && !key.modifiers.shift
                        && !key.modifiers.alt {
                        self.scan_ctrl_c()
                    } else {
                        self.scan_char(c)
                    }
                },
                KeyCode::Backspace => self.scan_backspace(),
                KeyCode::Other => TokenType::Nothing,
            },
            Event::Other => TokenType::Nothing,
        }
    }

    /// Backspace: removes the last character, if there is one.
    pub fn scan_backspace(&mut self) -> (r: TokenType)
        ensures
            (final(self)@, r@) == scanned_backspace(old(self)@),
    {
        match self.buffer.pop() {
            Some(_) => TokenType::BackSpace,
            None => TokenType::Nothing,
        }
    }

    /// The interrupt combination: ends the session while that is enabled.
    pub fn scan_ctrl_c(&self) -> (r: TokenType)
        ensures
            r@ == scanned_ctrl_c(self@),
    {
        if self.enable_ctrl_c {
            TokenType::Exit
        } else {
            TokenType::Nothing
        }
    }

    /// Tab: reports the line as it stands.
    pub fn scan_tab(&mut self) -> (r: TokenType)
        ensures
            final(self)@ == old(self)@,
            r@ == TokenView::Tab(old(self)@.buffer),
    {
        TokenType::Tab(self.buffer.clone())
    }

    /// Enter: reports the line and starts a new one.
    pub fn scan_enter(&mut self) -> (r: TokenType)
        ensures
            (final(self)@, r@) == scanned_enter(old(self)@),
    {
        let token: String = self.buffer.clone();
        self.buffer = String::new();
        TokenType::Token(token)
    }

    /// A character key: appends the character if it is admitted.
    pub fn scan_char(&mut self, c: char) -> (r: TokenType)
        ensures
            (final(self)@, r@) == scanned_char(old(self)@, c, admits(c)),
    {
        let admitted: bool = is_admitted(c);
        self.scan_admitted(c, admitted)
    }

    /// A character key whose admission has been decided: appends the character if it was
    /// admitted.
    pub fn scan_admitted(&mut self, c: char, admitted: bool) -> (r: TokenType)
        ensures
            (final(self)@, r@) == scanned_char(old(self)@, c, admitted),
    {
        if admitted {
            self.buffer.push(c);
            TokenType::Continue(self.buffer.clone())
        } else {
            TokenType::Nothing
        }
    }

    /// Replaces the text typed so far.
    pub fn update_buffer(&mut self, new_buffer: String)
        ensures
            final(self)@ == (ScannerView { buffer: new_buffer@, ..old(self)@ }),
    {
        self.buffer = new_buffer;
    }

    /// Forgets the text typed so far.
    pub fn clear_buffer(&mut self)
        ensures
            final(self)@ == (ScannerView { buffer: Seq::empty(), ..old(self)@ }),
    {
        self.buffer = String::new();
    }
}

} // verus!
