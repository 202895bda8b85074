//! The line editor: the state machine that binds the key scanner, the completion index
//! and the keyword list together. For every key it decides what becomes of the line and
//! of the suggestions, what the terminal is asked to paint, and whether a line is handed
//! to the host.
//!
//! The editor performs no input or output. It is given each event, with the terminal's
//! dimensions, and answers with the requests to carry out.

use crate::autocomplete::completion_actions;
use crate::autocomplete::lemma_amortized_is_length_stable;
use crate::autocomplete::lemma_amortized_trims_alike;
use crate::autocomplete::lemma_common_prefix_of_matches;
use crate::autocomplete::lemma_matching_is_the_filter;
use crate::autocomplete::matching;
use crate::autocomplete::next_index;
use crate::autocomplete::Autocomplete;
use crate::autocomplete::AutocompleteView;
use crate::caprice::CapriceCommand;
use crate::caprice::CapriceCommandView;
use crate::keywords::alphabetic_keywords;
use crate::keywords::ingest_keywords;
use crate::keywords::is_keyword_list;
use crate::keywords::starts_alphabetic;
use crate::keywords::valid_keywords;
use crate::layout::layout_panel;
use crate::layout::painted_columns;
use crate::layout::panel_layout;
use crate::layout::WORD_SEPARATION;
use crate::scanner::scanned;
use crate::scanner::Event;
use crate::scanner::KeyCode;
use crate::scanner::Scanner;
use crate::scanner::ScannerView;
use crate::scanner::TokenType;
use crate::scanner::TokenView;
use crate::terminal::action_views;
use crate::terminal::append_actions;
use crate::terminal::push_action;
use crate::terminal::Action;
use crate::terminal::ActionView;
use crate::terminal::Viewport;
use crate::text::byte_len;
use crate::text::byte_length;
use crate::text::contains;
use crate::text::first_word;
use crate::text::leading_word;
use crate::text::listed;
use crate::text::spaces;
use crate::text::trim_end;
use crate::text::trimmed;
use crate::theme::default_theme;
use crate::theme::default_theme_colors;
use crate::theme::Theme;
use vstd::prelude::*;

verus! {

/// The built-in command that lists the keywords.
pub open spec fn list_command() -> Seq<char> {
    seq!['/', 'l', 'i', 's', 't']
}

/// The prompt shown unless another is chosen.
pub open spec fn default_prompt() -> Seq<char> {
    seq!['!', ':']
}

/// A suggestion as it is painted in the panel: followed by what separates it from the
/// next.
pub open spec fn cell(word: Seq<char>) -> Seq<char> {
    word + spaces(2)
}

/// Whether a submitted line is handed to the host: it is a keyword, or its first word is.
pub open spec fn accepted(keywords: Seq<Seq<char>>, line: Seq<char>) -> bool {
    listed(keywords, line) || listed(keywords, first_word(line))
}

/// The requests that list the first `upto` keywords, one to a line.
pub open spec fn listing(keywords: Seq<Seq<char>>, upto: nat) -> Seq<ActionView>
    decreases upto,
{
    if upto == 0 {
        Seq::empty()
    } else {
        listing(keywords, (upto - 1) as nat) + seq![
            ActionView::Print(keywords[upto - 1]),
            ActionView::GotoNextLine,
        ]
    }
}

/// The requests that carry out a built-in command.
pub open spec fn command_actions(keywords: Seq<Seq<char>>, command: Seq<char>) -> Seq<
    ActionView,
> {
    if command == list_command() {
        seq![ActionView::GotoNextLine] + listing(keywords, keywords.len())
    } else {
        Seq::empty()
    }
}

/// The request that paints one suggestion of the panel.
pub open spec fn entry_action(word: Seq<char>, selected: bool, theme: Theme) -> ActionView {
    if selected {
        ActionView::PrintHighlighted {
            text: cell(word),
            foreground: theme.suggestion_fg,
            background: theme.suggestion_bg,
        }
    } else {
        ActionView::Print(cell(word))
    }
}

/// The requests that paint the first `upto` suggestions, `per_line` to a line, the
/// selected one highlighted.
pub open spec fn panel_rows(
    matches: Seq<Seq<char>>,
    selected: nat,
    per_line: nat,
    theme: Theme,
    upto: nat,
) -> Seq<ActionView>
    decreases upto,
{
    if upto == 0 {
        Seq::empty()
    } else {
        let i = (upto - 1) as nat;
        panel_rows(matches, selected, per_line, theme, i) + seq![
            entry_action(matches[i as int], i == selected, theme),
        ] + if upto % per_line == 0 {
            seq![ActionView::GotoNextLine]
        } else {
            Seq::empty()
        }
    }
}

/// The state of a line editor as plain values.
pub struct ExecutorView {
    /// The key scanner.
    pub scanner: ScannerView,
    /// The completion index.
    pub autocomplete: AutocompleteView,
    /// The keywords.
    pub keywords: Seq<Seq<char>>,
    /// The built-in commands.
    pub commands: Seq<Seq<char>>,
    /// The prompt.
    pub prompt: Seq<char>,
    /// The colors.
    pub theme: Theme,
    /// Whether the editor runs on the alternate screen.
    pub alternate_screen: bool,
}

/// What one step of the editor yields, as plain values.
pub struct OutcomeView {
    /// The requests to the terminal, in order.
    pub actions: Seq<ActionView>,
    /// The line handed to the host, if one was committed.
    pub token: Option<Seq<char>>,
}

impl OutcomeView {
    /// Nothing to paint and nothing committed.
    pub open spec fn nothing() -> Self {
        OutcomeView { actions: Seq::empty(), token: None }
    }

    /// Requests to the terminal, and nothing committed.
    pub open spec fn painting(actions: Seq<ActionView>) -> Self {
        OutcomeView { actions, token: None }
    }
}

impl ExecutorView {
    /// The state of a new editor.
    pub open spec fn initial() -> Self {
        ExecutorView {
            scanner: ScannerView { buffer: Seq::empty(), enable_ctrl_c: true },
            autocomplete: AutocompleteView::empty(),
            keywords: Seq::empty(),
            commands: seq![list_command()],
            prompt: default_prompt(),
            theme: default_theme_colors(),
            alternate_screen: false,
        }
    }

    /// Whether the keyword list is as the editor keeps it: valid keywords only, in
    /// ascending order.
    pub open spec fn well_formed(self) -> bool {
        is_keyword_list(self.keywords)
    }

    /// Whether the suggestion panel is up with a suggestion selected.
    pub open spec fn is_tabbing(self) -> bool {
        self.autocomplete.selection().is_some()
    }

    /// The request that paints the prompt.
    pub open spec fn prompt_action(self) -> ActionView {
        ActionView::PrintColored { text: self.prompt.push(' '), color: self.theme.prompt_color }
    }

    /// The line that Enter submits: the selected suggestion while the panel is up, else
    /// the line as typed.
    pub open spec fn submitted(self, typed: Seq<char>) -> Seq<char> {
        match self.autocomplete.selection() {
            Some(selected) => selected,
            None => typed,
        }
    }

    /// The editor with the completion index at rest.
    pub open spec fn rested(self) -> Self {
        ExecutorView { autocomplete: self.autocomplete.rested(), ..self }
    }

    /// The editor with another scanner line.
    pub open spec fn with_line(self, line: Seq<char>) -> Self {
        ExecutorView { scanner: ScannerView { buffer: line, ..self.scanner }, ..self }
    }

    /// The requests that paint the suggestion panel for the editor's suggestions: scroll
    /// if the panel would not fit, paint the suggestions below the line, and rewrite the
    /// line to show the selected one.
    pub open spec fn panel_actions(self, viewport: Viewport) -> Seq<ActionView> {
        let found = self.autocomplete.matches;
        let selected = self.autocomplete.index;
        let longest = if found.len() > 0 {
            byte_len(found[0])
        } else {
            0
        };
        let layout = panel_layout(viewport, found.len(), longest);
        (if layout.scroll > 0 {
            seq![ActionView::ScrollUp(layout.scroll)]
        } else {
            Seq::empty()
        }) + seq![
            ActionView::GotoBeginningOfLine,
            ActionView::SaveCursor,
            ActionView::GotoNextLine,
        ] + panel_rows(
            found,
            selected,
            painted_columns(layout.columns as nat),
            self.theme,
            found.len(),
        ) + seq![ActionView::RestoreCursor, ActionView::GotoBeginningOfLine] + (if selected
            < found.len() {
            seq![self.prompt_action(), ActionView::Print(trimmed(found[selected as int]))]
        } else {
            Seq::empty()
        })
    }

    /// The editor after painting the suggestion panel: the suggestions are padded and the
    /// selection has moved on by one.
    pub open spec fn after_panel(self, viewport: Viewport) -> (Self, Seq<ActionView>) {
        let next = ExecutorView { autocomplete: self.autocomplete.amortized().advanced(), ..self };
        (next, next.panel_actions(viewport))
    }

    /// Tab: the suggestions are recomputed for the line; if there are any, the panel is
    /// painted with the next one selected.
    pub open spec fn after_tab(self, line: Seq<char>, viewport: Viewport) -> (Self, OutcomeView) {
        let found = ExecutorView {
            autocomplete: self.autocomplete.tabbing(true).updated(line, self.keywords),
            ..self
        };
        if found.autocomplete.common.len() == 0 {
            (found, OutcomeView::nothing())
        } else {
            let (next, actions) = found.after_panel(viewport);
            (next, OutcomeView::painting(actions))
        }
    }

    /// Enter: the selected suggestion is submitted while the panel is up, else the line
    /// as typed.
    pub open spec fn after_token(self, typed: Seq<char>) -> (Self, OutcomeView) {
        self.committed(self.submitted(typed))
    }

    /// A submitted line is handed to the host if it is accepted, run if it is a built-in
    /// command, and dropped otherwise. In each case a new line begins.
    pub open spec fn committed(self, line: Seq<char>) -> (Self, OutcomeView) {
        let next = self.with_line(Seq::empty()).rested();
        if accepted(self.keywords, line) {
            (
                next,
                OutcomeView {
                    actions: seq![ActionView::GotoNextLine, ActionView::ClearFromCursor],
                    token: Some(line),
                },
            )
        } else if listed(self.commands, line) {
            (
                next,
                OutcomeView::painting(
                    command_actions(self.keywords, line) + seq![
                        ActionView::GotoBeginningOfLine,
                        self.prompt_action(),
                        ActionView::ClearFromCursor,
                    ],
                ),
            )
        } else {
            (
                next,
                OutcomeView::painting(
                    seq![
                        ActionView::GotoNextLine,
                        self.prompt_action(),
                        ActionView::ClearFromCursor,
                    ],
                ),
            )
        }
    }

    /// Backspace, after the scanner has dropped a character: while the panel is up the
    /// line becomes the selected suggestion less its last character.
    pub open spec fn after_backspace(self) -> (Self, OutcomeView) {
        let edited = match self.autocomplete.selection() {
            Some(selected) => self.with_line(
                if selected.len() > 0 {
                    selected.drop_last()
                } else {
                    selected
                },
            ),
            None => self,
        };
        (
            edited.rested(),
            OutcomeView::painting(seq![ActionView::Backspace, ActionView::ClearFromCursor]),
        )
    }

    /// The line after a character was accepted, where `typed` is the scanner's line with
    /// that character: while the panel is up, the selected suggestion with the character.
    pub open spec fn line_after_char(self, typed: Seq<char>) -> Seq<char> {
        match self.autocomplete.selection() {
            Some(selected) => if typed.len() > 0 {
                selected.push(typed.last())
            } else {
                selected
            },
            None => typed,
        }
    }

    /// A character was accepted: it is echoed, the suggestions are recomputed for the
    /// line, and what they have in common is shown behind the cursor.
    pub open spec fn after_char(self, typed: Seq<char>) -> (Self, OutcomeView) {
        let line = self.line_after_char(typed);
        let synced = if self.is_tabbing() {
            self.with_line(line)
        } else {
            self
        };
        let found = self.autocomplete.updated(line, self.keywords);
        let echo = if typed.len() > 0 {
            seq![ActionView::Print(seq![typed.last()])]
        } else {
            Seq::empty()
        };
        (
            ExecutorView { autocomplete: found.rested(), ..synced },
            OutcomeView::painting(
                echo + completion_actions(found.common, line, self.theme.autocomplete_color),
            ),
        )
    }

    /// The requests that end the session: clear what is below the line, write out what
    /// is pending, and give the terminal back as it was.
    pub open spec fn exit_actions(self) -> Seq<ActionView> {
        seq![ActionView::ClearFromCursor, ActionView::Flush] + (if self.alternate_screen {
            seq![ActionView::LeaveAlternateScreen]
        } else {
            Seq::empty()
        }) + seq![ActionView::DisableRawMode, ActionView::Exit]
    }

    /// A message of the host: it is printed, and the prompt is shown on the next line.
    pub open spec fn after_message(self, text: Seq<char>) -> (Self, Seq<ActionView>) {
        (
            self.rested(),
            seq![
                ActionView::Print(text),
                ActionView::GotoNextLine,
                self.prompt_action(),
                ActionView::ClearFromCursor,
            ],
        )
    }

    /// A command of the host.
    pub open spec fn after_command(self, command: CapriceCommandView) -> (Self, Seq<ActionView>) {
        match command {
            CapriceCommandView::Println(text) => self.after_message(text),
            CapriceCommandView::Exit => (self, self.exit_actions()),
            CapriceCommandView::Continue => (self, Seq::empty()),
        }
    }

    /// A logical edit event.
    pub open spec fn after_scanned(self, token: TokenView, viewport: Viewport) -> (
        Self,
        OutcomeView,
    ) {
        match token {
            TokenView::Token(typed) => self.after_token(typed),
            TokenView::BackSpace => self.after_backspace(),
            TokenView::Tab(line) => self.after_tab(line, viewport),
            TokenView::Continue(typed) => self.after_char(typed),
            TokenView::Exit => (self, OutcomeView::painting(self.exit_actions())),
            TokenView::Nothing => (self, OutcomeView::nothing()),
        }
    }

    /// A terminal event, or none: the scanner classifies it, and the editor acts on what
    /// the scanner reports.
    pub open spec fn after_event(self, event: Option<Event>, viewport: Viewport) -> (
        Self,
        OutcomeView,
    ) {
        match event {
            None => (self, OutcomeView::nothing()),
            Some(event) => {
                let (scanner, token) = scanned(self.scanner, event);
                (ExecutorView { scanner, ..self }).after_scanned(token, viewport)
            },
        }
    }
}

/// What one step of the editor yields.
#[derive(Debug, PartialEq, Eq)]
pub struct Outcome {
    /// The requests to the terminal, in order.
    pub actions: Vec<Action>,
    /// The line handed to the host, if one was committed.
    pub token: Option<String>,
}

impl View for Outcome {
    type V = OutcomeView;

    open spec fn view(&self) -> OutcomeView {
        OutcomeView {
            actions: action_views(self.actions@),
            token: match self.token {
                Some(line) => Some(line@),
                None => None,
            },
        }
    }
}

impl Outcome {
    /// Nothing to paint and nothing committed.
    pub fn nothing() -> (r: Self)
        ensures
            r@ == OutcomeView::nothing(),
    {
        let r = Outcome { actions: Vec::new(), token: None };
        assert(r@.actions =~= Seq::<ActionView>::empty());
        r
    }

    /// Requests to the terminal, and nothing committed.
    pub fn painting(actions: Vec<Action>) -> (r: Self)
        ensures
            r@ == OutcomeView::painting(action_views(actions@)),
    {
        Outcome { actions, token: None }
    }
}

/// The line editor.
#[derive(Debug)]
pub struct Executor {
    scanner: Scanner,
    autocomplete: Autocomplete,
    keywords: Vec<String>,
    commands: Vec<String>,
    prompt: String,
    theme: Theme,
    alternate_screen: bool,
}

impl View for Executor {
    type V = ExecutorView;

    closed spec fn view(&self) -> ExecutorView {
        ExecutorView {
            scanner: self.scanner@,
            autocomplete: self.autocomplete@,
            keywords: self.keywords.deep_view(),
            commands: self.commands.deep_view(),
            prompt: self.prompt@,
            theme: self.theme,
            alternate_screen: self.alternate_screen,
        }
    }
}

/// `text` followed by a space.
fn with_space(text: &String) -> (r: String)
    ensures
        r@ == text@.push(' '),
{
    let mut r: String = text.clone();
    r.push(' ');
    r
}

/// A suggestion as it is painted in the panel.
fn cell_text(word: &String) -> (r: String)
    ensures
        r@ == cell(word@),
{
    let mut r: String = word.clone();
    let mut added: usize = 0;
    assert(r@ =~= word@ + spaces(0));
    while added < WORD_SEPARATION
        invariant
            added <= WORD_SEPARATION,
            r@ == word@ + spaces(added as nat),
        decreases WORD_SEPARATION - added,
    {
        r.push(' ');
        added = added + 1;
        assert(r@ =~= word@ + spaces(added as nat));
    }
    r
}

/// The requests that paint the suggestions, `per_line` to a line, the selected one
/// highlighted.
fn paint_rows(words: &Vec<String>, selected: usize, per_line: usize, theme: Theme) -> (actions: Vec<
    Action,
>)
    requires
        per_line >= 1,
    ensures
        action_views(actions@) == panel_rows(
            words.deep_view(),
            selected as nat,
            per_line as nat,
            theme,
            words.len() as nat,
        ),
{
    let ghost found = words.deep_view();
    let mut actions: Vec<Action> = Vec::new();
    let mut in_line: usize = 0;
    let mut i: usize = 0;
    assert(0int % (per_line as int) == 0) by (nonlinear_arith)
        requires
            per_line >= 1,
    ;
    assert(action_views(actions@) =~= panel_rows(found, selected as nat, per_line as nat, theme, 0));
    while i < words.len()
        invariant
            i <= words.len(),
            found == words.deep_view(),
            per_line >= 1,
            in_line < per_line,
            in_line == i % per_line,
            action_views(actions@) == panel_rows(
                found,
                selected as nat,
                per_line as nat,
                theme,
                i as nat,
            ),
        decreases words.len() - i,
    {
        let ghost before = action_views(actions@);
        let text: String = cell_text(&words[i]);
        let entry: Action = if i == selected {
            Action::PrintHighlighted {
                text,
                foreground: theme.suggestion_fg,
                background: theme.suggestion_bg,
            }
        } else {
            Action::Print(text)
        };
        assert(entry@ == entry_action(found[i as int], i == selected, theme));
        push_action(&mut actions, entry);
        assert((i + 1) % (per_line as int) == if in_line + 1 == per_line {
            0
        } else {
            in_line + 1
        }) by (nonlinear_arith)
            requires
                per_line >= 1,
                in_line == i % per_line,
        ;
        in_line = in_line + 1;
        if in_line == per_line {
            push_action(&mut actions, Action::GotoNextLine);
            in_line = 0;
            assert(action_views(actions@) =~= before + seq![
                entry_action(found[i as int], i == selected, theme),
            ] + seq![ActionView::GotoNextLine]);
        } else {
            assert(action_views(actions@) =~= before + seq![
                entry_action(found[i as int], i == selected, theme),
            ] + Seq::<ActionView>::empty());
        }
        i = i + 1;
    }
    actions
}

/// The text of the built-in command that lists the keywords.
fn list_command_text() -> (r: String)
    ensures
        r@ == list_command(),
{
    proof {
        reveal_strlit("/list");
    }
    let r: String = "/list".to_owned();
    assert(r@ =~= list_command());
    r
}

impl Executor {
    /// An editor with no keywords, the default prompt and the default theme.
    pub fn new() -> (r: Self)
        ensures
            r@ == ExecutorView::initial(),
            r@.well_formed(),
    {
        proof {
            reveal_strlit("!:");
        }
        let prompt: String = "!:".to_owned();
        assert(prompt@ =~= default_prompt());
        let mut commands: Vec<String> = Vec::new();
        commands.push(list_command_text());
        let r = Executor {
            scanner: Scanner::new(),
            autocomplete: Autocomplete::new(),
            keywords: Vec::new(),
            commands,
            prompt,
            theme: default_theme(),
            alternate_screen: false,
        };
        assert(r@.keywords =~= Seq::<Seq<char>>::empty());
        assert(r@.commands =~= seq![list_command()]);
        r
    }

    /// The key scanner.
    pub fn scanner(&self) -> (r: &Scanner)
        ensures
            r@ == self@.scanner,
    {
        &self.scanner
    }

    /// The completion index.
    pub fn autocomplete(&self) -> (r: &Autocomplete)
        ensures
            r@ == self@.autocomplete,
    {
        &self.autocomplete
    }

    /// The keywords.
    pub fn keywords(&self) -> (r: &Vec<String>)
        ensures
            r.deep_view() == self@.keywords,
    {
        &self.keywords
    }

    /// The prompt.
    pub fn prompt(&self) -> (r: &String)
        ensures
            r@ == self@.prompt,
    {
        &self.prompt
    }

    /// The colors.
    pub fn theme(&self) -> (r: Theme)
        ensures
            r == self@.theme,
    {
        self.theme
    }

    /// Keeps the words of a list that start with an alphabetic character, in their order.
    pub fn get_alphabetic_keywords(keywords: &[String]) -> (r: Vec<String>)
        ensures
            r.deep_view() == alphabetic_keywords(keywords.deep_view()),
    {
        let ghost all = keywords.deep_view();
        let ghost alphabetic = |w: Seq<char>| starts_alphabetic(w);
        let mut kept: Vec<String> = Vec::new();
        let mut i: usize = 0;
        proof {
            reveal(Seq::filter);
            assert(all.take(0) =~= Seq::<Seq<char>>::empty());
            assert(kept.deep_view() =~= all.take(0).filter(alphabetic));
        }
        while i < keywords.len()
            invariant
                i <= keywords.len(),
                all == keywords.deep_view(),
                alphabetic == |w: Seq<char>| starts_alphabetic(w),
                kept.deep_view() == all.take(i as int).filter(alphabetic),
            decreases keywords.len() - i,
        {
            proof {
                reveal(Seq::filter);
                assert(all.take(i + 1).drop_last() =~= all.take(i as int));
                assert(all.take(i + 1).last() == keywords[i as int]@);
            }
            let word: &str = keywords[i].as_str();
            if !word.is_empty() && word.get_char(0).is_alphabetic() {
                let ghost before = kept.deep_view();
                kept.push(keywords[i].clone());
                assert(kept.deep_view() =~= before.push(keywords[i as int]@));
            }
            i = i + 1;
        }
        assert(all.take(keywords.len() as int) =~= all);
        kept
    }

    /// Replaces the keywords by the valid ones among `keywords`, in ascending order.
    pub fn set_keywords(&mut self, keywords: Vec<String>)
        ensures
            final(self)@.well_formed(),
            final(self)@.keywords.to_multiset() == valid_keywords(
                keywords.deep_view(),
            ).to_multiset(),
            final(self)@ == (ExecutorView { keywords: final(self)@.keywords, ..old(self)@ }),
    {
        self.keywords = ingest_keywords(keywords);
    }

    /// Replaces the prompt.
    pub fn set_prompt(&mut self, prompt: &str)
        ensures
            final(self)@ == (ExecutorView { prompt: prompt@, ..old(self)@ }),
    {
        self.prompt = prompt.to_owned();
    }

    /// Replaces the colors.
    pub fn set_theme(&mut self, theme: Theme)
        ensures
            final(self)@ == (ExecutorView { theme, ..old(self)@ }),
    {
        self.theme = theme;
    }

    /// Makes the interrupt combination a key like any other.
    pub fn disable_ctrl_c(&mut self)
        ensures
            final(self)@ == (ExecutorView {
                scanner: ScannerView { enable_ctrl_c: false, ..old(self)@.scanner },
                ..old(self)@
            }),
    {
        self.scanner.set_ctrl_c(false);
    }

    /// Moves the editor to the alternate screen.
    pub fn enable_alternate_screen(&mut self) -> (actions: Vec<Action>)
        ensures
            final(self)@ == (ExecutorView { alternate_screen: true, ..old(self)@ }),
            action_views(actions@) == seq![ActionView::EnterAlternateScreen],
    {
        self.alternate_screen = true;
        let mut actions: Vec<Action> = Vec::new();
        assert(action_views(actions@) =~= Seq::<ActionView>::empty());
        push_action(&mut actions, Action::EnterAlternateScreen);
        actions
    }

    /// The request that paints the prompt.
    fn print_prompt(&self) -> (r: Action)
        ensures
            r@ == self@.prompt_action(),
    {
        Action::PrintColored { text: with_space(&self.prompt), color: self.theme.prompt_color }
    }

    /// Shows the prompt, clears what follows it, and puts the completion index at rest.
    pub fn reset_prompt(&mut self) -> (actions: Vec<Action>)
        ensures
            final(self)@ == old(self)@.rested(),
            action_views(actions@) == seq![
                old(self)@.prompt_action(),
                ActionView::ClearFromCursor,
            ],
    {
        let mut actions: Vec<Action> = Vec::new();
        assert(action_views(actions@) =~= Seq::<ActionView>::empty());
        push_action(&mut actions, self.print_prompt());
        let cleared = self.clear_prompt();
        append_actions(&mut actions, cleared);
        actions
    }

    /// Clears what follows the cursor and puts the completion index at rest.
    pub fn clear_prompt(&mut self) -> (actions: Vec<Action>)
        ensures
            final(self)@ == old(self)@.rested(),
            action_views(actions@) == seq![ActionView::ClearFromCursor],
    {
        self.autocomplete.reset_tabbed();
        let mut actions: Vec<Action> = Vec::new();
        assert(action_views(actions@) =~= Seq::<ActionView>::empty());
        push_action(&mut actions, Action::ClearFromCursor);
        actions
    }

    /// Whether the editor needs the terminal's dimensions to act on `event`: it does for
    /// the Tab key, which paints the suggestion panel.
    pub fn needs_viewport(event: &Event) -> (r: bool)
        ensures
            r == (event matches Event::Key(key) && key.code is Tab),
    {
        match event {
            Event::Key(key) => match key.code {
                KeyCode::Tab => true,
                _ => false,
            },
            Event::Other => false,
        }
    }

    /// One step of the editor: acts on a terminal event, or on there being none.
    pub fn poll(&mut self, input_event: Option<Event>, viewport: Viewport) -> (out: Outcome)
        ensures
            (final(self)@, out@) == old(self)@.after_event(input_event, viewport),
    {
        match input_event {
            None => Outcome::nothing(),
            Some(event) => match self.scanner.scan(event) {
                TokenType::Token(token) => self.exec_token(token),
                TokenType::BackSpace => self.exec_backspace(),
                TokenType::Tab(buffer) => self.exec_tab(buffer, viewport),
                TokenType::Continue(buffer) => self.exec_valid_char(buffer),
                TokenType::Exit => Outcome::painting(self.exec_exit()),
                TokenType::Nothing => Outcome::nothing(),
            },
        }
    }

    /// Enter: submits the selected suggestion while the panel is up, else `token`.
    pub fn exec_token(&mut self, token: String) -> (out: Outcome)
        ensures
            (final(self)@, out@) == old(self)@.after_token(token@),
    {
        let submitted: String = match self.autocomplete.get_current_tabbed_autocomplete() {
            Some(selected) => selected,
            None => token,
        };
        self.commit(submitted)
    }

    /// Commits a submitted line: hands it to the host if it is a keyword or starts with
    /// one, runs it if it is a built-in command, and drops it otherwise. In each case a
    /// new line begins.
    pub fn commit(&mut self, submitted: String) -> (out: Outcome)
        ensures
            (final(self)@, out@) == old(self)@.committed(submitted@),
    {
        self.scanner.clear_buffer();
        let first: String = leading_word(submitted.as_str());
        let mut actions: Vec<Action> = Vec::new();
        assert(action_views(actions@) =~= Seq::<ActionView>::empty());
        if contains(&self.keywords, &submitted) || contains(&self.keywords, &first) {
            push_action(&mut actions, Action::GotoNextLine);
            let cleared = self.clear_prompt();
            append_actions(&mut actions, cleared);
            assert(action_views(actions@) =~= seq![
                ActionView::GotoNextLine,
                ActionView::ClearFromCursor,
            ]);
            Outcome { actions, token: Some(submitted) }
        } else if contains(&self.commands, &submitted) {
            let ghost prompt = self@.prompt_action();
            let ghost line = submitted@;
            let ran = self.exec_command(submitted);
            append_actions(&mut actions, ran);
            push_action(&mut actions, Action::GotoBeginningOfLine);
            let reset = self.reset_prompt();
            append_actions(&mut actions, reset);
            assert(action_views(actions@) =~= command_actions(old(self)@.keywords, line) + seq![
                ActionView::GotoBeginningOfLine,
                prompt,
                ActionView::ClearFromCursor,
            ]);
            Outcome::painting(actions)
        } else {
            let ghost prompt = self@.prompt_action();
            push_action(&mut actions, Action::GotoNextLine);
            let reset = self.reset_prompt();
            append_actions(&mut actions, reset);
            assert(action_views(actions@) =~= seq![
                ActionView::GotoNextLine,
                prompt,
                ActionView::ClearFromCursor,
            ]);
            Outcome::painting(actions)
        }
    }

    /// Carries out a built-in command and puts the completion index at rest.
    pub fn exec_command(&mut self, command: String) -> (actions: Vec<Action>)
        ensures
            final(self)@ == old(self)@.rested(),
            action_views(actions@) == command_actions(old(self)@.keywords, command@),
    {
        let mut actions: Vec<Action> = Vec::new();
        assert(action_views(actions@) =~= Seq::<ActionView>::empty());
        if command == list_command_text() {
            push_action(&mut actions, Action::GotoNextLine);
            let mut i: usize = 0;
            assert(action_views(actions@) =~= seq![ActionView::GotoNextLine] + listing(
                self@.keywords,
                0,
            ));
            while i < self.keywords.len()
                invariant
                    i <= self.keywords.len(),
                    action_views(actions@) == seq![ActionView::GotoNextLine] + listing(
                        self@.keywords,
                        i as nat,
                    ),
                decreases self.keywords.len() - i,
            {
                let ghost before = action_views(actions@);
                push_action(&mut actions, Action::Print(self.keywords[i].clone()));
                push_action(&mut actions, Action::GotoNextLine);
                i = i + 1;
                assert(action_views(actions@) =~= seq![ActionView::GotoNextLine] + listing(
                    self@.keywords,
                    i as nat,
                ));
            }
        }
        self.autocomplete.reset_tabbed();
        actions
    }

    /// The requests that end the session.
    pub fn exec_exit(&self) -> (actions: Vec<Action>)
        ensures
            action_views(actions@) == self@.exit_actions(),
    {
        let mut actions: Vec<Action> = Vec::new();
        assert(action_views(actions@) =~= Seq::<ActionView>::empty());
        push_action(&mut actions, Action::ClearFromCursor);
        push_action(&mut actions, Action::Flush);
        if self.alternate_screen {
            push_action(&mut actions, Action::LeaveAlternateScreen);
        }
        push_action(&mut actions, Action::DisableRawMode);
        push_action(&mut actions, Action::Exit);
        assert(action_views(actions@) =~= self@.exit_actions());
        actions
    }

    /// Backspace, after the scanner has dropped a character.
    pub fn exec_backspace(&mut self) -> (out: Outcome)
        ensures
            (final(self)@, out@) == old(self)@.after_backspace(),
    {
        match self.autocomplete.get_current_tabbed_autocomplete() {
            Some(selected) => {
                let mut line: String = selected;
                line.pop();
                self.scanner.update_buffer(line);
            },
            None => {},
        }
        self.autocomplete.reset_tabbed();
        let mut actions: Vec<Action> = Vec::new();
        assert(action_views(actions@) =~= Seq::<ActionView>::empty());
        push_action(&mut actions, Action::Backspace);
        push_action(&mut actions, Action::ClearFromCursor);
        assert(action_views(actions@) =~= seq![
            ActionView::Backspace,
            ActionView::ClearFromCursor,
        ]);
        Outcome::painting(actions)
    }

    /// Tab: recomputes the suggestions for `buffer` and, if there are any, paints the
    /// panel with the next one selected.
    pub fn exec_tab(&mut self, buffer: String, viewport: Viewport) -> (out: Outcome)
        ensures
            (final(self)@, out@) == old(self)@.after_tab(buffer@, viewport),
    {
        self.autocomplete.set_tabbed(true);
        self.autocomplete.update(&buffer, &self.keywords);
        if self.autocomplete.get_common().as_str().is_empty() {
            Outcome::nothing()
        } else {
            Outcome::painting(self.print_autocomplete_suggestions(viewport))
        }
    }

    /// Pads the suggestions, moves the selection on by one, and paints the panel: scrolls
    /// if it would not fit below the line, paints the suggestions in columns with the
    /// selected one highlighted, and rewrites the line to show the selected one.
    pub fn print_autocomplete_suggestions(&mut self, viewport: Viewport) -> (actions: Vec<Action>)
        ensures
            (final(self)@, action_views(actions@)) == old(self)@.after_panel(viewport),
    {
        self.autocomplete.amortisize();
        self.autocomplete.incr_idx();
        let words: &Vec<String> = self.autocomplete.get_keywords();
        let count: usize = words.len();
        let longest: usize = if count > 0 {
            byte_length(words[0].as_str())
        } else {
            0
        };
        let layout = layout_panel(viewport, count, longest);
        let selected: usize = self.autocomplete.get_idx();
        let per_line: usize = if layout.columns == 0 {
            1
        } else {
            layout.columns as usize
        };
        let ghost found = self@.autocomplete.matches;
        let ghost scroll = if layout.scroll > 0 {
            seq![ActionView::ScrollUp(layout.scroll)]
        } else {
            Seq::empty()
        };
        let ghost head = scroll + seq![
            ActionView::GotoBeginningOfLine,
            ActionView::SaveCursor,
            ActionView::GotoNextLine,
        ];
        let ghost rows = panel_rows(
            found,
            selected as nat,
            per_line as nat,
            self.theme,
            found.len(),
        );
        let ghost back = seq![ActionView::RestoreCursor, ActionView::GotoBeginningOfLine];

        let mut actions: Vec<Action> = Vec::new();
        assert(action_views(actions@) =~= Seq::<ActionView>::empty());
        if layout.scroll > 0 {
            push_action(&mut actions, Action::ScrollUp(layout.scroll));
        }
        assert(action_views(actions@) =~= scroll);
        push_action(&mut actions, Action::GotoBeginningOfLine);
        push_action(&mut actions, Action::SaveCursor);
        push_action(&mut actions, Action::GotoNextLine);
        assert(action_views(actions@) =~= head);
        append_actions(&mut actions, paint_rows(words, selected, per_line, self.theme));
        assert(action_views(actions@) == head + rows);
        push_action(&mut actions, Action::RestoreCursor);
        push_action(&mut actions, Action::GotoBeginningOfLine);
        assert(action_views(actions@) =~= head + rows + back);
        if selected < count {
            let prompt: Action = self.print_prompt();
            let shown: Action = Action::Print(trim_end(words[selected].as_str()));
            let ghost line = seq![prompt@, shown@];
            push_action(&mut actions, prompt);
            push_action(&mut actions, shown);
            assert(action_views(actions@) =~= head + rows + back + line);
        } else {
            assert(action_views(actions@) =~= head + rows + back + Seq::<ActionView>::empty());
        }
        actions
    }

    /// A character was accepted, and `buffer` is the scanner's line with it.
    pub fn exec_valid_char(&mut self, buffer: String) -> (out: Outcome)
        ensures
            (final(self)@, out@) == old(self)@.after_char(buffer@),
    {
        let mut last: String = buffer.clone();
        let typed: Option<char> = last.pop();
        let line: String = match self.autocomplete.get_current_tabbed_autocomplete() {
            Some(selected) => {
                let mut line: String = selected;
                match typed {
                    Some(c) => {
                        line.push(c);
                    },
                    None => {},
                }
                self.scanner.update_buffer(line.clone());
                line
            },
            None => buffer,
        };
        let mut actions: Vec<Action> = Vec::new();
        assert(action_views(actions@) =~= Seq::<ActionView>::empty());
        match typed {
            Some(c) => {
                let mut echo: String = String::new();
                echo.push(c);
                assert(echo@ =~= seq![c]);
                push_action(&mut actions, Action::Print(echo));
            },
            None => {},
        }
        self.autocomplete.update(&line, &self.keywords);
        let shown = self.autocomplete.print_same_line_autocompleted(
            self.theme.autocomplete_color,
            &line,
        );
        append_actions(&mut actions, shown);
        self.autocomplete.reset_tabbed();
        Outcome::painting(actions)
    }

    /// Prints a message of the host and shows the prompt on the next line.
    pub fn print_msg(&mut self, msg: String) -> (actions: Vec<Action>)
        ensures
            (final(self)@, action_views(actions@)) == old(self)@.after_message(msg@),
    {
        let ghost prompt = self@.prompt_action();
        let mut actions: Vec<Action> = Vec::new();
        assert(action_views(actions@) =~= Seq::<ActionView>::empty());
        push_action(&mut actions, Action::Print(msg));
        push_action(&mut actions, Action::GotoNextLine);
        let reset = self.reset_prompt();
        append_actions(&mut actions, reset);
        assert(action_views(actions@) =~= seq![
            ActionView::Print(msg@),
            ActionView::GotoNextLine,
            prompt,
            ActionView::ClearFromCursor,
        ]);
        actions
    }

    /// Carries out a command of the host.
    pub fn send(&mut self, command: CapriceCommand) -> (actions: Vec<Action>)
        ensures
            (final(self)@, action_views(actions@)) == old(self)@.after_command(command@),
    {
        match command {
            CapriceCommand::Println(msg) => self.print_msg(msg),
            CapriceCommand::Exit => self.exec_exit(),
            CapriceCommand::Continue => {
                let actions: Vec<Action> = Vec::new();
                assert(action_views(actions@) =~= Seq::<ActionView>::empty());
                actions
            },
        }
    }
}

/// Whatever the event, a step of the editor leaves the keywords, the built-in commands,
/// the prompt and the colors as they were; a keyword list that was well formed stays so.
pub proof fn lemma_steps_keep_the_configuration(
    s: ExecutorView,
    event: Option<Event>,
    viewport: Viewport,
)
    ensures
        s.after_event(event, viewport).0.keywords == s.keywords,
        s.after_event(event, viewport).0.commands == s.commands,
        s.after_event(event, viewport).0.prompt == s.prompt,
        s.after_event(event, viewport).0.theme == s.theme,
        s.after_event(event, viewport).0.alternate_screen == s.alternate_screen,
        s.after_event(event, viewport).0.scanner.enable_ctrl_c == s.scanner.enable_ctrl_c,
        s.well_formed() ==> s.after_event(event, viewport).0.well_formed(),
{
}

/// Enter always starts a new line: the scanner's line is empty and the suggestion panel
/// is down, whatever was submitted.
pub proof fn lemma_enter_starts_a_new_line(s: ExecutorView, typed: Seq<char>)
    ensures
        s.after_token(typed).0.scanner.buffer.len() == 0,
        !s.after_token(typed).0.autocomplete.tabbed,
        !s.after_token(typed).0.is_tabbing(),
{
}

/// Enter commits what is shown. While the panel is up, a line handed to the host is the
/// selected suggestion without its padding, not the line as typed; and it is handed to
/// the host whenever it is accepted.
pub proof fn lemma_enter_commits_the_selection(s: ExecutorView, typed: Seq<char>)
    requires
        s.is_tabbing(),
    ensures
        s.after_token(typed).1.token.is_some() ==> s.after_token(typed).1.token.unwrap()
            == trimmed(s.autocomplete.matches[s.autocomplete.index as int]),
        accepted(s.keywords, trimmed(s.autocomplete.matches[s.autocomplete.index as int]))
            ==> s.after_token(typed).1.token == Some(
            trimmed(s.autocomplete.matches[s.autocomplete.index as int]),
        ),
{
}

/// While the panel is down, Enter hands the line as typed to the host exactly when it is
/// accepted.
pub proof fn lemma_enter_commits_a_typed_keyword(s: ExecutorView, typed: Seq<char>)
    requires
        !s.is_tabbing(),
    ensures
        accepted(s.keywords, typed) ==> s.after_token(typed).1.token == Some(typed),
        !accepted(s.keywords, typed) ==> s.after_token(typed).1.token is None,
{
}

/// Tab on a line that no keyword starts with paints nothing and selects nothing.
pub proof fn lemma_tab_without_matches_paints_nothing(
    s: ExecutorView,
    line: Seq<char>,
    viewport: Viewport,
)
    requires
        line.len() == 0 || matching(line, s.keywords).len() == 0,
    ensures
        s.after_tab(line, viewport).1 == OutcomeView::nothing(),
        s.after_tab(line, viewport).0.autocomplete.matches.len() == 0,
        !s.after_tab(line, viewport).0.is_tabbing(),
{
    if line.len() > 0 {
        lemma_common_prefix_of_matches(line, s.keywords);
    }
}

/// Tab on a line that some keyword starts with puts the panel up with the next suggestion
/// selected: the keyword that follows the previous selection among those that start with
/// the line.
pub proof fn lemma_tab_selects_the_next_match(
    s: ExecutorView,
    line: Seq<char>,
    viewport: Viewport,
)
    requires
        line.len() > 0,
        matching(line, s.keywords).len() > 0,
    ensures
        s.after_tab(line, viewport).0.is_tabbing(),
        s.after_tab(line, viewport).0.autocomplete.index == next_index(
            s.autocomplete.index,
            matching(line, s.keywords).len(),
        ),
        s.after_tab(line, viewport).0.autocomplete.selection() == Some(
            trimmed(
                matching(line, s.keywords)[next_index(
                    s.autocomplete.index,
                    matching(line, s.keywords).len(),
                ) as int],
            ),
        ),
        s.after_tab(line, viewport).0.scanner == s.scanner,
{
    let found = matching(line, s.keywords);
    let at = next_index(s.autocomplete.index, found.len());
    lemma_common_prefix_of_matches(line, s.keywords);
    lemma_amortized_is_length_stable(found);
    lemma_amortized_trims_alike(found, at as int);
}

/// The round trip: Tab selects a keyword that starts with the line, and Enter then hands
/// that keyword to the host, not the line that was typed. This holds of every keyword
/// that does not end in white space, as no valid keyword does.
pub proof fn lemma_tab_then_enter_commits_the_keyword(
    s: ExecutorView,
    line: Seq<char>,
    viewport: Viewport,
    typed: Seq<char>,
)
    requires
        line.len() > 0,
        matching(line, s.keywords).len() > 0,
        trimmed(
            matching(line, s.keywords)[next_index(
                s.autocomplete.index,
                matching(line, s.keywords).len(),
            ) as int],
        ) == matching(line, s.keywords)[next_index(
            s.autocomplete.index,
            matching(line, s.keywords).len(),
        ) as int],
    ensures
        s.after_tab(line, viewport).0.after_token(typed).1.token == Some(
            matching(line, s.keywords)[next_index(
                s.autocomplete.index,
                matching(line, s.keywords).len(),
            ) as int],
        ),
        s.after_tab(line, viewport).0.after_token(typed).0.scanner.buffer.len() == 0,
        !s.after_tab(line, viewport).0.after_token(typed).0.autocomplete.tabbed,
{
    let found = matching(line, s.keywords);
    let at = next_index(s.autocomplete.index, found.len());
    lemma_tab_selects_the_next_match(s, line, viewport);
    lemma_matching_is_the_filter(line, s.keywords);
    let tabbed = s.after_tab(line, viewport).0;
    assert(tabbed.keywords == s.keywords);
    assert(s.keywords.contains(found[at as int]));
    let k = choose|k: int| 0 <= k < s.keywords.len() && s.keywords[k] == found[at as int];
    assert(listed(s.keywords, found[at as int]));
}

/// While the panel is up, a character goes behind the selected suggestion and a backspace
/// takes the last character of the selected suggestion: the scanner's line follows what
/// is shown, not what was typed before Tab.
pub proof fn lemma_editing_acts_on_the_selection(s: ExecutorView, typed: Seq<char>)
    requires
        s.is_tabbing(),
        typed.len() > 0,
    ensures
        s.after_char(typed).0.scanner.buffer == trimmed(
            s.autocomplete.matches[s.autocomplete.index as int],
        ).push(typed.last()),
        trimmed(s.autocomplete.matches[s.autocomplete.index as int]).len() > 0
            ==> s.after_backspace().0.scanner.buffer == trimmed(
            s.autocomplete.matches[s.autocomplete.index as int],
        ).drop_last(),
        !s.after_char(typed).0.is_tabbing(),
        !s.after_backspace().0.is_tabbing(),
{
}

} // verus!
