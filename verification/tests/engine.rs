use caprice::caprice::CapriceCommand;
use caprice::engine::Executor;
use caprice::engine::Outcome;
use caprice::scanner::Event;
use caprice::scanner::KeyCode;
use caprice::scanner::KeyEvent;
use caprice::scanner::KeyModifiers;
use caprice::terminal::Action;
use caprice::terminal::Viewport;
use caprice::theme::dark_blue;
use caprice::theme::default_theme;
use caprice::theme::Color;

fn key(code: KeyCode) -> Option<Event> {
    Some(Event::Key(KeyEvent {
        code,
        modifiers: KeyModifiers { shift: false, control: false, alt: false },
    }))
}

fn ctrl_c() -> Option<Event> {
    Some(Event::Key(KeyEvent {
        code: KeyCode::Char('c'),
        modifiers: KeyModifiers { shift: false, control: true, alt: false },
    }))
}

fn roomy() -> Viewport {
    Viewport { width: 80, height: 24, cursor_row: 0 }
}

fn owned(words: &[&str]) -> Vec<String> {
    words.iter().map(|w| w.to_string()).collect()
}

fn editor(keywords: &[&str]) -> Executor {
    let mut executor = Executor::new();
    executor.set_keywords(owned(keywords));
    executor
}

fn type_in(executor: &mut Executor, text: &str) -> Vec<Outcome> {
    text.chars().map(|c| executor.poll(key(KeyCode::Char(c)), roomy())).collect()
}

fn prompt() -> Action {
    Action::PrintColored { text: "!: ".to_owned(), color: Color::White }
}

fn print(text: &str) -> Action {
    Action::Print(text.to_owned())
}

fn highlighted(text: &str) -> Action {
    Action::PrintHighlighted {
        text: text.to_owned(),
        foreground: Color::Black,
        background: Color::Grey,
    }
}

fn grey(text: &str) -> Action {
    Action::PrintColored { text: text.to_owned(), color: Color::DarkGreen }
}

#[test]
fn a_new_editor_is_empty() {
    let executor = Executor::new();
    assert!(executor.keywords().is_empty());
    assert_eq!(executor.prompt(), "!:");
    assert_eq!(executor.theme(), default_theme());
    assert_eq!(executor.scanner().buffer(), "");
    assert!(executor.scanner().ctrl_c_enabled());
    assert!(!executor.autocomplete().is_tabbed());
    assert!(executor.autocomplete().get_keywords().is_empty());
}

#[test]
fn keywords_are_filtered_and_sorted_on_the_way_in() {
    let executor = editor(&["some_word", "2bad", "none", "some_other_word", "no good", ""]);
    assert_eq!(executor.keywords(), &owned(&["none", "some_other_word", "some_word"]));
}

#[test]
fn no_event_means_no_step() {
    let mut executor = editor(&["exit"]);
    type_in(&mut executor, "ex");
    assert_eq!(executor.poll(None, roomy()), Outcome { actions: vec![], token: None });
    assert_eq!(executor.scanner().buffer(), "ex");
}

#[test]
fn a_typed_keyword_is_committed_on_enter() {
    let mut executor = editor(&["exit"]);
    type_in(&mut executor, "exit");
    assert_eq!(executor.scanner().buffer(), "exit");
    let out = executor.poll(key(KeyCode::Enter), roomy());
    assert_eq!(out.token, Some("exit".to_owned()));
    assert_eq!(out.actions, vec![Action::GotoNextLine, Action::ClearFromCursor]);
    assert_eq!(executor.scanner().buffer(), "");
    assert!(!executor.autocomplete().is_tabbed());
}

#[test]
fn typing_echoes_and_shows_what_the_suggestions_share() {
    let mut executor = editor(&["some_word", "some_other_word", "none"]);
    let outs = type_in(&mut executor, "so");
    assert_eq!(
        outs[0],
        Outcome {
            actions: vec![print("s"), Action::SaveCursor, grey("ome_"), Action::RestoreCursor],
            token: None,
        }
    );
    assert_eq!(
        outs[1],
        Outcome {
            actions: vec![print("o"), Action::SaveCursor, grey("me_"), Action::RestoreCursor],
            token: None,
        }
    );
    assert_eq!(executor.autocomplete().get_keywords(), &owned(&["some_other_word", "some_word"]));
    assert_eq!(executor.autocomplete().get_common(), "some_");
    assert_eq!(executor.autocomplete().get_idx(), 1);

    let outs = type_in(&mut executor, "x");
    assert_eq!(outs[0].actions, vec![print("x"), Action::ClearFromCursor]);
    assert!(executor.autocomplete().get_keywords().is_empty());
    assert_eq!(executor.autocomplete().get_common(), "");
}

#[test]
fn rejected_characters_change_nothing() {
    let mut executor = editor(&["exit"]);
    type_in(&mut executor, "e");
    let outs = type_in(&mut executor, " -#");
    for out in outs {
        assert_eq!(out, Outcome { actions: vec![], token: None });
    }
    assert_eq!(executor.scanner().buffer(), "e");
}

#[test]
fn tab_without_keywords_paints_nothing() {
    let mut executor = Executor::new();
    type_in(&mut executor, "anything");
    let out = executor.poll(key(KeyCode::Tab), roomy());
    assert_eq!(out, Outcome { actions: vec![], token: None });
    assert!(executor.autocomplete().get_keywords().is_empty());
    assert_eq!(executor.autocomplete().get_current_tabbed_autocomplete(), None);
    assert_eq!(executor.scanner().buffer(), "anything");
}

#[test]
fn tab_on_an_empty_line_paints_nothing() {
    let mut executor = editor(&["exit", "none"]);
    let out = executor.poll(key(KeyCode::Tab), roomy());
    assert_eq!(out, Outcome { actions: vec![], token: None });
    assert!(executor.autocomplete().get_keywords().is_empty());
}

#[test]
fn tab_paints_the_panel_with_the_first_suggestion_selected() {
    let mut executor = editor(&["aa", "abcd", "b"]);
    type_in(&mut executor, "a");
    let out = executor.poll(key(KeyCode::Tab), roomy());
    assert_eq!(out.token, None);
    assert_eq!(
        out.actions,
        vec![
            Action::GotoBeginningOfLine,
            Action::SaveCursor,
            Action::GotoNextLine,
            highlighted("aa    "),
            print("abcd  "),
            Action::RestoreCursor,
            Action::GotoBeginningOfLine,
            prompt(),
            print("aa"),
        ]
    );
    assert!(executor.autocomplete().is_tabbed());
    assert_eq!(executor.autocomplete().get_idx(), 0);
    assert_eq!(executor.autocomplete().get_keywords(), &owned(&["aa  ", "abcd"]));
    assert_eq!(executor.scanner().buffer(), "a");
}

#[test]
fn tab_again_selects_the_next_suggestion_and_wraps_around() {
    let mut executor = editor(&["aa", "abcd", "b"]);
    type_in(&mut executor, "a");
    executor.poll(key(KeyCode::Tab), roomy());
    let out = executor.poll(key(KeyCode::Tab), roomy());
    assert_eq!(
        out.actions,
        vec![
            Action::GotoBeginningOfLine,
            Action::SaveCursor,
            Action::GotoNextLine,
            print("aa    "),
            highlighted("abcd  "),
            Action::RestoreCursor,
            Action::GotoBeginningOfLine,
            prompt(),
            print("abcd"),
        ]
    );
    assert_eq!(executor.autocomplete().get_idx(), 1);
    executor.poll(key(KeyCode::Tab), roomy());
    assert_eq!(executor.autocomplete().get_idx(), 0);
    assert_eq!(
        executor.autocomplete().get_current_tabbed_autocomplete(),
        Some("aa".to_owned())
    );
}

#[test]
fn the_panel_wraps_at_the_number_of_columns() {
    let mut executor = editor(&["k1", "k2", "k3", "k4", "k5"]);
    type_in(&mut executor, "k");
    // 12 / (2 + 2) = 3 fit, less the margin: 2 to a line, 3 lines, one row below the cursor
    let viewport = Viewport { width: 12, height: 10, cursor_row: 8 };
    let out = executor.poll(key(KeyCode::Tab), viewport);
    assert_eq!(
        out.actions,
        vec![
            Action::ScrollUp(2),
            Action::GotoBeginningOfLine,
            Action::SaveCursor,
            Action::GotoNextLine,
            highlighted("k1  "),
            print("k2  "),
            Action::GotoNextLine,
            print("k3  "),
            print("k4  "),
            Action::GotoNextLine,
            print("k5  "),
            Action::RestoreCursor,
            Action::GotoBeginningOfLine,
            prompt(),
            print("k1"),
        ]
    );
}

#[test]
fn a_terminal_too_narrow_gets_one_suggestion_per_line() {
    let mut executor = editor(&["k1", "k2"]);
    type_in(&mut executor, "k");
    let viewport = Viewport { width: 3, height: 10, cursor_row: 0 };
    let out = executor.poll(key(KeyCode::Tab), viewport);
    assert_eq!(
        out.actions,
        vec![
            Action::GotoBeginningOfLine,
            Action::SaveCursor,
            Action::GotoNextLine,
            highlighted("k1  "),
            Action::GotoNextLine,
            print("k2  "),
            Action::GotoNextLine,
            Action::RestoreCursor,
            Action::GotoBeginningOfLine,
            prompt(),
            print("k1"),
        ]
    );
}

#[test]
fn enter_commits_the_selected_suggestion_not_the_typed_prefix() {
    let mut executor = editor(&["some_word", "some_other_word", "none"]);
    type_in(&mut executor, "s");
    executor.poll(key(KeyCode::Tab), roomy());
    assert_eq!(
        executor.autocomplete().get_current_tabbed_autocomplete(),
        Some("some_other_word".to_owned())
    );
    let out = executor.poll(key(KeyCode::Enter), roomy());
    assert_eq!(out.token, Some("some_other_word".to_owned()));
    assert_eq!(out.actions, vec![Action::GotoNextLine, Action::ClearFromCursor]);
    assert_eq!(executor.scanner().buffer(), "");
    assert!(!executor.autocomplete().is_tabbed());
    assert_eq!(executor.autocomplete().get_current_tabbed_autocomplete(), None);
}

#[test]
fn enter_after_two_tabs_commits_the_second_suggestion() {
    let mut executor = editor(&["some_word", "some_other_word", "none"]);
    type_in(&mut executor, "s");
    executor.poll(key(KeyCode::Tab), roomy());
    executor.poll(key(KeyCode::Tab), roomy());
    let out = executor.poll(key(KeyCode::Enter), roomy());
    assert_eq!(out.token, Some("some_word".to_owned()));
}

#[test]
fn a_character_goes_behind_the_selected_suggestion() {
    let mut executor = editor(&["ab", "abc", "abcd1", "abd"]);
    type_in(&mut executor, "a");
    executor.poll(key(KeyCode::Tab), roomy());
    executor.poll(key(KeyCode::Tab), roomy());
    assert_eq!(
        executor.autocomplete().get_current_tabbed_autocomplete(),
        Some("abc".to_owned())
    );
    let out = executor.poll(key(KeyCode::Char('d')), roomy());
    assert_eq!(executor.scanner().buffer(), "abcd");
    assert_eq!(
        out.actions,
        vec![print("d"), Action::SaveCursor, grey("1"), Action::RestoreCursor]
    );
    assert_eq!(executor.autocomplete().get_keywords(), &owned(&["abcd1"]));
    assert!(!executor.autocomplete().is_tabbed());
}

#[test]
fn backspace_edits_the_selected_suggestion() {
    let mut executor = editor(&["some_word", "some_other_word", "none"]);
    type_in(&mut executor, "so");
    executor.poll(key(KeyCode::Tab), roomy());
    let out = executor.poll(key(KeyCode::Backspace), roomy());
    assert_eq!(out, Outcome { actions: vec![Action::Backspace, Action::ClearFromCursor], token: None });
    assert_eq!(executor.scanner().buffer(), "some_other_wor");
    assert!(!executor.autocomplete().is_tabbed());
}

#[test]
fn backspace_on_a_plain_line_removes_one_character() {
    let mut executor = editor(&["exit"]);
    type_in(&mut executor, "ex");
    let out = executor.poll(key(KeyCode::Backspace), roomy());
    assert_eq!(out.actions, vec![Action::Backspace, Action::ClearFromCursor]);
    assert_eq!(executor.scanner().buffer(), "e");
    executor.poll(key(KeyCode::Backspace), roomy());
    let out = executor.poll(key(KeyCode::Backspace), roomy());
    assert_eq!(out, Outcome { actions: vec![], token: None });
}

#[test]
fn unknown_input_is_dropped_in_silence() {
    let mut executor = editor(&["exit"]);
    type_in(&mut executor, "quit");
    let out = executor.poll(key(KeyCode::Enter), roomy());
    assert_eq!(
        out,
        Outcome {
            actions: vec![Action::GotoNextLine, prompt(), Action::ClearFromCursor],
            token: None,
        }
    );
    assert_eq!(executor.scanner().buffer(), "");
}

#[test]
fn an_empty_line_is_dropped_too() {
    let mut executor = editor(&["exit"]);
    let out = executor.poll(key(KeyCode::Enter), roomy());
    assert_eq!(out.token, None);
    assert_eq!(out.actions, vec![Action::GotoNextLine, prompt(), Action::ClearFromCursor]);
}

#[test]
fn the_list_command_prints_the_keywords() {
    let mut executor = editor(&["exit", "alpha"]);
    type_in(&mut executor, "/list");
    let out = executor.poll(key(KeyCode::Enter), roomy());
    assert_eq!(out.token, None);
    assert_eq!(
        out.actions,
        vec![
            Action::GotoNextLine,
            print("alpha"),
            Action::GotoNextLine,
            print("exit"),
            Action::GotoNextLine,
            Action::GotoBeginningOfLine,
            prompt(),
            Action::ClearFromCursor,
        ]
    );
    assert_eq!(executor.scanner().buffer(), "");
}

#[test]
fn a_keyword_with_arguments_is_committed_whole() {
    let mut executor = editor(&["exit"]);
    let out = executor.exec_token("exit now please".to_owned());
    assert_eq!(out.token, Some("exit now please".to_owned()));
    let out = executor.exec_token("exiting now".to_owned());
    assert_eq!(out.token, None);
    let out = executor.exec_token(" exit".to_owned());
    assert_eq!(out.token, None);
}

#[test]
fn the_interrupt_ends_the_session() {
    let mut executor = editor(&["exit"]);
    let out = executor.poll(ctrl_c(), roomy());
    assert_eq!(
        out,
        Outcome {
            actions: vec![
                Action::ClearFromCursor,
                Action::Flush,
                Action::DisableRawMode,
                Action::Exit,
            ],
            token: None,
        }
    );
}

#[test]
fn the_interrupt_can_be_switched_off() {
    let mut executor = editor(&["exit"]);
    executor.disable_ctrl_c();
    assert!(!executor.scanner().ctrl_c_enabled());
    let out = executor.poll(ctrl_c(), roomy());
    assert_eq!(out, Outcome { actions: vec![], token: None });
    assert_eq!(executor.scanner().buffer(), "");
}

#[test]
fn leaving_gives_the_alternate_screen_back() {
    let mut executor = Executor::new();
    assert_eq!(executor.enable_alternate_screen(), vec![Action::EnterAlternateScreen]);
    assert_eq!(
        executor.exec_exit(),
        vec![
            Action::ClearFromCursor,
            Action::Flush,
            Action::LeaveAlternateScreen,
            Action::DisableRawMode,
            Action::Exit,
        ]
    );
}

#[test]
fn a_message_of_the_host_is_followed_by_the_prompt() {
    let mut executor = editor(&["exit"]);
    executor.set_prompt("caprice>");
    executor.set_theme(dark_blue());
    let actions = executor.send(CapriceCommand::Println("bye".to_owned()));
    assert_eq!(
        actions,
        vec![
            print("bye"),
            Action::GotoNextLine,
            Action::PrintColored { text: "caprice> ".to_owned(), color: Color::DarkBlue },
            Action::ClearFromCursor,
        ]
    );
    assert_eq!(executor.send(CapriceCommand::Continue), vec![]);
    assert_eq!(
        executor.send(CapriceCommand::Exit),
        vec![Action::ClearFromCursor, Action::Flush, Action::DisableRawMode, Action::Exit]
    );
}

#[test]
fn the_prompt_is_reset_and_cleared() {
    let mut executor = editor(&["_a", "_ab"]);
    type_in(&mut executor, "_");
    executor.poll(key(KeyCode::Tab), roomy());
    assert!(executor.autocomplete().is_tabbed());
    assert_eq!(executor.reset_prompt(), vec![prompt(), Action::ClearFromCursor]);
    assert!(!executor.autocomplete().is_tabbed());
    assert_eq!(executor.autocomplete().get_idx(), 1);
    assert_eq!(executor.clear_prompt(), vec![Action::ClearFromCursor]);
}

#[test]
fn only_tab_needs_the_viewport() {
    assert!(Executor::needs_viewport(&key(KeyCode::Tab).unwrap()));
    assert!(!Executor::needs_viewport(&key(KeyCode::Enter).unwrap()));
    assert!(!Executor::needs_viewport(&key(KeyCode::Char('\t')).unwrap()));
    assert!(!Executor::needs_viewport(&Event::Other));
}

#[test]
fn replacing_the_keywords_keeps_the_line() {
    let mut executor = editor(&["exit"]);
    type_in(&mut executor, "no");
    executor.set_keywords(owned(&["none", "exit"]));
    assert_eq!(executor.scanner().buffer(), "no");
    let out = executor.poll(key(KeyCode::Char('n')), roomy());
    assert_eq!(
        out.actions,
        vec![print("n"), Action::SaveCursor, grey("e"), Action::RestoreCursor]
    );
}

#[test]
fn a_submitted_line_is_committed_run_or_dropped() {
    let mut executor = editor(&["exit", "alpha"]);
    type_in(&mut executor, "al");
    let out = executor.commit("alpha".to_owned());
    assert_eq!(
        out,
        Outcome {
            actions: vec![Action::GotoNextLine, Action::ClearFromCursor],
            token: Some("alpha".to_owned()),
        }
    );
    assert_eq!(executor.scanner().buffer(), "");

    let out = executor.commit("/list".to_owned());
    assert_eq!(out.token, None);
    assert_eq!(out.actions.len(), 8);

    let out = executor.commit("alph".to_owned());
    assert_eq!(
        out,
        Outcome {
            actions: vec![Action::GotoNextLine, prompt(), Action::ClearFromCursor],
            token: None,
        }
    );
}

#[test]
fn a_second_enter_finds_an_empty_line() {
    let mut executor = editor(&["some_word", "some_other_word"]);
    type_in(&mut executor, "some");
    executor.poll(key(KeyCode::Tab), roomy());
    let first = executor.poll(key(KeyCode::Enter), roomy());
    assert_eq!(first.token, Some("some_other_word".to_owned()));
    let second = executor.poll(key(KeyCode::Enter), roomy());
    assert_eq!(second.token, None);
    assert_eq!(second.actions, vec![Action::GotoNextLine, prompt(), Action::ClearFromCursor]);
}

#[test]
fn typing_after_a_commit_starts_afresh() {
    let mut executor = editor(&["exit", "extra"]);
    type_in(&mut executor, "exit");
    executor.poll(key(KeyCode::Enter), roomy());
    let outs = type_in(&mut executor, "e");
    assert_eq!(
        outs[0].actions,
        vec![print("e"), Action::SaveCursor, grey("x"), Action::RestoreCursor]
    );
    assert_eq!(executor.scanner().buffer(), "e");
}
