//! The boundary to the screen: what the editor asks a terminal to do, as plain values, and
//! what it needs to know of the terminal to lay out the suggestion panel.

use crate::theme::Color;
use vstd::prelude::*;

verus! {

/// What the editor needs to know of the terminal when it lays out the suggestion panel.
#[derive(Clone, Copy, Debug, PartialEq, Eq)]
pub struct Viewport {
    /// The width of the terminal, in columns.
    pub width: u16,
    /// The height of the terminal, in rows.
    pub height: u16,
    /// The row the cursor is in, counted from zero.
    pub cursor_row: u16,
}

/// One thing the terminal is asked to do.
#[derive(Debug, PartialEq, Eq)]
pub enum Action {
    /// Write out what is pending.
    Flush,
    /// Clear from the cursor to the end of the screen.
    ClearFromCursor,
    /// Clear from the cursor to the end of the screen and start the next line.
    GotoNextLine,
    /// Move the cursor to the first column of its line.
    GotoBeginningOfLine,
    /// Remember where the cursor is.
    SaveCursor,
    /// Move the cursor to where it was remembered.
    RestoreCursor,
    /// Scroll the viewport up by this many rows, and the cursor with it.
    ScrollUp(u16),
    /// Move left by one column and clear the rest of the line.
    Backspace,
    /// Switch to the alternate screen, cursor at the top left.
    EnterAlternateScreen,
    /// Switch back from the alternate screen.
    LeaveAlternateScreen,
    /// Switch the terminal back from raw input.
    DisableRawMode,
    /// Print text as it is.
    Print(String),
    /// Print text in a color, and return to the default colors.
    PrintColored { text: String, color: Color },
    /// Print text in a color on a colored background, and return to the defaults.
    PrintHighlighted { text: String, foreground: Color, background: Color },
    /// End the process.
    Exit,
}

/// A request to the terminal as plain values.
pub enum ActionView {
    /// Write out what is pending.
    Flush,
    /// Clear from the cursor to the end of the screen.
    ClearFromCursor,
    /// Clear from the cursor to the end of the screen and start the next line.
    GotoNextLine,
    /// Move the cursor to the first column of its line.
    GotoBeginningOfLine,
    /// Remember where the cursor is.
    SaveCursor,
    /// Move the cursor to where it was remembered.
    RestoreCursor,
    /// Scroll the viewport up by this many rows, and the cursor with it.
    ScrollUp(u16),
    /// Move left by one column and clear the rest of the line.
    Backspace,
    /// Switch to the alternate screen, cursor at the top left.
    EnterAlternateScreen,
    /// Switch back from the alternate screen.
    LeaveAlternateScreen,
    /// Switch the terminal back from raw input.
    DisableRawMode,
    /// Print text as it is.
    Print(Seq<char>),
    /// Print text in a color, and return to the default colors.
    PrintColored { text: Seq<char>, color: Color },
    /// Print text in a color on a colored background, and return to the defaults.
    PrintHighlighted { text: Seq<char>, foreground: Color, background: Color },
    /// End the process.
    Exit,
}

impl View for Action {
    type V = ActionView;

    open spec fn view(&self) -> ActionView {
        match self {
            Action::Flush => ActionView::Flush,
            Action::ClearFromCursor => ActionView::ClearFromCursor,
            Action::GotoNextLine => ActionView::GotoNextLine,
            Action::GotoBeginningOfLine => ActionView::GotoBeginningOfLine,
            Action::SaveCursor => ActionView::SaveCursor,
            Action::RestoreCursor => ActionView::RestoreCursor,
            Action::ScrollUp(rows) => ActionView::ScrollUp(*rows),
            Action::Backspace => ActionView::Backspace,
            Action::EnterAlternateScreen => ActionView::EnterAlternateScreen,
            Action::LeaveAlternateScreen => ActionView::LeaveAlternateScreen,
            Action::DisableRawMode => ActionView::DisableRawMode,
            Action::Print(text) => ActionView::Print(text@),
            Action::PrintColored { text, color } => ActionView::PrintColored {
                text: text@,
                color: *color,
            },
            Action::PrintHighlighted { text, foreground, background } => {
                ActionView::PrintHighlighted {
                    text: text@,
                    foreground: *foreground,
                    background: *background,
                }
            },
            Action::Exit => ActionView::Exit,
        }
    }
}

/// The requests of a list as plain values.
pub open spec fn action_views(actions: Seq<Action>) -> Seq<ActionView> {
    Seq::new(actions.len(), |i: int| actions[i]@)
}

/// Adds a request at the end of a list.
pub fn push_action(actions: &mut Vec<Action>, action: Action)
    ensures
        action_views(final(actions)@) == action_views(old(actions)@).push(action@),
{
    actions.push(action);
    assert(action_views(actions@) =~= action_views(old(actions)@).push(action@));
}

/// Adds the requests of one list at the end of another.
pub fn append_actions(actions: &mut Vec<Action>, more: Vec<Action>)
    ensures
        action_views(final(actions)@) == action_views(old(actions)@) + action_views(more@),
{
    let mut more = more;
    let ghost first = actions@;
    let ghost second = more@;
    actions.append(&mut more);
    assert(action_views(actions@) =~= action_views(first) + action_views(second));
}

} // verus!
