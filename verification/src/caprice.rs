//! What the host application can ask of a running editor.

use vstd::prelude::*;

verus! {

/// A command of the host application to the editor.
#[derive(Debug, PartialEq, Eq)]
pub enum CapriceCommand {
    /// Print the text, go to the next line and show the prompt again.
    Println(String),
    /// End the session.
    Exit,
    /// Go on with the next line; sent where a line was received and nothing is to be
    /// printed.
    Continue,
}

/// A command of the host application as plain values.
pub enum CapriceCommandView {
    /// Print the text, go to the next line and show the prompt again.
    Println(Seq<char>),
    /// End the session.
    Exit,
    /// Go on with the next line.
    Continue,
}

impl View for CapriceCommand {
    type V = CapriceCommandView;

    open spec fn view(&self) -> CapriceCommandView {
        match self {
            CapriceCommand::Println(text) => CapriceCommandView::Println(text@),
            CapriceCommand::Exit => CapriceCommandView::Exit,
            CapriceCommand::Continue => CapriceCommandView::Continue,
        }
    }
}

} // verus!
