//! Colors and themes the editor paints with.

use vstd::prelude::*;

verus! {

/// A terminal color.
#[derive(Clone, Copy, Debug, PartialEq, Eq)]
pub enum Color {
    /// The terminal's default color.
    Reset,
    /// Black.
    Black,
    /// Dark grey.
    DarkGrey,
    /// Light red.
    Red,
    /// Dark red.
    DarkRed,
    /// Light green.
    Green,
    /// Dark green.
    DarkGreen,
    /// Light yellow.
    Yellow,
    /// Dark yellow.
    DarkYellow,
    /// Light blue.
    Blue,
    /// Dark blue.
    DarkBlue,
    /// Light magenta.
    Magenta,
    /// Dark magenta.
    DarkMagenta,
    /// Light cyan.
    Cyan,
    /// Dark cyan.
    DarkCyan,
    /// White.
    White,
    /// Grey.
    Grey,
    /// A color given by its red, green and blue parts.
    Rgb { r: u8, g: u8, b: u8 },
    /// A color of the 256-color palette.
    AnsiValue(u8),
}

/// The colors of the prompt, of the inline completion and of the selected suggestion.
#[derive(Clone, Copy, Debug, PartialEq, Eq)]
pub struct Theme {
    /// The color of the prompt.
    pub prompt_color: Color,
    /// The color of the completion shown behind the cursor.
    pub autocomplete_color: Color,
    /// The text color of the selected suggestion.
    pub suggestion_fg: Color,
    /// The background color of the selected suggestion.
    pub suggestion_bg: Color,
}

/// The theme used unless another is chosen.
pub open spec fn default_theme_colors() -> Theme {
    Theme {
        prompt_color: Color::White,
        autocomplete_color: Color::DarkGreen,
        suggestion_fg: Color::Black,
        suggestion_bg: Color::Grey,
    }
}

/// The theme used unless another is chosen.
pub fn default_theme() -> (r: Theme)
    ensures
        r == default_theme_colors(),
{
    Theme {
        prompt_color: Color::White,
        autocomplete_color: Color::DarkGreen,
        suggestion_fg: Color::Black,
        suggestion_bg: Color::Grey,
    }
}

/// A theme in dark blue and grey.
pub fn dark_blue() -> (r: Theme)
    ensures
        r == (Theme {
            prompt_color: Color::DarkBlue,
            autocomplete_color: Color::DarkGrey,
            suggestion_fg: Color::DarkGrey,
            suggestion_bg: Color::DarkBlue,
        }),
{
    Theme {
        prompt_color: Color::DarkBlue,
        autocomplete_color: Color::DarkGrey,
        suggestion_fg: Color::DarkGrey,
        suggestion_bg: Color::DarkBlue,
    }
}

/// The one option of an editor without a theme: the color of its prompt.
#[derive(Clone, Copy, Debug, PartialEq, Eq)]
pub struct Options {
    /// The color of the prompt.
    pub prompt_color: Color,
}

impl Options {
    /// The default options: a white prompt.
    pub fn default() -> (r: Self)
        ensures
            r.prompt_color == Color::White,
    {
        Options { prompt_color: Color::White }
    }
}

} // verus!
