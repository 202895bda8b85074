//! The layout of the suggestion panel: how many suggestions fit in a line, how many lines
//! the panel takes, and by how much the viewport has to scroll to show them all.

use crate::terminal::Viewport;
use vstd::prelude::*;

verus! {

/// The number of spaces between two suggestions.
pub const WORD_SEPARATION: usize = 2;

/// The number of columns left free at the right edge of the terminal.
pub const WORD_MARGIN: usize = 1;

/// The most rows a terminal can be asked to scroll by.
pub const MAX_SCROLL: usize = 0xffff;

/// The width of one suggestion with the two spaces that separate it from the next.
pub open spec fn word_width(longest: nat) -> nat {
    longest + 2
}

/// The number of suggestions of byte length `longest` in one line of a terminal `width`
/// columns wide: as many as fit, less a margin of one, and never less than none.
pub open spec fn columns_per_line(width: nat, longest: nat) -> nat {
    let fit = width / word_width(longest);
    if fit > 1 {
        (fit - 1) as nat
    } else {
        0
    }
}

/// The number of suggestions that are painted in one line: `columns`, or one where the
/// terminal is too narrow for any.
pub open spec fn painted_columns(columns: nat) -> nat {
    if columns == 0 {
        1
    } else {
        columns
    }
}

/// The number of lines that `count` suggestions take, `columns` to a line.
pub open spec fn needed_lines(count: nat, columns: nat) -> nat {
    let per_line = painted_columns(columns);
    if count % per_line == 0 {
        count / per_line
    } else {
        count / per_line + 1
    }
}

/// The number of rows between the cursor's row and the bottom of the terminal.
pub open spec fn distance_to_end(viewport: Viewport) -> nat {
    if viewport.height > viewport.cursor_row + 1 {
        (viewport.height - (viewport.cursor_row + 1)) as nat
    } else {
        0
    }
}

/// The number of rows the viewport has to scroll up by so that `lines` lines fit below
/// the cursor: what is missing, up to the most a terminal can be asked for.
pub open spec fn scroll_rows(viewport: Viewport, lines: nat) -> nat {
    let room = distance_to_end(viewport);
    if room >= lines {
        0
    } else if lines - room > MAX_SCROLL {
        MAX_SCROLL as nat
    } else {
        (lines - room) as nat
    }
}

/// The layout of a suggestion panel.
#[derive(Clone, Copy, Debug, PartialEq, Eq)]
pub struct PanelLayout {
    /// The number of suggestions in one line; zero where the terminal is too narrow.
    pub columns: u16,
    /// The number of lines the panel takes.
    pub lines: usize,
    /// The number of rows to scroll up by before painting.
    pub scroll: u16,
}

/// The layout of a panel of `count` suggestions of byte length `longest`.
pub open spec fn panel_layout(viewport: Viewport, count: nat, longest: nat) -> PanelLayout {
    let columns = columns_per_line(viewport.width as nat, longest);
    let lines = needed_lines(count, columns);
    PanelLayout {
        columns: columns as u16,
        lines: lines as usize,
        scroll: scroll_rows(viewport, lines) as u16,
    }
}

/// The number of lines a panel takes is the number of suggestions divided by the number
/// in a line, rounded up.
pub proof fn lemma_needed_lines_rounds_up(count: nat, columns: nat)
    ensures
        needed_lines(count, columns) * painted_columns(columns) >= count,
        count > 0 ==> (needed_lines(count, columns) - 1) * painted_columns(columns) < count,
        needed_lines(count, columns) <= count,
{
    let per_line = painted_columns(columns) as int;
    let n = count as int;
    assert(n == per_line * (n / per_line) + n % per_line && 0 <= n % per_line < per_line
        && n / per_line <= n && (n % per_line != 0 ==> n / per_line < n)) by (nonlinear_arith)
        requires
            per_line >= 1,
            n >= 0,
    ;
    let lines = needed_lines(count, columns) as int;
    assert(lines * per_line >= n && (n > 0 ==> (lines - 1) * per_line < n))
        by (nonlinear_arith)
        requires
            per_line >= 1,
            n == per_line * (n / per_line) + n % per_line,
            0 <= n % per_line < per_line,
            lines == if n % per_line == 0 {
                n / per_line
            } else {
                n / per_line + 1
            },
    ;
}

/// Scrolling makes room: after scrolling up, the rows below the cursor hold the panel,
/// unless the panel asks for more rows than a terminal can be asked to scroll by. Where
/// the panel fits as it is, nothing scrolls.
pub proof fn lemma_scrolling_makes_room(viewport: Viewport, lines: nat)
    ensures
        distance_to_end(viewport) + scroll_rows(viewport, lines) >= lines || scroll_rows(
            viewport,
            lines,
        ) == MAX_SCROLL,
        distance_to_end(viewport) >= lines <==> scroll_rows(viewport, lines) == 0,
        scroll_rows(viewport, lines) <= MAX_SCROLL,
{
}

/// A line holds at least one suggestion wherever two fit with their separation, and as
/// many suggestions as are painted in a line fit into the terminal's width.
pub proof fn lemma_columns_fit(width: nat, longest: nat)
    ensures
        columns_per_line(width, longest) > 0 <==> width >= 2 * word_width(longest),
        columns_per_line(width, longest) * word_width(longest) <= width,
{
    let cell = word_width(longest) as int;
    let w = width as int;
    let fit = w / cell;
    assert(fit * cell <= w < (fit + 1) * cell && fit >= 0) by (nonlinear_arith)
        requires
            cell >= 1,
            w >= 0,
            fit == w / cell,
    ;
    assert((fit > 1 <==> w >= 2 * cell) && (fit - 1) * cell <= w) by (nonlinear_arith)
        requires
            cell >= 1,
            fit * cell <= w < (fit + 1) * cell,
            fit >= 0,
    ;
    if fit > 1 {
        assert(columns_per_line(width, longest) == fit - 1);
    } else {
        assert(columns_per_line(width, longest) == 0);
        assert(0 * cell == 0) by (nonlinear_arith);
    }
}

/// The number of suggestions of byte length `longest` in one line of a terminal `width`
/// columns wide.
pub fn fit_columns(width: u16, longest: usize) -> (r: u16)
    ensures
        r == columns_per_line(width as nat, longest as nat),
        r > 0 ==> (r + 1) * (longest + 2) <= width < (r + 2) * (longest + 2),
        r == 0 ==> width < 2 * (longest + 2),
{
    if longest >= width as usize {
        assert(width as nat / word_width(longest as nat) == 0) by (nonlinear_arith)
            requires
                width < word_width(longest as nat),
        ;
        return 0;
    }
    let cell: usize = longest + WORD_SEPARATION;
    let fit: usize = width as usize / cell;
    assert(fit <= width && fit * cell <= width < (fit + 1) * cell) by (nonlinear_arith)
        requires
            fit == width as usize / cell,
            cell >= 1,
    ;
    if fit > WORD_MARGIN {
        (fit - WORD_MARGIN) as u16
    } else {
        assert(width < 2 * cell) by (nonlinear_arith)
            requires
                fit <= 1,
                width < (fit + 1) * cell,
                cell >= 1,
        ;
        0
    }
}

/// The number of lines that `count` suggestions take, `columns` to a line.
pub fn count_lines(count: usize, columns: u16) -> (r: usize)
    ensures
        r == needed_lines(count as nat, columns as nat),
        columns == 0 ==> r == count,
        columns > 0 ==> (r - 1) * columns < count <= r * columns,
{
    let per_line: usize = if columns == 0 {
        1
    } else {
        columns as usize
    };
    proof {
        lemma_needed_lines_rounds_up(count as nat, columns as nat);
        if columns == 0 {
            assert(count as int % 1 == 0 && count as int / 1 == count);
        }
    }
    let lines: usize = if count % per_line == 0 {
        count / per_line
    } else {
        count / per_line + 1
    };
    assert((lines - 1) * per_line < count <= lines * per_line) by (nonlinear_arith)
        requires
            per_line >= 1,
            lines * per_line >= count,
            count > 0 ==> (lines - 1) * per_line < count,
            count == 0 ==> lines == 0,
    ;
    lines
}

/// The number of rows to scroll up by so that `lines` lines fit below the cursor.
pub fn scroll_deficit(viewport: Viewport, lines: usize) -> (r: u16)
    ensures
        r == scroll_rows(viewport, lines as nat),
{
    let below: u32 = viewport.cursor_row as u32 + 1;
    let room: usize = if viewport.height as u32 > below {
        (viewport.height as u32 - below) as usize
    } else {
        0
    };
    if room >= lines {
        0
    } else if lines - room > MAX_SCROLL {
        MAX_SCROLL as u16
    } else {
        (lines - room) as u16
    }
}

/// Lays out a panel of `count` suggestions of byte length `longest`.
pub fn layout_panel(viewport: Viewport, count: usize, longest: usize) -> (r: PanelLayout)
    ensures
        r == panel_layout(viewport, count as nat, longest as nat),
{
    let columns: u16 = fit_columns(viewport.width, longest);
    let lines: usize = count_lines(count, columns);
    let scroll: u16 = scroll_deficit(viewport, lines);
    PanelLayout { columns, lines, scroll }
}

} // verus!
