//! The editor pane: which lines of the buffer it shows, and how the line
//! under the cursor is cut around the cursor.

use crate::text::{from_chars, sub_chars, to_chars, views};
use vstd::prelude::*;

verus! {

/// What the editor pane shows of: the text that was typed so far, and
/// where the cursor stands in it.
#[derive(Debug, Clone)]
pub struct EditorBuffer {
    pub lines: Vec<String>,
    /// The number of the first line that is shown.
    pub scroll_offset: usize,
    /// The number of the line that the cursor is on.
    pub cursor_line: usize,
    /// The number of the character that the cursor is on.
    pub cursor_col: usize,
    /// Whether the cursor is shown at the moment.
    pub cursor_visible: bool,
}

/// One line as the editor pane shows it.
#[derive(Debug, Clone, PartialEq, Eq)]
pub enum RenderedLine {
    /// The line as it is.
    Plain(String),
    /// The line under the cursor: what stands before the cursor, where it
    /// is shown apart; the character under the cursor, a blank where it
    /// stands behind the line; and what stands after it, where anything does.
    WithCursor { before: Option<String>, cursor: char, after: Option<String> },
}

/// A `RenderedLine` as mathematical values.
pub enum RenderedLineView {
    Plain(Seq<char>),
    WithCursor { before: Option<Seq<char>>, cursor: char, after: Option<Seq<char>> },
}

/// The text of `text`, where there is one.
pub open spec fn part_view(text: Option<String>) -> Option<Seq<char>> {
    match text {
        Some(held) => Some(held@),
        None => None,
    }
}

impl View for RenderedLine {
    type V = RenderedLineView;

    open spec fn view(&self) -> RenderedLineView {
        match self {
            RenderedLine::Plain(text) => RenderedLineView::Plain(text@),
            RenderedLine::WithCursor { before, cursor, after } => RenderedLineView::WithCursor {
                before: part_view(*before),
                cursor: *cursor,
                after: part_view(*after),
            },
        }
    }
}

/// What each of `lines` is, as mathematical values.
pub open spec fn rendered_views(lines: Seq<RenderedLine>) -> Seq<RenderedLineView> {
    Seq::new(lines.len(), |i: int| lines[i]@)
}

/// The line `line` with the cursor on its character of number `col`.
pub open spec fn spec_cursor_line(line: Seq<char>, col: nat) -> RenderedLineView {
    RenderedLineView::WithCursor {
        before: if 0 < col <= line.len() {
            Some(line.subrange(0, col as int))
        } else {
            None
        },
        cursor: if col < line.len() {
            line[col as int]
        } else {
            ' '
        },
        after: if col + 1 < line.len() {
            Some(line.subrange(col as int + 1, line.len() as int))
        } else {
            None
        },
    }
}

/// How many lines a pane of the height `area_height` shows: its border
/// takes two.
pub open spec fn spec_content_height(area_height: u16) -> nat {
    if area_height < 2 {
        0
    } else {
        (area_height - 2) as nat
    }
}

/// How many lines are shown of `total`, from the line `scroll_offset` on,
/// in a pane of the height `area_height`.
pub open spec fn spec_visible_count(total: nat, scroll_offset: nat, area_height: u16) -> nat {
    if scroll_offset >= total {
        0
    } else if total - scroll_offset < spec_content_height(area_height) {
        (total - scroll_offset) as nat
    } else {
        spec_content_height(area_height)
    }
}

/// The line of number `number` as it is shown.
pub open spec fn spec_rendered_line(
    lines: Seq<Seq<char>>,
    number: int,
    cursor_line: nat,
    cursor_col: nat,
    cursor_visible: bool,
) -> RenderedLineView {
    if number == cursor_line && cursor_visible {
        spec_cursor_line(lines[number], cursor_col)
    } else {
        RenderedLineView::Plain(lines[number])
    }
}

/// What a pane of the height `area_height` shows of the buffer: the lines
/// from the scroll offset on, as many as fit, the line under a visible
/// cursor cut around the cursor.
pub open spec fn spec_render(
    lines: Seq<Seq<char>>,
    scroll_offset: nat,
    cursor_line: nat,
    cursor_col: nat,
    cursor_visible: bool,
    area_height: u16,
) -> Seq<RenderedLineView> {
    Seq::new(
        spec_visible_count(lines.len(), scroll_offset, area_height),
        |i: int| spec_rendered_line(lines, scroll_offset + i, cursor_line, cursor_col, cursor_visible),
    )
}

/// The editor pane.
#[derive(Debug, Clone, Copy)]
pub struct EditorPane;

impl EditorPane {
    /// What the pane shows of `buffer` in an area of the height
    /// `area_height`, top down.
    pub fn render(&self, area_height: u16, buffer: &EditorBuffer) -> (shown: Vec<RenderedLine>)
        ensures
            rendered_views(shown@) == spec_render(
                views(buffer.lines@),
                buffer.scroll_offset as nat,
                buffer.cursor_line as nat,
                buffer.cursor_col as nat,
                buffer.cursor_visible,
                area_height,
            ),
    {
        let content_height: usize = if area_height < 2 {
            0
        } else {
            (area_height - 2) as usize
        };
        let total: usize = buffer.lines.len();
        let count: usize = if buffer.scroll_offset >= total {
            0
        } else if total - buffer.scroll_offset < content_height {
            total - buffer.scroll_offset
        } else {
            content_height
        };
        let ghost target = spec_render(
            views(buffer.lines@),
            buffer.scroll_offset as nat,
            buffer.cursor_line as nat,
            buffer.cursor_col as nat,
            buffer.cursor_visible,
            area_height,
        );
        assert(views(buffer.lines@).len() == total);
        let mut shown: Vec<RenderedLine> = Vec::new();
        let mut i: usize = 0;
        while i < count
            invariant
                i <= count,
                count == target.len(),
                count > 0 ==> buffer.scroll_offset + count <= buffer.lines.len(),
                target == spec_render(
                    views(buffer.lines@),
                    buffer.scroll_offset as nat,
                    buffer.cursor_line as nat,
                    buffer.cursor_col as nat,
                    buffer.cursor_visible,
                    area_height,
                ),
                rendered_views(shown@) == target.take(i as int),
            decreases count - i,
        {
            let number: usize = buffer.scroll_offset + i;
            let line = &buffer.lines[number];
            let rendered = if number == buffer.cursor_line && buffer.cursor_visible {
                cursor_line(line.as_str(), buffer.cursor_col)
            } else {
                RenderedLine::Plain(line.clone())
            };
            proof {
                assert(rendered@ == target[i as int]);
                assert(rendered_views(shown@.push(rendered)) == rendered_views(shown@).push(
                    rendered@,
                ));
                assert(target.take(i + 1) == target.take(i as int).push(rendered@));
            }
            shown.push(rendered);
            i += 1;
        }
        assert(target.take(count as int) == target);
        shown
    }
}

/// The line `line` with the cursor on its character of number `col`.
pub fn cursor_line(line: &str, col: usize) -> (rendered: RenderedLine)
    ensures
        rendered@ == spec_cursor_line(line@, col as nat),
{
    let chars = to_chars(line);
    let n: usize = chars.len();
    let before: Option<String> = if 0 < col && col <= n {
        Some(from_chars(&sub_chars(&chars, 0, col)))
    } else {
        None
    };
    let cursor: char = if col < n {
        chars[col]
    } else {
        ' '
    };
    let after: Option<String> = if col < n && col + 1 < n {
        Some(from_chars(&sub_chars(&chars, col + 1, n)))
    } else {
        None
    };
    RenderedLine::WithCursor { before, cursor, after }
}

} // verus!
