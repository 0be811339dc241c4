//! Drawing: the text that, written to the terminal, shows the session.
//!
//! A frame is a function of the session, the document shown and the time
//! ([`frame`]). It holds the lines of the window, the status line, the
//! message line and the escape sequences that place the cursor.

use crate::editor::{Editor, EditorView};
use crate::line::{expand, spaces};
use crate::tab::{all_current, Tab, TabView};
use crate::text::{chars_of, decimal, push_all, push_decimal, push_range, push_repeat, push_str};
use vstd::prelude::*;

verus! {

/// How long a status message stays on the screen, in milliseconds.
pub const MESSAGE_MILLIS: u64 = 5000;

/// The widest part of a file name that the status line shows.
pub const NAME_WIDTH: usize = 20;

/// The banner of an empty document.
pub open spec fn welcome() -> Seq<char> {
    "Kilo editor -- version 0.0.1"@
}

/// The first `n` characters of `text`, or all of it if it has no more.
pub open spec fn truncated(text: Seq<char>, n: int) -> Seq<char> {
    if 0 <= n < text.len() {
        text.take(n)
    } else {
        text
    }
}

/// The banner cut to the width of the screen and centred behind a filler
/// mark.
pub open spec fn welcome_line(cols: int) -> Seq<char> {
    let msg = truncated(welcome(), cols);
    let padding = (cols - msg.len()) / 2;
    if padding > 0 {
        seq!['~'] + spaces(padding - 1) + msg
    } else {
        msg
    }
}

/// The part of a render form that falls into a window of `cols` columns
/// from column `col_offset` on; empty where the line ends before the
/// window.
pub open spec fn visible_part(render: Seq<char>, col_offset: int, cols: int) -> Seq<char> {
    let rest = if render.len() > col_offset {
        render.len() - col_offset
    } else {
        0
    };
    let len = if rest > cols {
        cols
    } else {
        rest
    };
    let start = if len == 0 {
        0
    } else {
        col_offset
    };
    render.subrange(start, start + len)
}

/// Screen row `y` of a screen of `rows` by `cols`: the visible part of
/// the line that falls on it; below the text a filler mark, or the banner
/// on the row a third down the screen of an empty document. The row ends
/// with erase-to-end-of-line and a line break.
pub open spec fn row_text(rows: int, cols: int, tab: TabView, y: int) -> Seq<char> {
    let filerow = y + tab.row_offset;
    (if filerow >= tab.rows.len() {
        if tab.rows.len() == 0 && y == rows / 3 {
            welcome_line(cols)
        } else {
            seq!['~']
        }
    } else {
        visible_part(expand(tab.rows[filerow]), tab.col_offset, cols)
    }) + "\x1b[K"@ + "\r\n"@
}

/// The first `upto` screen rows.
pub open spec fn rows_text(rows: int, cols: int, tab: TabView, upto: int) -> Seq<char>
    decreases upto,
{
    if upto <= 0 {
        Seq::empty()
    } else {
        rows_text(rows, cols, tab, upto - 1) + row_text(rows, cols, tab, upto - 1)
    }
}

/// The left part of the status line: file name, cut to [`NAME_WIDTH`],
/// number of lines, and a mark if there are unsaved changes.
pub open spec fn status_left(tab: TabView) -> Seq<char> {
    (match tab.filename {
        Some(name) => truncated(name, NAME_WIDTH as int),
        None => "[No Name]"@,
    }) + " - "@ + decimal(tab.rows.len()) + " lines "@ + (if tab.dirty > 0 {
        "(modified)"@
    } else {
        Seq::empty()
    })
}

/// The right part of the status line: line and column of the cursor,
/// counted from 1.
pub open spec fn status_right(tab: TabView) -> Seq<char> {
    decimal((tab.cy + 1) as nat) + seq![':'] + decimal((tab.cx + 1) as nat)
}

/// A line of `cols` columns with `left` at its start, cut to the line,
/// and `right` at its end, blanks between them. Where `right` does not
/// fit behind `left`, blanks fill the line in its place.
pub open spec fn laid_out(cols: int, left: Seq<char>, right: Seq<char>) -> Seq<char> {
    let left = truncated(left, cols);
    let gap = cols - left.len();
    left + if gap >= right.len() {
        spaces(gap - right.len()) + right
    } else {
        spaces(gap)
    }
}

/// The status line on a screen of `cols` columns.
pub open spec fn status_line(cols: int, tab: TabView) -> Seq<char> {
    laid_out(cols, status_left(tab), status_right(tab))
}

/// The status message is on the screen at time `now`: there is one, the
/// screen has columns, and less than [`MESSAGE_MILLIS`] have passed since
/// it was set.
pub open spec fn message_shown(e: EditorView, now: int) -> bool {
    e.statusmsg.len() > 0 && e.screencols > 0 && now - e.statusmsg_t < MESSAGE_MILLIS
}

/// The status line in inverted colours, and the message line below it.
pub open spec fn status_bar(e: EditorView, tab: TabView, now: int) -> Seq<char> {
    "\x1b[7m"@ + status_line(e.screencols, tab) + "\x1b[m"@ + "\r\n"@ + "\x1b[K"@ + (
    if message_shown(e, now) {
        e.statusmsg
    } else {
        Seq::empty()
    })
}

/// The escape sequence that puts the terminal's cursor where the
/// document's cursor is in the window, rows and columns counted from 1.
pub open spec fn cursor_to(tab: TabView) -> Seq<char> {
    "\x1b["@ + decimal((tab.cy - tab.row_offset + 1) as nat) + seq![';'] + decimal(
        (tab.rx - tab.col_offset + 1) as nat,
    ) + seq!['H']
}

/// A whole frame: cursor hidden and sent home, the rows, the status bar,
/// the cursor placed and shown again.
pub open spec fn frame(e: EditorView, tab: TabView, now: int) -> Seq<char> {
    "\x1b[?25l"@ + "\x1b[H"@ + rows_text(e.screenrows, e.screencols, tab, e.screenrows)
        + status_bar(e, tab, now) + cursor_to(tab) + "\x1b[?25h"@
}

/// The document that a frame of `e` shows: the active one, or an empty
/// one where no document is open.
pub open spec fn shown_tab(e: EditorView) -> TabView {
    if e.tabs.len() > 0 {
        e.active()
    } else {
        TabView::empty(0, 0)
    }
}

fn push_welcome_line(out: &mut Vec<char>, cols: usize)
    ensures
        final(out)@ == old(out)@ + welcome_line(cols as int),
{
    let mut msg = chars_of("Kilo editor -- version 0.0.1");
    if cols < msg.len() {
        msg.truncate(cols);
    }
    assert(msg@ =~= truncated(welcome(), cols as int));
    let padding = (cols - msg.len()) / 2;
    if padding > 0 {
        out.push('~');
        push_repeat(out, ' ', padding - 1);
        push_all(out, &msg);
        proof {
            assert(Seq::new((padding - 1) as nat, |i: int| ' ') =~= spaces(padding - 1));
            assert(out@ =~= old(out)@ + (seq!['~'] + spaces(padding - 1) + msg@));
        }
    } else {
        push_all(out, &msg);
    }
}

fn push_visible_part(out: &mut Vec<char>, render: &Vec<char>, col_offset: usize, cols: usize)
    ensures
        final(out)@ == old(out)@ + visible_part(render@, col_offset as int, cols as int),
{
    let rsize = render.len();
    let rest = if rsize > col_offset {
        rsize - col_offset
    } else {
        0
    };
    let len = if rest > cols {
        cols
    } else {
        rest
    };
    let start = if len == 0 {
        0
    } else {
        col_offset
    };
    push_range(out, render, start, start + len);
}

fn push_spaces(out: &mut Vec<char>, n: usize)
    ensures
        final(out)@ == old(out)@ + spaces(n as int),
{
    push_repeat(out, ' ', n);
    proof {
        assert(Seq::new(n as nat, |i: int| ' ') =~= spaces(n as int));
    }
}

fn status_left_text(tab: &Tab) -> (status: Vec<char>)
    ensures
        status@ == status_left(tab@),
{
    let mut status: Vec<char> = Vec::new();
    match &tab.filename {
        Some(name) => {
            let shown = if name.len() > NAME_WIDTH {
                NAME_WIDTH
            } else {
                name.len()
            };
            push_range(&mut status, name, 0, shown);
            assert(status@ =~= truncated(name@, NAME_WIDTH as int));
        },
        None => {
            push_str(&mut status, "[No Name]");
        },
    }
    push_str(&mut status, " - ");
    push_decimal(&mut status, tab.rows.len() as u128);
    push_str(&mut status, " lines ");
    if tab.dirty > 0 {
        push_str(&mut status, "(modified)");
    } else {
        assert(status@ =~= status@ + Seq::<char>::empty());
    }
    status
}

fn status_right_text(tab: &Tab) -> (rstatus: Vec<char>)
    ensures
        rstatus@ == status_right(tab@),
{
    let mut rstatus: Vec<char> = Vec::new();
    push_decimal(&mut rstatus, tab.cy as u128 + 1);
    rstatus.push(':');
    push_decimal(&mut rstatus, tab.cx as u128 + 1);
    assert(rstatus@ =~= status_right(tab@));
    rstatus
}

fn push_laid_out(out: &mut Vec<char>, cols: usize, left: &Vec<char>, right: &Vec<char>)
    ensures
        final(out)@ == old(out)@ + laid_out(cols as int, left@, right@),
{
    let len = if cols < left.len() {
        cols
    } else {
        left.len()
    };
    push_range(out, left, 0, len);
    assert(left@.subrange(0, len as int) =~= truncated(left@, cols as int));
    let gap = cols - len;
    if gap >= right.len() {
        push_spaces(out, gap - right.len());
        push_all(out, right);
    } else {
        push_spaces(out, gap);
    }
}

impl Editor {
    /// Appends the rows of the window to `out`.
    pub fn draw_rows(&self, out: &mut Vec<char>, tab: &Tab)
        requires
            all_current(tab.rows@),
        ensures
            final(out)@ == old(out)@ + rows_text(
                self.screenrows as int,
                self.screencols as int,
                tab@,
                self.screenrows as int,
            ),
    {
        let rows = self.screenrows;
        let cols = self.screencols;
        let numrows = tab.rows.len();
        let mut y: usize = 0;
        while y < rows
            invariant
                y <= rows,
                rows == self.screenrows,
                cols == self.screencols,
                numrows == tab.rows@.len(),
                all_current(tab.rows@),
                out@ == old(out)@ + rows_text(rows as int, cols as int, tab@, y as int),
            decreases rows - y,
        {
            let ghost before = out@;
            if tab.row_offset >= numrows || y >= numrows - tab.row_offset {
                if numrows == 0 && y == rows / 3 {
                    push_welcome_line(out, cols);
                } else {
                    out.push('~');
                    assert(out@ =~= before + seq!['~']);
                }
            } else {
                let filerow = y + tab.row_offset;
                assert(tab.rows@[filerow as int].is_current());
                push_visible_part(out, &tab.rows[filerow].render, tab.col_offset, cols);
            }
            push_str(out, "\x1b[K");
            push_str(out, "\r\n");
            proof {
                assert(out@ =~= before + row_text(rows as int, cols as int, tab@, y as int));
                assert(out@ =~= old(out)@ + rows_text(rows as int, cols as int, tab@, y + 1));
            }
            y += 1;
        }
    }

    /// Appends the status line and the message line to `out`.
    pub fn draw_status_bar(&self, out: &mut Vec<char>, tab: &Tab, now: u64)
        ensures
            final(out)@ == old(out)@ + status_bar(self@, tab@, now as int),
    {
        let status = status_left_text(tab);
        let rstatus = status_right_text(tab);
        push_str(out, "\x1b[7m");
        push_laid_out(out, self.screencols, &status, &rstatus);
        push_str(out, "\x1b[m");
        push_str(out, "\r\n");
        push_str(out, "\x1b[K");
        let msglen = if self.statusmsg.len() < self.screencols {
            self.statusmsg.len()
        } else {
            self.screencols
        };
        if msglen > 0 && (now < self.statusmsg_t || now - self.statusmsg_t < MESSAGE_MILLIS) {
            push_all(out, &self.statusmsg);
        } else {
            assert(out@ =~= out@ + Seq::<char>::empty());
        }
    }

    /// Scrolls the active document so that its cursor is in the window,
    /// and gives the frame that shows the session at time `now`.
    pub fn refresh_screen(&mut self, now: u64) -> (out: Vec<char>)
        requires
            old(self).wf(),
            old(self).tabs@.len() > 0 ==> old(self).tabs@[old(self).tab_index as int].screenrows
                >= 1 && old(self).tabs@[old(self).tab_index as int].screencols >= 1,
        ensures
            final(self).wf(),
            final(self)@ == if old(self)@.tabs.len() > 0 {
                old(self)@.with_active(old(self)@.active().scroll())
            } else {
                old(self)@
            },
            old(self)@.tabs.len() > 0 ==> final(self)@.active().cursor_visible(),
            out@ == frame(final(self)@, shown_tab(final(self)@), now as int),
    {
        let blank = Tab::new(0, 0);
        if self.tabs.len() > 0 {
            self.tabs[self.tab_index].scroll();
            proof {
                let a = old(self)@;
                assert(self@.tabs =~= a.tabs.update(a.tab_index, a.active().scroll()));
            }
        }
        let tab: &Tab = if self.tabs.len() > 0 {
            &self.tabs[self.tab_index]
        } else {
            &blank
        };
        assert(tab@ == shown_tab(self@));
        let mut out: Vec<char> = Vec::new();
        push_str(&mut out, "\x1b[?25l");
        push_str(&mut out, "\x1b[H");
        self.draw_rows(&mut out, tab);
        self.draw_status_bar(&mut out, tab, now);
        push_str(&mut out, "\x1b[");
        push_decimal(&mut out, (tab.cy - tab.row_offset) as u128 + 1);
        out.push(';');
        push_decimal(&mut out, (tab.rx - tab.col_offset) as u128 + 1);
        out.push('H');
        push_str(&mut out, "\x1b[?25h");
        proof {
            assert(out@ =~= frame(self@, tab@, now as int));
        }
        out
    }
}

} // verus!
