//! A document: lines of text with a cursor, a scroll window, a dirty
//! counter and the state of an incremental search.
//!
//! The model of a document is [`TabView`]. Every operation is first a
//! function on the model; the executable operation on [`Tab`] is proved to
//! do to the document what the function does to the model, and to keep the
//! render form of every line current.

use crate::keys::{EditorKey, CTRL_H, CTRL_L};
use crate::line::{
    col_index, expand, lemma_col_index_from, lemma_render_col_bound, render_col, Line,
};
use crate::text::{
    contains, find_first, first_occurrence, join_lines, lines_of, push_all, rows_of, split_lines,
};
use vstd::prelude::*;

verus! {

/// The way an incremental search walks through the lines.
#[derive(PartialEq, Eq, Clone, Copy, Debug, Structural)]
pub enum SearchDirection {
    Forward,
    Backward,
}

/// A document and what the editor remembers about it.
pub struct Tab {
    pub screenrows: usize,
    pub screencols: usize,
    /// Cursor column, an index into the content of the cursor line.
    pub cx: usize,
    /// Cursor line; equal to the number of lines at the append position.
    pub cy: usize,
    /// Cursor column in the render form of the cursor line.
    pub rx: usize,
    pub row_offset: usize,
    pub col_offset: usize,
    pub rows: Vec<Line>,
    pub filename: Option<Vec<char>>,
    /// Number of changes since the document was loaded or saved.
    pub dirty: usize,
    /// The line of the last search match, if a search is under way.
    pub last_match: Option<usize>,
    pub direction: SearchDirection,
}

/// The model of a [`Tab`].
pub struct TabView {
    pub screenrows: int,
    pub screencols: int,
    pub cx: int,
    pub cy: int,
    pub rx: int,
    pub row_offset: int,
    pub col_offset: int,
    pub rows: Seq<Seq<char>>,
    pub filename: Option<Seq<char>>,
    pub dirty: int,
    pub last_match: Option<int>,
    pub direction: SearchDirection,
}

/// The contents of a list of lines.
pub open spec fn contents_of(rows: Seq<Line>) -> Seq<Seq<char>> {
    Seq::new(rows.len(), |i: int| rows[i].chars@)
}

/// Every line's render form is current.
pub open spec fn all_current(rows: Seq<Line>) -> bool {
    forall|i: int| 0 <= i < rows.len() ==> (#[trigger] rows[i]).is_current()
}

/// Two lists of lines are the same, content and render form.
pub open spec fn same_lines(a: Seq<Line>, b: Seq<Line>) -> bool {
    &&& a.len() == b.len()
    &&& forall|i: int|
        0 <= i < a.len() ==> (#[trigger] a[i]).chars@ == b[i].chars@ && a[i].render@
            == b[i].render@
}

/// The key can change the text of a document: a character other than
/// escape and Ctrl-L, delete, or backspace.
pub open spec fn edits_text(key: EditorKey) -> bool {
    match key {
        EditorKey::Char(c) => c != '\u{1b}' && c != CTRL_L,
        EditorKey::Delete => true,
        EditorKey::Backspace => true,
        _ => false,
    }
}

/// The line that a search visits at step `k`, counted from 0, when it
/// starts after line `start` (or with `start == -1` before the first line)
/// in a buffer of `count` lines: it walks in the given direction and goes
/// on at the other end of the buffer when it runs off one.
pub open spec fn scan_line(start: int, direction: SearchDirection, k: int, count: int) -> int {
    match direction {
        SearchDirection::Forward => if start + 1 + k < count {
            start + 1 + k
        } else {
            start + 1 + k - count
        },
        SearchDirection::Backward => if start - 1 - k >= 0 {
            start - 1 - k
        } else {
            start - 1 - k + count
        },
    }
}

impl TabView {
    /// The empty, unnamed document for a screen of the given size.
    pub open spec fn empty(screenrows: int, screencols: int) -> TabView {
        TabView {
            screenrows,
            screencols,
            cx: 0,
            cy: 0,
            rx: 0,
            row_offset: 0,
            col_offset: 0,
            rows: Seq::empty(),
            filename: None,
            dirty: 0,
            last_match: None,
            direction: SearchDirection::Forward,
        }
    }

    /// Length of line `cy`; 0 where there is no such line.
    pub open spec fn line_len(self, cy: int) -> int {
        if 0 <= cy < self.rows.len() {
            self.rows[cy].len() as int
        } else {
            0
        }
    }

    /// The cursor stands on a line or at the append position, and inside or
    /// at the end of its line.
    pub open spec fn cursor_ok(self) -> bool {
        &&& 0 <= self.cy <= self.rows.len()
        &&& 0 <= self.cx <= self.line_len(self.cy)
    }

    /// The remembered search match, if any, is a line of the document.
    pub open spec fn search_ok(self) -> bool {
        match self.last_match {
            Some(m) => 0 <= m < self.rows.len(),
            None => true,
        }
    }

    /// The cursor lies inside the scroll window, and `rx` is its render
    /// column.
    pub open spec fn cursor_visible(self) -> bool {
        &&& self.row_offset <= self.cy < self.row_offset + self.screenrows
        &&& self.col_offset <= self.rx < self.col_offset + self.screencols
        &&& self.rx == if self.cy < self.rows.len() {
            render_col(self.rows[self.cy], self.cx)
        } else {
            0
        }
    }

    /// The cursor column pulled back to the end of the cursor line.
    pub open spec fn snap(self) -> TabView {
        if self.cx > self.line_len(self.cy) {
            TabView { cx: self.line_len(self.cy), ..self }
        } else {
            self
        }
    }

    /// One step of the cursor. Left at the start of a line goes to the end
    /// of the line above; right at the end of a line goes to the start of
    /// the line below, from the last line to the append position. Up does
    /// nothing on the first line; down does nothing on the last line, nor
    /// at the append position. Afterwards the column is snapped to the line
    /// arrived on.
    pub open spec fn move_cursor(self, key: EditorKey) -> TabView {
        (match key {
            EditorKey::ArrowLeft => if self.cx != 0 {
                TabView { cx: self.cx - 1, ..self }
            } else if self.cy > 0 {
                TabView { cy: self.cy - 1, cx: self.line_len(self.cy - 1), ..self }
            } else {
                self
            },
            EditorKey::ArrowRight => if self.cy < self.rows.len() && self.cx < self.line_len(
                self.cy,
            ) {
                TabView { cx: self.cx + 1, ..self }
            } else if self.cy < self.rows.len() && self.cx == self.line_len(self.cy) {
                TabView { cy: self.cy + 1, cx: 0, ..self }
            } else {
                self
            },
            EditorKey::ArrowUp => if self.cy > 0 {
                TabView { cy: self.cy - 1, ..self }
            } else {
                self
            },
            EditorKey::ArrowDown => if self.cy + 1 < self.rows.len() {
                TabView { cy: self.cy + 1, ..self }
            } else {
                self
            },
            _ => self,
        }).snap()
    }

    /// `times` steps of the cursor, one after the other.
    pub open spec fn repeat_move(self, key: EditorKey, times: int) -> TabView
        decreases times,
    {
        if times <= 0 {
            self
        } else {
            self.move_cursor(key).repeat_move(key, times - 1)
        }
    }

    /// The line a page-up starts from: the top line of the window, or the
    /// append position where the window lies below it.
    pub open spec fn page_top(self) -> int {
        if self.row_offset > self.rows.len() {
            self.rows.len() as int
        } else {
            self.row_offset
        }
    }

    /// The line a page-down starts from: the bottom line of the window, or
    /// the append position where the window reaches below it.
    pub open spec fn page_bottom(self) -> int {
        let bottom = self.row_offset + self.screenrows - 1;
        if bottom > self.rows.len() {
            self.rows.len() as int
        } else if bottom < 0 {
            0
        } else {
            bottom
        }
    }

    /// The window moved by as little as brings the cursor into it, after
    /// `rx` has been derived from `cx`.
    pub open spec fn scroll(self) -> TabView {
        let rx = if self.cy < self.rows.len() {
            render_col(self.rows[self.cy], self.cx)
        } else {
            0
        };
        let top = if self.cy < self.row_offset {
            self.cy
        } else {
            self.row_offset
        };
        let top = if self.cy >= top + self.screenrows {
            self.cy - self.screenrows + 1
        } else {
            top
        };
        let left = if rx < self.col_offset {
            rx
        } else {
            self.col_offset
        };
        let left = if rx >= left + self.screencols {
            rx - self.screencols + 1
        } else {
            left
        };
        TabView { rx, row_offset: top, col_offset: left, ..self }
    }

    /// A new line `row` before line `at`; nothing where `at` is beyond the
    /// append position.
    pub open spec fn insert_row(self, at: int, row: Seq<char>) -> TabView {
        if 0 <= at <= self.rows.len() {
            TabView { rows: self.rows.insert(at, row), dirty: self.dirty + 1, ..self }
        } else {
            self
        }
    }

    /// `c` typed at the cursor. At the append position an empty line is
    /// added first.
    pub open spec fn insert_char(self, c: char) -> TabView {
        let t = if self.cy == self.rows.len() {
            self.insert_row(self.rows.len() as int, Seq::empty())
        } else {
            self
        };
        TabView {
            rows: t.rows.update(t.cy, t.rows[t.cy].insert(t.cx, c)),
            cx: t.cx + 1,
            dirty: t.dirty + 1,
            ..t
        }
    }

    /// The cursor line broken at the cursor. At column 0 that is an empty
    /// line before the cursor line; elsewhere the part from the cursor on
    /// becomes a line of its own below. The cursor goes to the start of the
    /// line below.
    pub open spec fn insert_newline(self) -> TabView {
        let t = if self.cx == 0 {
            self.insert_row(self.cy, Seq::empty())
        } else {
            let line = self.rows[self.cy];
            TabView {
                rows: self.rows.update(self.cy, line.take(self.cx)).insert(
                    self.cy + 1,
                    line.skip(self.cx),
                ),
                dirty: self.dirty + 1,
                ..self
            }
        };
        TabView { cy: self.cy + 1, cx: 0, ..t }
    }

    /// The character before the cursor deleted. At column 0 the cursor
    /// line is joined to the line above and the cursor goes to the joint.
    /// Nothing happens at the start of the buffer and at the append
    /// position.
    pub open spec fn del_char(self) -> TabView {
        if self.cy == self.rows.len() || (self.cx == 0 && self.cy == 0) {
            self
        } else if self.cx > 0 {
            TabView {
                rows: self.rows.update(self.cy, self.rows[self.cy].remove(self.cx - 1)),
                cx: self.cx - 1,
                dirty: self.dirty + 1,
                ..self
            }
        } else {
            let above = self.rows[self.cy - 1];
            TabView {
                rows: self.rows.update(self.cy - 1, above + self.rows[self.cy]).remove(self.cy),
                cx: above.len() as int,
                cy: self.cy - 1,
                dirty: self.dirty + 1,
                ..self
            }
        }
    }

    /// What a key does to the document outside of any prompt.
    pub open spec fn process_buffer_keypress(self, key: EditorKey) -> TabView {
        match key {
            EditorKey::Char(c) => if c == '\r' {
                self.insert_newline()
            } else if c == CTRL_H {
                self.del_char()
            } else if c == '\u{1b}' || c == CTRL_L {
                self
            } else {
                self.insert_char(c)
            },
            EditorKey::PageUp => (TabView { cy: self.page_top(), ..self }).repeat_move(
                EditorKey::ArrowUp,
                self.screenrows,
            ).snap(),
            EditorKey::PageDown => (TabView { cy: self.page_bottom(), ..self }).repeat_move(
                EditorKey::ArrowDown,
                self.screenrows,
            ).snap(),
            EditorKey::Home => TabView { cx: 0, ..self },
            EditorKey::End => if self.cy < self.rows.len() {
                TabView { cx: self.line_len(self.cy), ..self }
            } else {
                self
            },
            EditorKey::Delete => self.move_cursor(EditorKey::ArrowRight).del_char(),
            EditorKey::Backspace => self.del_char(),
            _ => self.move_cursor(key),
        }
    }

    /// The first step at or after `k` at which a search from `start` comes
    /// to a line whose render form holds `query`, if it does so before it
    /// has been once around the buffer.
    pub open spec fn first_hit(
        self,
        query: Seq<char>,
        start: int,
        direction: SearchDirection,
        k: int,
    ) -> Option<int>
        decreases self.rows.len() - k,
    {
        if k < 0 || k >= self.rows.len() {
            None
        } else if contains(
            expand(self.rows[scan_line(start, direction, k, self.rows.len() as int)]),
            query,
        ) {
            Some(k)
        } else {
            self.first_hit(query, start, direction, k + 1)
        }
    }

    /// The search state after `key`, before any line is looked at. Enter
    /// and escape end the search. An arrow keeps the last match and sets the
    /// direction, forward for right and down, backward for left and up; any
    /// other key forgets the last match. Without a last match the search
    /// runs forward.
    pub open spec fn search_armed(self, key: EditorKey) -> TabView {
        let keep = key == EditorKey::ArrowRight || key == EditorKey::ArrowDown || key
            == EditorKey::ArrowLeft || key == EditorKey::ArrowUp;
        let last = if keep {
            self.last_match
        } else {
            None
        };
        let backward = last is Some && (key == EditorKey::ArrowLeft || key == EditorKey::ArrowUp);
        TabView {
            last_match: last,
            direction: if backward {
                SearchDirection::Backward
            } else {
                SearchDirection::Forward
            },
            ..self
        }
    }

    /// One step of the incremental search for `query`, made at every key
    /// typed into the search prompt. After enter or escape nothing moves.
    /// Otherwise the lines are visited from the one after the last match,
    /// in the direction of the search and at most once around the buffer;
    /// on the first whose render form holds `query` the cursor is put at
    /// the match, the line is remembered, and the window is moved out of
    /// the buffer so that the next scroll settles it anew. Without a match
    /// only the search state changes.
    pub open spec fn find_cb(self, query: Seq<char>, key: EditorKey) -> TabView {
        if key == EditorKey::Char('\r') || key == EditorKey::Char('\u{1b}') {
            TabView { last_match: None, direction: SearchDirection::Forward, ..self }
        } else {
            let armed = self.search_armed(key);
            let start = match armed.last_match {
                Some(m) => m,
                None => -1,
            };
            match armed.first_hit(query, start, armed.direction, 0) {
                Some(k) => {
                    let line = scan_line(start, armed.direction, k, self.rows.len() as int);
                    let at = first_occurrence(expand(self.rows[line]), query).unwrap();
                    TabView {
                        last_match: Some(line),
                        cy: line,
                        cx: col_index(self.rows[line], at),
                        row_offset: self.rows.len() as int,
                        ..armed
                    }
                },
                None => armed,
            }
        }
    }

    /// The lines of `text` added below the lines already there, under the
    /// given file name.
    pub open spec fn load_file(self, filename: Option<Seq<char>>, text: Seq<char>) -> TabView {
        TabView { rows: self.rows + split_lines(text), filename, ..self }
    }
}

impl View for Tab {
    type V = TabView;

    open spec fn view(&self) -> TabView {
        TabView {
            screenrows: self.screenrows as int,
            screencols: self.screencols as int,
            cx: self.cx as int,
            cy: self.cy as int,
            rx: self.rx as int,
            row_offset: self.row_offset as int,
            col_offset: self.col_offset as int,
            rows: contents_of(self.rows@),
            filename: match self.filename {
                Some(name) => Some(name@),
                None => None,
            },
            dirty: self.dirty as int,
            last_match: match self.last_match {
                Some(m) => Some(m as int),
                None => None,
            },
            direction: self.direction,
        }
    }
}

impl Tab {
    /// Every line's render form is current and the cursor line exists or
    /// is the append position.
    pub open spec fn lines_ok(&self) -> bool {
        &&& all_current(self.rows@)
        &&& self.cy <= self.rows@.len()
    }

    /// The document is well formed: every line's render form is current
    /// and the cursor stands in the text.
    pub open spec fn wf(&self) -> bool {
        &&& self.lines_ok()
        &&& self@.cursor_ok()
    }

    /// An empty, unnamed document for a screen of the given size.
    pub fn new(screenrows: usize, screencols: usize) -> (tab: Tab)
        ensures
            tab.wf(),
            tab@ == TabView::empty(screenrows as int, screencols as int),
    {
        let tab = Tab {
            screenrows,
            screencols,
            cx: 0,
            cy: 0,
            rx: 0,
            row_offset: 0,
            col_offset: 0,
            rows: Vec::new(),
            filename: None,
            dirty: 0,
            last_match: None,
            direction: SearchDirection::Forward,
        };
        proof {
            assert(tab@.rows =~= Seq::<Seq<char>>::empty());
        }
        tab
    }

    /// Adds the lines of `text` to the document and names it. The dirty
    /// counter stays as it is.
    pub fn load_file(&mut self, filename: Option<Vec<char>>, text: &Vec<char>)
        requires
            old(self).wf(),
        ensures
            final(self).wf(),
            final(self)@ == old(self)@.load_file(
                match filename {
                    Some(name) => Some(name@),
                    None => None,
                },
                text@,
            ),
    {
        let lines = lines_of(text);
        let count = lines.len();
        let ghost loaded = rows_of(lines@);
        let mut i: usize = 0;
        while i < count
            invariant
                i <= count,
                count == loaded.len(),
                lines@.len() == count,
                forall|j: int| i <= j < count ==> (#[trigger] lines@[j])@ == loaded[j],
                all_current(self.rows@),
                contents_of(self.rows@) == contents_of(old(self).rows@) + loaded.take(i as int),
                self.cy == old(self).cy,
                self.cx == old(self).cx,
                self.rx == old(self).rx,
                self.screenrows == old(self).screenrows,
                self.screencols == old(self).screencols,
                self.row_offset == old(self).row_offset,
                self.col_offset == old(self).col_offset,
                self.dirty == old(self).dirty,
                self.last_match == old(self).last_match,
                self.direction == old(self).direction,
            decreases count - i,
        {
            let mut chars: Vec<char> = Vec::new();
            push_all(&mut chars, &lines[i]);
            let mut line = Line { chars, render: Vec::new() };
            line.update();
            let ghost before = self.rows@;
            self.rows.push(line);
            proof {
                assert(line.chars@ =~= loaded[i as int]);
                assert(contents_of(self.rows@) =~= contents_of(before).push(loaded[i as int]));
                assert(loaded.take(i + 1) =~= loaded.take(i as int).push(loaded[i as int]));
            }
            i += 1;
        }
        self.filename = filename;
        proof {
            assert(loaded.take(count as int) =~= loaded);
            let a = old(self)@;
            let b = self@;
            assert(b.cy <= b.rows.len());
            if a.cy < a.rows.len() {
                assert(b.rows[a.cy] == a.rows[a.cy]);
            }
        }
    }

    /// The document as one text: every line followed by a line feed.
    pub fn contents(&self) -> (text: Vec<char>)
        ensures
            text@ == join_lines(self@.rows),
    {
        let mut text: Vec<char> = Vec::new();
        let mut i: usize = 0;
        let count = self.rows.len();
        while i < count
            invariant
                i <= count,
                count == self.rows@.len(),
                text@ == join_lines(self@.rows.take(i as int)),
            decreases count - i,
        {
            push_all(&mut text, &self.rows[i].chars);
            text.push('\n');
            proof {
                let done = self@.rows.take(i + 1);
                assert(done.drop_last() =~= self@.rows.take(i as int));
                assert(done.last() == self.rows@[i as int].chars@);
                assert(text@ =~= join_lines(done.drop_last()) + done.last().push('\n'));
            }
            i += 1;
        }
        proof {
            assert(self@.rows.take(count as int) =~= self@.rows);
        }
        text
    }

    fn snap_cursor(&mut self)
        requires
            old(self).lines_ok(),
        ensures
            final(self).wf(),
            final(self)@ == old(self)@.snap(),
    {
        let rowlen = if self.cy >= self.rows.len() {
            0
        } else {
            self.rows[self.cy].size()
        };
        if self.cx > rowlen {
            self.cx = rowlen;
        }
    }

    /// Moves the cursor one step for an arrow key; any other key only
    /// snaps the column to the cursor line.
    pub fn move_cursor(&mut self, key: EditorKey)
        requires
            old(self).lines_ok(),
        ensures
            final(self).wf(),
            final(self)@ == old(self)@.move_cursor(key),
    {
        match key {
            EditorKey::ArrowLeft => {
                if self.cx != 0 {
                    self.cx -= 1;
                } else if self.cy > 0 {
                    self.cy -= 1;
                    self.cx = self.rows[self.cy].size();
                }
            },
            EditorKey::ArrowRight => {
                if self.cy < self.rows.len() {
                    let size = self.rows[self.cy].size();
                    if self.cx < size {
                        self.cx += 1;
                    } else if self.cx == size {
                        self.cy += 1;
                        self.cx = 0;
                    }
                }
            },
            EditorKey::ArrowUp => {
                if self.cy > 0 {
                    self.cy -= 1;
                }
            },
            EditorKey::ArrowDown => {
                let count = self.rows.len();
                if self.cy < count && self.cy + 1 < count {
                    self.cy += 1;
                }
            },
            _ => {},
        }
        self.snap_cursor();
    }

    fn move_many(&mut self, key: EditorKey, times: usize)
        requires
            old(self).lines_ok(),
        ensures
            final(self).wf(),
            final(self)@ == old(self)@.repeat_move(key, times as int).snap(),
    {
        let mut i: usize = 0;
        while i < times
            invariant
                i <= times,
                self.lines_ok(),
                old(self)@.repeat_move(key, times as int) == self@.repeat_move(key, times - i),
            decreases times - i,
        {
            self.move_cursor(key);
            i += 1;
        }
        self.snap_cursor();
    }

    /// Applies a key to the document: motion, paging, editing. A page key
    /// puts the cursor on the top or bottom line of the window and then
    /// makes as many single steps up or down as the screen has rows.
    /// Delete is a step to the right followed by a backspace. A key that
    /// can change the text needs room in the dirty counter for two more
    /// changes.
    pub fn process_buffer_keypress(&mut self, key: EditorKey)
        requires
            old(self).wf(),
            edits_text(key) ==> old(self).dirty + 2 <= usize::MAX,
        ensures
            final(self).wf(),
            final(self)@ == old(self)@.process_buffer_keypress(key),
    {
        match key {
            EditorKey::Char(c) => {
                if c == '\r' {
                    self.insert_newline();
                } else if c == CTRL_H {
                    self.del_char();
                } else if c == '\u{1b}' || c == CTRL_L {
                } else {
                    self.insert_char(c);
                }
            },
            EditorKey::PageUp => {
                self.cy = if self.row_offset > self.rows.len() {
                    self.rows.len()
                } else {
                    self.row_offset
                };
                let times = self.screenrows;
                self.move_many(EditorKey::ArrowUp, times);
            },
            EditorKey::PageDown => {
                let count = self.rows.len();
                self.cy = match self.row_offset.checked_add(self.screenrows) {
                    Some(below) => if below == 0 {
                        0
                    } else if below - 1 > count {
                        count
                    } else {
                        below - 1
                    },
                    None => count,
                };
                let times = self.screenrows;
                self.move_many(EditorKey::ArrowDown, times);
            },
            EditorKey::Home => {
                self.cx = 0;
            },
            EditorKey::End => {
                if self.cy < self.rows.len() {
                    self.cx = self.rows[self.cy].size();
                }
            },
            EditorKey::Delete => {
                self.move_cursor(EditorKey::ArrowRight);
                self.del_char();
            },
            EditorKey::Backspace => {
                self.del_char();
            },
            _ => {
                self.move_cursor(key);
            },
        }
    }

    /// Derives `rx` from the cursor and moves the window so that the
    /// cursor lies inside it.
    pub fn scroll(&mut self)
        requires
            old(self).wf(),
            old(self).screenrows >= 1,
            old(self).screencols >= 1,
        ensures
            final(self).wf(),
            final(self)@ == old(self)@.scroll(),
            final(self)@.cursor_visible(),
    {
        self.rx = if self.cy < self.rows.len() {
            let width = self.rows[self.cy].rsize();
            proof {
                lemma_render_col_bound(self.rows@[self.cy as int].chars@, self.cx as int);
            }
            self.rows[self.cy].cx_to_rx(self.cx)
        } else {
            0
        };
        if self.cy < self.row_offset {
            self.row_offset = self.cy;
        }
        if self.cy - self.row_offset >= self.screenrows {
            self.row_offset = self.cy - self.screenrows + 1;
        }
        if self.rx < self.col_offset {
            self.col_offset = self.rx;
        }
        if self.rx - self.col_offset >= self.screencols {
            self.col_offset = self.rx - self.screencols + 1;
        }
    }

    /// Puts the new line `row` before line `at` and counts one change.
    /// Does nothing if `at` is beyond the append position. The cursor stays
    /// where it is, also where that is no longer inside its line.
    pub fn insert_row(&mut self, at: usize, row: Vec<char>)
        requires
            all_current(old(self).rows@),
            old(self).dirty < usize::MAX,
        ensures
            all_current(final(self).rows@),
            final(self)@ == old(self)@.insert_row(at as int, row@),
    {
        if at > self.rows.len() {
            return ;
        }
        let mut line = Line { chars: row, render: Vec::new() };
        line.update();
        self.rows.insert(at, line);
        self.dirty += 1;
        proof {
            assert(self@.rows =~= old(self)@.rows.insert(at as int, row@));
        }
    }

    /// Types `c` at the cursor.
    pub fn insert_char(&mut self, c: char)
        requires
            old(self).wf(),
            old(self).dirty + 2 <= usize::MAX,
        ensures
            final(self).wf(),
            final(self)@ == old(self)@.insert_char(c),
    {
        if self.cy == self.rows.len() {
            self.insert_row(self.rows.len(), Vec::new());
        }
        let ghost mid = self@;
        self.rows[self.cy].chars.insert(self.cx, c);
        self.rows[self.cy].update();
        let size = self.rows[self.cy].size();
        assert(self.cx < size);
        self.cx += 1;
        self.dirty += 1;
        proof {
            assert(self@.rows =~= mid.rows.update(mid.cy, mid.rows[mid.cy].insert(mid.cx, c)));
        }
    }

    /// Breaks the cursor line at the cursor.
    pub fn insert_newline(&mut self)
        requires
            old(self).wf(),
            old(self).dirty < usize::MAX,
        ensures
            final(self).wf(),
            final(self)@ == old(self)@.insert_newline(),
    {
        let count = self.rows.len();
        if self.cx == 0 {
            self.insert_row(self.cy, Vec::new());
        } else {
            assert(self.cy < count);
            let ghost line = self@.rows[self.cy as int];
            let tail = self.rows[self.cy].chars.split_off(self.cx);
            self.rows[self.cy].update();
            proof {
                assert(self@.rows =~= old(self)@.rows.update(
                    self.cy as int,
                    line.take(self.cx as int),
                ));
                assert(tail@ =~= line.skip(self.cx as int));
            }
            self.insert_row(self.cy + 1, tail);
        }
        let grown = self.rows.len();
        assert(grown == count + 1) by {
            assert(self@.rows.len() == old(self)@.rows.len() + 1);
            assert(contents_of(self.rows@).len() == self.rows@.len());
        }
        self.cy += 1;
        self.cx = 0;
    }

    /// Deletes the character before the cursor, or joins the cursor line
    /// to the line above.
    pub fn del_char(&mut self)
        requires
            old(self).wf(),
            old(self).dirty < usize::MAX,
        ensures
            final(self).wf(),
            final(self)@ == old(self)@.del_char(),
    {
        if self.cy == self.rows.len() || (self.cx == 0 && self.cy == 0) {
            return ;
        }
        if self.cx > 0 {
            let pos = self.cx - 1;
            self.rows[self.cy].chars.remove(pos);
            self.rows[self.cy].update();
            self.cx -= 1;
            proof {
                let a = old(self)@;
                assert(self@.rows =~= a.rows.update(a.cy, a.rows[a.cy].remove(a.cx - 1)));
            }
        } else {
            self.cx = self.rows[self.cy - 1].size();
            let mut row = self.rows.remove(self.cy).chars;
            self.rows[self.cy - 1].chars.append(&mut row);
            self.rows[self.cy - 1].update();
            self.cy -= 1;
            proof {
                let a = old(self)@;
                assert(self@.rows =~= a.rows.update(
                    a.cy - 1,
                    a.rows[a.cy - 1] + a.rows[a.cy],
                ).remove(a.cy));
            }
        }
        self.dirty += 1;
    }

    /// One step of the incremental search for `query`, after `key` was
    /// typed into the search prompt.
    pub fn find_cb(&mut self, query: &Vec<char>, key: EditorKey)
        requires
            old(self).wf(),
            old(self)@.search_ok(),
        ensures
            final(self).wf(),
            final(self)@.search_ok(),
            final(self)@ == old(self)@.find_cb(query@, key),
    {
        match key {
            EditorKey::Char(c) => {
                self.last_match = None;
                self.direction = SearchDirection::Forward;
                if c == '\r' || c == '\u{1b}' {
                    return ;
                }
            },
            EditorKey::ArrowRight => {
                self.direction = SearchDirection::Forward;
            },
            EditorKey::ArrowDown => {
                self.direction = SearchDirection::Forward;
            },
            EditorKey::ArrowLeft => {
                self.direction = SearchDirection::Backward;
            },
            EditorKey::ArrowUp => {
                self.direction = SearchDirection::Backward;
            },
            _ => {
                self.last_match = None;
                self.direction = SearchDirection::Forward;
            },
        }
        if self.last_match.is_none() {
            self.direction = SearchDirection::Forward;
        }
        let ghost armed = self@;
        let ghost start: int = match armed.last_match {
            Some(m) => m,
            None => -1,
        };
        assert(armed == old(self)@.search_armed(key));
        let last = self.last_match;
        let direction = self.direction;
        let count = self.rows.len();
        let mut k: usize = 0;
        while k < count
            invariant
                k <= count,
                count == self.rows@.len(),
                self.wf(),
                self@ == armed,
                armed == old(self)@.search_armed(key),
                key != EditorKey::Char('\r'),
                key != EditorKey::Char('\u{1b}'),
                last == self.last_match,
                direction == self.direction,
                armed.search_ok(),
                direction == SearchDirection::Backward ==> last is Some,
                start == match armed.last_match {
                    Some(m) => m,
                    None => -1,
                },
                armed.first_hit(query@, start, direction, 0) == armed.first_hit(
                    query@,
                    start,
                    direction,
                    k as int,
                ),
            decreases count - k,
        {
            let line: usize = match direction {
                SearchDirection::Forward => {
                    let base: usize = match last {
                        Some(m) => m + 1,
                        None => 0,
                    };
                    if k < count - base {
                        base + k
                    } else {
                        k - (count - base)
                    }
                },
                SearchDirection::Backward => {
                    let from: usize = match last {
                        Some(m) => m,
                        None => 0,
                    };
                    if k < from {
                        from - 1 - k
                    } else {
                        count - 1 - (k - from)
                    }
                },
            };
            assert(line == scan_line(start, direction, k as int, count as int));
            assert(self.rows@[line as int].is_current());
            match find_first(&self.rows[line].render, query) {
                Some(at) => {
                    self.last_match = Some(line);
                    self.cy = line;
                    let width = self.rows[line].rsize();
                    self.cx = self.rows[line].rx_to_cx(at);
                    self.row_offset = count;
                    proof {
                        lemma_col_index_from(armed.rows[line as int], at as int, 0);
                        assert(armed.rows[line as int] == self.rows@[line as int].chars@);
                        assert(contains(expand(armed.rows[line as int]), query@));
                        assert(armed.first_hit(query@, start, direction, k as int) == Some(
                            k as int,
                        ));
                        assert(self@.rows == armed.rows);
                    }
                    return ;
                },
                None => {},
            }
            k += 1;
        }
    }
}

/// Cursor steps change nothing but the cursor.
pub proof fn lemma_repeat_move_frame(doc: TabView, key: EditorKey, times: int)
    ensures
        ({
            let moved = doc.repeat_move(key, times);
            moved == (TabView { cx: moved.cx, cy: moved.cy, ..doc })
        }),
    decreases times,
{
    if times > 0 {
        lemma_repeat_move_frame(doc.move_cursor(key), key, times - 1);
    }
}

/// A key given to the document leaves the screen size, the window, the
/// file name and the search state as they are.
pub proof fn lemma_buffer_key_frame(doc: TabView, key: EditorKey)
    ensures
        ({
            let after = doc.process_buffer_keypress(key);
            after == (TabView {
                cx: after.cx,
                cy: after.cy,
                rows: after.rows,
                dirty: after.dirty,
                ..doc
            })
        }),
{
    lemma_repeat_move_frame(
        TabView { cy: doc.page_top(), ..doc },
        EditorKey::ArrowUp,
        doc.screenrows,
    );
    lemma_repeat_move_frame(
        TabView { cy: doc.page_bottom(), ..doc },
        EditorKey::ArrowDown,
        doc.screenrows,
    );
}

/// Changes are counted: no key lowers the dirty counter, and a key that
/// changes the text raises it.
pub proof fn lemma_changes_are_counted(doc: TabView, key: EditorKey)
    ensures
        ({
            let after = doc.process_buffer_keypress(key);
            &&& after.dirty >= doc.dirty
            &&& after.rows != doc.rows ==> after.dirty > doc.dirty
        }),
{
    lemma_buffer_key_frame(doc, key);
    lemma_repeat_move_frame(
        TabView { cy: doc.page_top(), ..doc },
        EditorKey::ArrowUp,
        doc.screenrows,
    );
    lemma_repeat_move_frame(
        TabView { cy: doc.page_bottom(), ..doc },
        EditorKey::ArrowDown,
        doc.screenrows,
    );
}

/// Scrolling brings the cursor into the window, and a second scroll
/// changes nothing more.
pub proof fn lemma_scroll_settles(doc: TabView)
    requires
        doc.screenrows >= 1,
        doc.screencols >= 1,
        doc.cy >= 0,
    ensures
        doc.scroll().cursor_visible(),
        doc.scroll().scroll() == doc.scroll(),
{
    if doc.cy < doc.rows.len() {
        let rx = render_col(doc.rows[doc.cy], doc.cx);
        assert(rx >= 0);
    }
}

/// Typing a character on a line, stepping back over it and deleting
/// forward gives back the content of every line, and with it every render
/// form, and the cursor. So does deleting backward right after typing.
pub proof fn lemma_insert_then_forward_delete(doc: TabView, c: char)
    requires
        doc.cursor_ok(),
        doc.cy < doc.rows.len(),
    ensures
        ({
            let typed = doc.insert_char(c);
            let back = typed.move_cursor(EditorKey::ArrowLeft);
            let after = back.process_buffer_keypress(EditorKey::Delete);
            let undone = typed.del_char();
            &&& back.cx == doc.cx && back.cy == doc.cy
            &&& after.rows == doc.rows
            &&& after.cx == doc.cx && after.cy == doc.cy
            &&& undone.rows == doc.rows
            &&& undone.cx == doc.cx && undone.cy == doc.cy
            &&& forall|i: int|
                0 <= i < doc.rows.len() ==> expand(#[trigger] after.rows[i]) == expand(doc.rows[i])
        }),
{
    assert(doc.insert_char(c).del_char().rows =~= doc.rows) by {
        let line = doc.rows[doc.cy];
        assert(line.insert(doc.cx, c).remove(doc.cx) =~= line);
    }
    let typed = doc.insert_char(c);
    let back = typed.move_cursor(EditorKey::ArrowLeft);
    let right = back.move_cursor(EditorKey::ArrowRight);
    let after = right.del_char();
    let line = doc.rows[doc.cy];
    assert(typed.rows[doc.cy] == line.insert(doc.cx, c));
    assert(right.cx == doc.cx + 1 && right.cy == doc.cy);
    assert(line.insert(doc.cx, c).remove(doc.cx) =~= line);
    assert(after.rows =~= doc.rows);
}

/// Breaking a line at the cursor and then pressing backspace at the start
/// of the new line gives back the lines and the cursor.
pub proof fn lemma_newline_then_backspace(doc: TabView)
    requires
        doc.cursor_ok(),
        doc.cy < doc.rows.len(),
    ensures
        ({
            let broken = doc.insert_newline();
            let after = broken.process_buffer_keypress(EditorKey::Backspace);
            &&& broken.rows.len() == doc.rows.len() + 1
            &&& broken.cy == doc.cy + 1 && broken.cx == 0
            &&& after.rows == doc.rows
            &&& after.cx == doc.cx && after.cy == doc.cy
        }),
{
    let broken = doc.insert_newline();
    let after = broken.del_char();
    let line = doc.rows[doc.cy];
    if doc.cx == 0 {
        assert(broken.rows[doc.cy] =~= Seq::<char>::empty());
        assert(broken.rows[doc.cy] + broken.rows[doc.cy + 1] =~= line);
    } else {
        assert(line.take(doc.cx) + line.skip(doc.cx) =~= line);
    }
    assert(after.rows =~= doc.rows);
}

/// Lists of lines with the same content, each with its render form
/// current, are the same lines.
proof fn lemma_same_lines(a: Seq<Line>, b: Seq<Line>)
    requires
        all_current(a),
        all_current(b),
        contents_of(a) == contents_of(b),
    ensures
        same_lines(a, b),
{
    assert(contents_of(a).len() == a.len());
    assert(contents_of(b).len() == b.len());
    assert forall|i: int| 0 <= i < a.len() implies (#[trigger] a[i]).chars@ == b[i].chars@
        && a[i].render@ == b[i].render@ by {
        assert(contents_of(a)[i] == a[i].chars@);
        assert(contents_of(b)[i] == b[i].chars@);
        assert(a[i].is_current());
        assert(b[i].is_current());
    }
}

/// Of documents: when a character has been typed on a line of `before`,
/// giving `typed`, and is then deleted again, backward at once or forward
/// after a step back, the document `after` has the lines of `before`,
/// content and render form, and its cursor.
pub proof fn lemma_typing_undone(before: Tab, typed: Tab, after: Tab, c: char)
    requires
        before.wf(),
        before.cy < before.rows@.len(),
        typed@ == before@.insert_char(c),
        after.wf(),
        after@ == typed@.del_char() || after@ == typed@.move_cursor(
            EditorKey::ArrowLeft,
        ).process_buffer_keypress(EditorKey::Delete),
    ensures
        same_lines(after.rows@, before.rows@),
        after.cy == before.cy,
        after.cx == before.cx,
{
    lemma_insert_then_forward_delete(before@, c);
    lemma_same_lines(after.rows@, before.rows@);
}

/// Of documents: when a line of `before` has been broken at the cursor,
/// giving `broken`, and backspace is then pressed at the start of the new
/// line, the document `after` has the lines of `before`, content and render
/// form, and its cursor.
pub proof fn lemma_line_break_undone(before: Tab, broken: Tab, after: Tab)
    requires
        before.wf(),
        before.cy < before.rows@.len(),
        broken@ == before@.insert_newline(),
        after.wf(),
        after@ == broken@.del_char(),
    ensures
        broken.rows@.len() == before.rows@.len() + 1,
        broken.cy == before.cy + 1,
        broken.cx == 0,
        same_lines(after.rows@, before.rows@),
        after.cy == before.cy,
        after.cx == before.cx,
{
    lemma_newline_then_backspace(before@);
    assert(contents_of(broken.rows@).len() == broken.rows@.len());
    assert(contents_of(before.rows@).len() == before.rows@.len());
    lemma_same_lines(after.rows@, before.rows@);
}

/// A search that has no last match, or any search in a buffer, comes to
/// every line within one round: each line is the line of some step.
pub proof fn lemma_scan_reaches_every_line(
    start: int,
    direction: SearchDirection,
    line: int,
    count: int,
)
    requires
        0 <= line < count,
        -1 <= start < count,
        direction == SearchDirection::Backward ==> start >= 0,
    ensures
        exists|k: int| 0 <= k < count && #[trigger] scan_line(start, direction, k, count) == line,
{
    let k = match direction {
        SearchDirection::Forward => if line > start {
            line - start - 1
        } else {
            line - start - 1 + count
        },
        SearchDirection::Backward => if line < start {
            start - 1 - line
        } else {
            start - 1 - line + count
        },
    };
    assert(scan_line(start, direction, k, count) == line);
}

/// A search step finds a match exactly if some line's render form holds
/// the query.
pub proof fn lemma_first_hit_complete(
    doc: TabView,
    query: Seq<char>,
    start: int,
    direction: SearchDirection,
)
    requires
        -1 <= start < doc.rows.len() || doc.rows.len() == 0,
        direction == SearchDirection::Backward ==> start >= 0,
    ensures
        doc.first_hit(query, start, direction, 0) is Some <==> exists|line: int|
            0 <= line < doc.rows.len() && contains(expand(#[trigger] doc.rows[line]), query),
{
    let count = doc.rows.len() as int;
    lemma_first_hit(doc, query, start, direction, 0);
    if doc.first_hit(query, start, direction, 0) is Some {
        let k = doc.first_hit(query, start, direction, 0).unwrap();
        let line = scan_line(start, direction, k, count);
        assert(0 <= line < count && contains(expand(doc.rows[line]), query));
    } else {
        assert forall|line: int| 0 <= line < count implies !contains(
            expand(#[trigger] doc.rows[line]),
            query,
        ) by {
            lemma_scan_reaches_every_line(start, direction, line, count);
            let k = choose|k: int|
                0 <= k < count && #[trigger] scan_line(start, direction, k, count) == line;
            assert(!contains(expand(doc.rows[scan_line(start, direction, k, count)]), query));
        }
    }
}

/// What [`TabView::first_hit`] returns, without the recursion.
pub proof fn lemma_first_hit(
    doc: TabView,
    query: Seq<char>,
    start: int,
    direction: SearchDirection,
    from: int,
)
    requires
        0 <= from,
    ensures
        match doc.first_hit(query, start, direction, from) {
            Some(k) => from <= k < doc.rows.len() && contains(
                expand(doc.rows[scan_line(start, direction, k, doc.rows.len() as int)]),
                query,
            ) && forall|j: int|
                from <= j < k ==> !contains(
                    expand(
                        doc.rows[#[trigger] scan_line(start, direction, j, doc.rows.len() as int)],
                    ),
                    query,
                ),
            None => forall|j: int|
                from <= j < doc.rows.len() ==> !contains(
                    expand(
                        doc.rows[#[trigger] scan_line(start, direction, j, doc.rows.len() as int)],
                    ),
                    query,
                ),
        },
    decreases doc.rows.len() - from,
{
    if from < doc.rows.len() && !contains(
        expand(doc.rows[scan_line(start, direction, from, doc.rows.len() as int)]),
        query,
    ) {
        lemma_first_hit(doc, query, start, direction, from + 1);
    }
}

} // verus!
