//! The session: the open documents, the active one, the status message,
//! the quit confirmation and the prompts.
//!
//! The session never reads a key or writes a file. It is handed one key at
//! a time, together with the present time in milliseconds, and answers with
//! the [`Action`] that is left for the caller to perform. A prompt is a
//! mode of the session: while one is open, keys go to it.

use crate::keys::{EditorKey, CTRL_F, CTRL_H, CTRL_Q, CTRL_S, CTRL_T};
use crate::tab::{edits_text, lemma_buffer_key_frame, Tab, TabView};
use crate::text::{
    chars_of, decimal, dyn_fmt, fill_first, is_control, is_control_char, join_lines, push_all,
    push_decimal, push_str, rows_of,
};
use vstd::prelude::*;

verus! {

/// The prompts that the session can open.
#[derive(PartialEq, Eq, Clone, Copy, Debug, Structural)]
pub enum PromptKind {
    /// The incremental search.
    Find,
    /// The question for a file name before the first save.
    SaveAs,
}

/// What is left for the caller to do after a key.
#[derive(PartialEq, Eq, Debug)]
pub enum Action {
    /// Nothing: draw the screen and read the next key.
    Continue,
    /// Leave the program.
    Quit,
    /// Write `contents` to the file `filename` and report the outcome with
    /// [`Editor::file_written`].
    Save { filename: Vec<char>, contents: Vec<char> },
}

/// The model of an [`Action`].
pub enum ActionView {
    Continue,
    Quit,
    Save { filename: Seq<char>, contents: Seq<char> },
}

impl View for Action {
    type V = ActionView;

    open spec fn view(&self) -> ActionView {
        match self {
            Action::Continue => ActionView::Continue,
            Action::Quit => ActionView::Quit,
            Action::Save { filename, contents } => (ActionView::Save {
                filename: filename@,
                contents: contents@,
            }),
        }
    }
}

/// The session.
pub struct Editor {
    pub screenrows: usize,
    pub screencols: usize,
    pub statusmsg: Vec<char>,
    /// When the status message was set, in milliseconds.
    pub statusmsg_t: u64,
    /// A quit was asked for while changes were unsaved, and no other key
    /// has come since.
    pub quit: bool,
    pub tabs: Vec<Tab>,
    /// Index of the active document; 0 while there is none.
    pub tab_index: usize,
    /// The prompt that is open, if any.
    pub prompt: Option<PromptKind>,
    /// What has been typed into the prompt.
    pub prompt_buf: Vec<char>,
    /// Cursor and window of the active document when the prompt was opened.
    pub saved_cx: usize,
    pub saved_cy: usize,
    pub saved_col_offset: usize,
    pub saved_row_offset: usize,
}

/// The model of an [`Editor`].
pub struct EditorView {
    pub screenrows: int,
    pub screencols: int,
    pub statusmsg: Seq<char>,
    pub statusmsg_t: int,
    pub quit: bool,
    pub tabs: Seq<TabView>,
    pub tab_index: int,
    pub prompt: Option<PromptKind>,
    pub prompt_buf: Seq<char>,
    pub saved_cx: int,
    pub saved_cy: int,
    pub saved_col_offset: int,
    pub saved_row_offset: int,
}

/// The models of a list of documents.
pub open spec fn views_of(tabs: Seq<Tab>) -> Seq<TabView> {
    Seq::new(tabs.len(), |i: int| tabs[i]@)
}

/// The message that answers a first quit while changes are unsaved.
pub open spec fn quit_warning() -> Seq<char> {
    "WARNING!!! There are unsaved files. Press Ctrl-Q once more to quit."@
}

/// The message after a cancelled question for a file name.
pub open spec fn save_aborted() -> Seq<char> {
    "Save aborted"@
}

/// The message after `bytes` bytes were written.
pub open spec fn bytes_written(bytes: nat) -> Seq<char> {
    decimal(bytes) + " bytes written to disk"@
}

/// The message after a failed write, with the reason `error`.
pub open spec fn cannot_save(error: Seq<char>) -> Seq<char> {
    "Can't save! I/O error: "@ + error
}

/// The line of a prompt, with `{}` where the typed text goes.
pub open spec fn prompt_text(kind: PromptKind) -> Seq<char> {
    match kind {
        PromptKind::Find => "Search: {} (ESC/Arrows/Enter)"@,
        PromptKind::SaveAs => "Save as: {} (ESC to cancel)"@,
    }
}

/// The status message of an open prompt into which `buf` has been typed.
pub open spec fn prompt_message(kind: PromptKind, buf: Seq<char>) -> Seq<char> {
    fill_first(prompt_text(kind), buf)
}

/// What a key does to the text typed into a prompt: delete, backspace and
/// Ctrl-H take the last character away, a character that is no control
/// character is added, any other key changes nothing.
pub open spec fn edited_buf(buf: Seq<char>, key: EditorKey) -> Seq<char> {
    match key {
        EditorKey::Delete => if buf.len() > 0 {
            buf.drop_last()
        } else {
            buf
        },
        EditorKey::Backspace => if buf.len() > 0 {
            buf.drop_last()
        } else {
            buf
        },
        EditorKey::Char(c) => if c == CTRL_H {
            if buf.len() > 0 {
                buf.drop_last()
            } else {
                buf
            }
        } else if !is_control_char(c) {
            buf.push(c)
        } else {
            buf
        },
        _ => buf,
    }
}

impl EditorView {
    /// The active document.
    pub open spec fn active(self) -> TabView {
        self.tabs[self.tab_index]
    }

    /// The session with `tab` in place of the active document.
    pub open spec fn with_active(self, tab: TabView) -> EditorView {
        EditorView { tabs: self.tabs.update(self.tab_index, tab), ..self }
    }

    /// The session with the status message `msg`, set at time `now`.
    pub open spec fn with_status(self, msg: Seq<char>, now: int) -> EditorView {
        EditorView { statusmsg: msg, statusmsg_t: now, ..self }
    }

    /// The key is handed on to the active document and can change its
    /// text: no prompt is open, there is a document, and the key is none of
    /// the session's own.
    pub open spec fn edits_document(self, key: EditorKey) -> bool {
        &&& self.prompt is None
        &&& self.tabs.len() > 0
        &&& edits_text(key)
        &&& key != EditorKey::Char(CTRL_Q)
        &&& key != EditorKey::Char(CTRL_T)
        &&& key != EditorKey::Char(CTRL_F)
        &&& key != EditorKey::Char(CTRL_S)
    }

    /// Some document has unsaved changes.
    pub open spec fn any_dirty(self) -> bool {
        exists|i: int| 0 <= i < self.tabs.len() && (#[trigger] self.tabs[i]).dirty > 0
    }

    /// What holds of every session between two keys: the active index
    /// names a document if there is one; a prompt is open only over a
    /// document, and the cursor saved for it lies in that document's text;
    /// a search match is remembered only in the active document and only
    /// while the search prompt is open.
    pub open spec fn consistent(self) -> bool {
        &&& self.tabs.len() == 0 ==> self.tab_index == 0 && self.prompt is None
        &&& self.tabs.len() > 0 ==> 0 <= self.tab_index < self.tabs.len()
        &&& forall|i: int|
            0 <= i < self.tabs.len() ==> (#[trigger] self.tabs[i]).search_ok()
                && (self.tabs[i].last_match is Some ==> i == self.tab_index && self.prompt
                == Some(PromptKind::Find))
        &&& self.prompt is Some ==> (TabView {
            cx: self.saved_cx,
            cy: self.saved_cy,
            ..self.active()
        }).cursor_ok()
    }

    /// The next document made the active one, the first after the last.
    pub open spec fn next_tab(self) -> EditorView {
        if self.tabs.len() > 0 {
            EditorView { tab_index: (self.tab_index + 1) % (self.tabs.len() as int), ..self }
        } else {
            self
        }
    }

    /// The prompt `kind` opened over the active document at time `now`.
    pub open spec fn open_prompt(self, kind: PromptKind, now: int) -> EditorView {
        (EditorView {
            prompt: Some(kind),
            prompt_buf: Seq::empty(),
            saved_cx: self.active().cx,
            saved_cy: self.active().cy,
            saved_col_offset: self.active().col_offset,
            saved_row_offset: self.active().row_offset,
            ..self
        }).with_status(prompt_message(kind, Seq::empty()), now)
    }

    /// The search prompt opened, if there is a document.
    pub open spec fn find(self, now: int) -> EditorView {
        if self.tabs.len() == 0 {
            self
        } else {
            self.open_prompt(PromptKind::Find, now)
        }
    }

    /// A save asked for: with a named document the caller is to write it;
    /// with an unnamed one the question for a name is opened; without a
    /// document nothing happens.
    pub open spec fn save_file(self, now: int) -> (EditorView, ActionView) {
        if self.tabs.len() == 0 {
            (self, ActionView::Continue)
        } else {
            match self.active().filename {
                Some(name) => (
                    self,
                    ActionView::Save { filename: name, contents: join_lines(self.active().rows) },
                ),
                None => (self.open_prompt(PromptKind::SaveAs, now), ActionView::Continue),
            }
        }
    }

    /// The outcome of a write taken in: after success the active document
    /// counts as unchanged.
    pub open spec fn file_written(self, result: Result<nat, Seq<char>>, now: int) -> EditorView {
        match result {
            Ok(bytes) => {
                let saved = if self.tabs.len() > 0 {
                    self.with_active(TabView { dirty: 0, ..self.active() })
                } else {
                    self
                };
                saved.with_status(bytes_written(bytes), now)
            },
            Err(error) => self.with_status(cannot_save(error), now),
        }
    }

    /// The search prompt lets the active document search for what has
    /// been typed; the other prompt does nothing at a key.
    pub open spec fn run_callback(self, key: EditorKey) -> EditorView {
        if self.prompt == Some(PromptKind::Find) && self.tabs.len() > 0 {
            self.with_active(self.active().find_cb(self.prompt_buf, key))
        } else {
            self
        }
    }

    /// A key given to the open prompt.
    ///
    /// Escape cancels: a cancelled search puts cursor and window back where
    /// they were when the prompt was opened; a cancelled question for a
    /// name leaves a message. Enter accepts: an accepted name becomes the
    /// name of the active document, which the caller is then to write. Any
    /// other key edits the typed text and the prompt stays open.
    pub open spec fn prompt(self, key: EditorKey, now: int) -> (EditorView, ActionView) {
        let kind = self.prompt.unwrap();
        if key == EditorKey::Char('\u{1b}') {
            let called = self.with_status(Seq::empty(), now).run_callback(key);
            let closed = EditorView { prompt: None, ..called };
            match kind {
                PromptKind::Find => (
                    closed.with_active(
                        TabView {
                            cx: self.saved_cx,
                            cy: self.saved_cy,
                            col_offset: self.saved_col_offset,
                            row_offset: self.saved_row_offset,
                            ..closed.active()
                        },
                    ),
                    ActionView::Continue,
                ),
                PromptKind::SaveAs => (
                    closed.with_status(save_aborted(), now),
                    ActionView::Continue,
                ),
            }
        } else if key == EditorKey::Char('\r') {
            let called = self.with_status(Seq::empty(), now).run_callback(key);
            let closed = EditorView { prompt: None, ..called };
            match kind {
                PromptKind::Find => (closed, ActionView::Continue),
                PromptKind::SaveAs => (
                    closed.with_active(
                        TabView { filename: Some(self.prompt_buf), ..closed.active() },
                    ),
                    ActionView::Save {
                        filename: self.prompt_buf,
                        contents: join_lines(closed.active().rows),
                    },
                ),
            }
        } else {
            let buf = edited_buf(self.prompt_buf, key);
            let called = (EditorView { prompt_buf: buf, ..self }).run_callback(key);
            (called.with_status(prompt_message(kind, buf), now), ActionView::Continue)
        }
    }

    /// A key given to the session.
    ///
    /// While a prompt is open the key goes to it. Otherwise Ctrl-Q quits,
    /// but the first time that changes are unsaved it only warns and arms
    /// the quit flag; Ctrl-T makes the next document the active one; Ctrl-F
    /// opens the search; Ctrl-S saves; any other key goes to the active
    /// document. Every key but the warning Ctrl-Q disarms the quit flag.
    pub open spec fn process_keypress(self, key: EditorKey, now: int) -> (
        EditorView,
        ActionView,
    ) {
        if self.prompt is Some {
            let (next, action) = self.prompt(key, now);
            (EditorView { quit: false, ..next }, action)
        } else if key == EditorKey::Char(CTRL_Q) {
            if self.any_dirty() && !self.quit {
                (
                    EditorView { quit: true, ..self.with_status(quit_warning(), now) },
                    ActionView::Continue,
                )
            } else {
                (self, ActionView::Quit)
            }
        } else {
            let (next, action) = if key == EditorKey::Char(CTRL_T) {
                (self.next_tab(), ActionView::Continue)
            } else if key == EditorKey::Char(CTRL_F) {
                (self.find(now), ActionView::Continue)
            } else if key == EditorKey::Char(CTRL_S) {
                self.save_file(now)
            } else if self.tabs.len() > 0 {
                (
                    self.with_active(self.active().process_buffer_keypress(key)),
                    ActionView::Continue,
                )
            } else {
                (self, ActionView::Continue)
            };
            (EditorView { quit: false, ..next }, action)
        }
    }
}

impl View for Editor {
    type V = EditorView;

    open spec fn view(&self) -> EditorView {
        EditorView {
            screenrows: self.screenrows as int,
            screencols: self.screencols as int,
            statusmsg: self.statusmsg@,
            statusmsg_t: self.statusmsg_t as int,
            quit: self.quit,
            tabs: views_of(self.tabs@),
            tab_index: self.tab_index as int,
            prompt: self.prompt,
            prompt_buf: self.prompt_buf@,
            saved_cx: self.saved_cx as int,
            saved_cy: self.saved_cy as int,
            saved_col_offset: self.saved_col_offset as int,
            saved_row_offset: self.saved_row_offset as int,
        }
    }
}

fn copy_chars(src: &Vec<char>) -> (v: Vec<char>)
    ensures
        v@ == src@,
{
    let mut v: Vec<char> = Vec::new();
    push_all(&mut v, src);
    v
}

fn prompt_line(kind: PromptKind) -> (v: Vec<char>)
    ensures
        v@ == prompt_text(kind),
{
    match kind {
        PromptKind::Find => chars_of("Search: {} (ESC/Arrows/Enter)"),
        PromptKind::SaveAs => chars_of("Save as: {} (ESC to cancel)"),
    }
}

impl Editor {
    /// The session is well formed: every document is, and the session as a
    /// whole is consistent.
    pub open spec fn wf(&self) -> bool {
        &&& forall|i: int| 0 <= i < self.tabs@.len() ==> (#[trigger] self.tabs@[i]).wf()
        &&& self@.consistent()
    }

    /// The active document, if there is one, can count two more changes.
    pub open spec fn can_edit(&self) -> bool {
        self.tabs@.len() > 0 ==> self.tabs@[self.tab_index as int].dirty + 2 <= usize::MAX
    }

    /// A session without documents, for a screen of no size yet.
    pub fn new() -> (editor: Editor)
        ensures
            editor.wf(),
            editor@ == (EditorView {
                screenrows: 0,
                screencols: 0,
                statusmsg: Seq::empty(),
                statusmsg_t: 0,
                quit: false,
                tabs: Seq::empty(),
                tab_index: 0,
                prompt: None,
                prompt_buf: Seq::empty(),
                saved_cx: 0,
                saved_cy: 0,
                saved_col_offset: 0,
                saved_row_offset: 0,
            }),
    {
        let editor = Editor {
            screenrows: 0,
            screencols: 0,
            statusmsg: Vec::new(),
            statusmsg_t: 0,
            quit: false,
            tabs: Vec::new(),
            tab_index: 0,
            prompt: None,
            prompt_buf: Vec::new(),
            saved_cx: 0,
            saved_cy: 0,
            saved_col_offset: 0,
            saved_row_offset: 0,
        };
        proof {
            assert(editor@.tabs =~= Seq::<TabView>::empty());
        }
        editor
    }

    /// Takes the size of the terminal window. The two lowest rows are kept
    /// for the status line and the message line.
    pub fn init(&mut self, rows: usize, cols: usize)
        requires
            rows >= 2,
        ensures
            *final(self) == (Editor {
                screenrows: (rows - 2) as usize,
                screencols: cols,
                ..*old(self)
            }),
            final(self).wf() == old(self).wf(),
    {
        self.screenrows = rows - 2;
        self.screencols = cols;
    }

    /// Opens an empty document of the size of the screen and makes it the
    /// active one.
    pub fn create_tab(&mut self)
        requires
            old(self).wf(),
            old(self).prompt is None,
        ensures
            final(self).wf(),
            final(self)@ == (EditorView {
                tabs: old(self)@.tabs.push(
                    TabView::empty(old(self)@.screenrows, old(self)@.screencols),
                ),
                tab_index: old(self)@.tabs.len() as int,
                ..old(self)@
            }),
    {
        let tab = Tab::new(self.screenrows, self.screencols);
        self.tabs.push(tab);
        proof {
            assert(self@.tabs =~= old(self)@.tabs.push(tab@));
        }
        let last = self.tabs.len() - 1;
        self.set_active_tab(last);
    }

    /// Makes the document with the given index the active one.
    pub fn set_active_tab(&mut self, index: usize)
        requires
            old(self).wf(),
            old(self).prompt is None,
            index < old(self).tabs@.len(),
        ensures
            final(self).wf(),
            *final(self) == (Editor { tab_index: index, ..*old(self) }),
    {
        self.tab_index = index;
    }

    /// Sets the status message, at time `now`.
    pub fn set_status_message(&mut self, msg: &Vec<char>, now: u64)
        ensures
            final(self)@ == old(self)@.with_status(msg@, now as int),
            final(self).tabs == old(self).tabs,
            final(self).wf() == old(self).wf(),
    {
        self.statusmsg = copy_chars(msg);
        self.statusmsg_t = now;
    }

    /// Tells whether some document has unsaved changes.
    pub fn has_unsaved(&self) -> (b: bool)
        ensures
            b == self@.any_dirty(),
    {
        let mut i: usize = 0;
        while i < self.tabs.len()
            invariant
                i <= self.tabs@.len(),
                forall|j: int| 0 <= j < i ==> (#[trigger] self@.tabs[j]).dirty == 0,
            decreases self.tabs@.len() - i,
        {
            if self.tabs[i].dirty > 0 {
                assert(self@.tabs[i as int].dirty > 0);
                return true;
            }
            i += 1;
        }
        false
    }

    fn open_prompt(&mut self, kind: PromptKind, now: u64)
        requires
            old(self).wf(),
            old(self).prompt is None,
            old(self).tabs@.len() > 0,
        ensures
            final(self).wf(),
            final(self)@ == old(self)@.open_prompt(kind, now as int),
    {
        self.saved_cx = self.tabs[self.tab_index].cx;
        self.saved_cy = self.tabs[self.tab_index].cy;
        self.saved_col_offset = self.tabs[self.tab_index].col_offset;
        self.saved_row_offset = self.tabs[self.tab_index].row_offset;
        self.prompt = Some(kind);
        self.prompt_buf = Vec::new();
        self.show_prompt(kind, now);
    }

    fn show_prompt(&mut self, kind: PromptKind, now: u64)
        ensures
            final(self)@ == old(self)@.with_status(
                prompt_message(kind, old(self).prompt_buf@),
                now as int,
            ),
            final(self).tabs == old(self).tabs,
    {
        let line = prompt_line(kind);
        let mut args: Vec<Vec<char>> = Vec::new();
        args.push(copy_chars(&self.prompt_buf));
        proof {
            assert(rows_of(args@).len() == 1);
            assert(rows_of(args@).last() == self.prompt_buf@);
        }
        let msg = dyn_fmt(&line, &args);
        self.statusmsg = msg;
        self.statusmsg_t = now;
    }

    /// Opens the search prompt over the active document. Cursor and window
    /// are remembered for the case that the search is cancelled.
    pub fn find(&mut self, now: u64)
        requires
            old(self).wf(),
            old(self).prompt is None,
        ensures
            final(self).wf(),
            final(self)@ == old(self)@.find(now as int),
    {
        if self.tabs.len() == 0 {
            return ;
        }
        self.open_prompt(PromptKind::Find, now);
    }

    /// Asks for the active document to be saved.
    pub fn save_file(&mut self, now: u64) -> (action: Action)
        requires
            old(self).wf(),
            old(self).prompt is None,
        ensures
            final(self).wf(),
            (final(self)@, action@) == old(self)@.save_file(now as int),
    {
        if self.tabs.len() == 0 {
            return Action::Continue;
        }
        let named = self.tabs[self.tab_index].filename.is_some();
        if named {
            self.write_action()
        } else {
            self.open_prompt(PromptKind::SaveAs, now);
            Action::Continue
        }
    }

    fn write_action(&self) -> (action: Action)
        requires
            self.tabs@.len() > 0,
            self.tab_index < self.tabs@.len(),
            self.tabs@[self.tab_index as int].filename is Some,
        ensures
            action@ == (ActionView::Save {
                filename: self@.active().filename.unwrap(),
                contents: join_lines(self@.active().rows),
            }),
    {
        let tab = &self.tabs[self.tab_index];
        let filename = match &tab.filename {
            Some(name) => copy_chars(name),
            None => Vec::new(),
        };
        Action::Save { filename, contents: tab.contents() }
    }

    /// Takes in the outcome of the write that [`Action::Save`] asked for:
    /// the number of bytes written, or the reason why nothing was.
    pub fn file_written(&mut self, result: Result<usize, Vec<char>>, now: u64)
        requires
            old(self).wf(),
        ensures
            final(self).wf(),
            final(self)@ == old(self)@.file_written(
                match result {
                    Ok(bytes) => Ok(bytes as nat),
                    Err(error) => Err(error@),
                },
                now as int,
            ),
    {
        let mut msg: Vec<char> = Vec::new();
        match result {
            Ok(bytes) => {
                push_decimal(&mut msg, bytes as u128);
                push_str(&mut msg, " bytes written to disk");
                if self.tabs.len() > 0 {
                    self.tabs[self.tab_index].dirty = 0;
                    proof {
                        let a = old(self)@;
                        assert(self@.tabs =~= a.tabs.update(
                            a.tab_index,
                            TabView { dirty: 0, ..a.active() },
                        ));
                    }
                }
            },
            Err(error) => {
                push_str(&mut msg, "Can't save! I/O error: ");
                push_all(&mut msg, &error);
            },
        }
        self.statusmsg = msg;
        self.statusmsg_t = now;
    }

    /// Lets the open prompt react to `key`: the search prompt makes one
    /// search step in the active document.
    pub fn run_callback(&mut self, key: EditorKey)
        requires
            old(self).wf(),
        ensures
            final(self).wf(),
            final(self)@ == old(self)@.run_callback(key),
    {
        match self.prompt {
            Some(PromptKind::Find) => {
                if self.tabs.len() > 0 {
                    self.tabs[self.tab_index].find_cb(&self.prompt_buf, key);
                    proof {
                        let a = old(self)@;
                        assert(self@.tabs =~= a.tabs.update(
                            a.tab_index,
                            a.active().find_cb(a.prompt_buf, key),
                        ));
                    }
                }
            },
            _ => {},
        }
    }

    fn edit_prompt_buf(&mut self, key: EditorKey)
        ensures
            *final(self) == (Editor { prompt_buf: final(self).prompt_buf, ..*old(self) }),
            final(self).prompt_buf@ == edited_buf(old(self).prompt_buf@, key),
    {
        match key {
            EditorKey::Delete => {
                if self.prompt_buf.len() > 0 {
                    self.prompt_buf.pop();
                }
            },
            EditorKey::Backspace => {
                if self.prompt_buf.len() > 0 {
                    self.prompt_buf.pop();
                }
            },
            EditorKey::Char(c) => {
                if c == CTRL_H {
                    if self.prompt_buf.len() > 0 {
                        self.prompt_buf.pop();
                    }
                } else if !is_control(c) {
                    self.prompt_buf.push(c);
                }
            },
            _ => {},
        }
    }

    /// Gives a key to the open prompt.
    pub fn prompt(&mut self, key: EditorKey, now: u64) -> (action: Action)
        requires
            old(self).wf(),
            old(self).prompt is Some,
        ensures
            final(self).wf(),
            (final(self)@, action@) == old(self)@.prompt(key, now as int),
    {
        let kind = match self.prompt {
            Some(kind) => kind,
            None => PromptKind::Find,
        };
        let (escape, enter) = match key {
            EditorKey::Char(c) => (c == '\u{1b}', c == '\r'),
            _ => (false, false),
        };
        if escape || enter {
            self.statusmsg = Vec::new();
            self.statusmsg_t = now;
            self.run_callback(key);
            self.prompt = None;
            let ghost closed = self@;
            match kind {
                PromptKind::Find => {
                    if escape {
                        let index = self.tab_index;
                        self.tabs[index].cx = self.saved_cx;
                        self.tabs[index].cy = self.saved_cy;
                        self.tabs[index].col_offset = self.saved_col_offset;
                        self.tabs[index].row_offset = self.saved_row_offset;
                        proof {
                            assert(self@.tabs =~= closed.tabs.update(
                                closed.tab_index,
                                TabView {
                                    cx: closed.saved_cx,
                                    cy: closed.saved_cy,
                                    col_offset: closed.saved_col_offset,
                                    row_offset: closed.saved_row_offset,
                                    ..closed.active()
                                },
                            ));
                        }
                    }
                    Action::Continue
                },
                PromptKind::SaveAs => {
                    if escape {
                        self.statusmsg = chars_of("Save aborted");
                        Action::Continue
                    } else {
                        let index = self.tab_index;
                        self.tabs[index].filename = Some(copy_chars(&self.prompt_buf));
                        proof {
                            assert(self@.tabs =~= closed.tabs.update(
                                closed.tab_index,
                                TabView { filename: Some(closed.prompt_buf), ..closed.active() },
                            ));
                        }
                        self.write_action()
                    }
                },
            }
        } else {
            self.edit_prompt_buf(key);
            self.run_callback(key);
            self.show_prompt(kind, now);
            Action::Continue
        }
    }

    /// Gives a key, read at time `now`, to the session. Where the key can
    /// change the text of the active document, that document needs room in
    /// its dirty counter.
    pub fn process_keypress(&mut self, key: EditorKey, now: u64) -> (action: Action)
        requires
            old(self).wf(),
            old(self)@.edits_document(key) ==> old(self).can_edit(),
        ensures
            final(self).wf(),
            (final(self)@, action@) == old(self)@.process_keypress(key, now as int),
    {
        if self.prompt.is_some() {
            let action = self.prompt(key, now);
            self.quit = false;
            return action;
        }
        let (quit, next, find, save) = match key {
            EditorKey::Char(c) => (c == CTRL_Q, c == CTRL_T, c == CTRL_F, c == CTRL_S),
            _ => (false, false, false, false),
        };
        if quit {
            if self.has_unsaved() && !self.quit {
                self.statusmsg = chars_of(
                    "WARNING!!! There are unsaved files. Press Ctrl-Q once more to quit.",
                );
                self.statusmsg_t = now;
                self.quit = true;
                return Action::Continue;
            }
            return Action::Quit;
        }
        let action = if next {
            let count = self.tabs.len();
            if count > 0 {
                self.tab_index = (self.tab_index + 1) % count;
            }
            Action::Continue
        } else if find {
            self.find(now);
            Action::Continue
        } else if save {
            self.save_file(now)
        } else {
            if self.tabs.len() > 0 {
                self.tabs[self.tab_index].process_buffer_keypress(key);
                proof {
                    let a = old(self)@;
                    lemma_buffer_key_frame(a.active(), key);
                    assert(self@.tabs =~= a.tabs.update(
                        a.tab_index,
                        a.active().process_buffer_keypress(key),
                    ));
                }
            }
            Action::Continue
        };
        self.quit = false;
        action
    }
}

/// With unsaved changes and the quit flag down, one Ctrl-Q does not quit:
/// it shows the warning and arms the flag. The Ctrl-Q that follows it
/// quits.
pub proof fn lemma_quit_needs_two_presses(e: EditorView, now: int, later: int)
    requires
        e.prompt is None,
        e.any_dirty(),
        !e.quit,
    ensures
        ({
            let (warned, first) = e.process_keypress(EditorKey::Char(CTRL_Q), now);
            let (after, second) = warned.process_keypress(EditorKey::Char(CTRL_Q), later);
            &&& first == ActionView::Continue
            &&& warned.statusmsg == quit_warning() && warned.statusmsg_t == now
            &&& warned.quit
            &&& warned.tabs == e.tabs
            &&& second == ActionView::Quit
            &&& after == warned
        }),
{
    let (warned, first) = e.process_keypress(EditorKey::Char(CTRL_Q), now);
    assert(warned.tabs == e.tabs);
    assert(warned.any_dirty());
}

/// Without unsaved changes the first Ctrl-Q quits.
pub proof fn lemma_quit_when_clean(e: EditorView, now: int)
    requires
        e.prompt is None,
        !e.any_dirty(),
    ensures
        e.process_keypress(EditorKey::Char(CTRL_Q), now) == (e, ActionView::Quit),
{
}

/// Any key other than Ctrl-Q disarms the quit flag, so that the next
/// Ctrl-Q warns again while changes are unsaved.
pub proof fn lemma_other_key_disarms_quit(e: EditorView, key: EditorKey, now: int)
    requires
        key != EditorKey::Char(CTRL_Q) || e.prompt is Some,
    ensures
        !e.process_keypress(key, now).0.quit,
{
}

/// Ctrl-T goes round the documents: from the last it comes back to the
/// first, and after as many presses as there are documents the same
/// document is active again.
pub proof fn lemma_next_tab_round_robin(e: EditorView, presses: nat)
    requires
        e.tabs.len() > 0,
        0 <= e.tab_index < e.tabs.len(),
    ensures
        e.next_tab().tab_index == if e.tab_index + 1 == e.tabs.len() {
            0
        } else {
            e.tab_index + 1
        },
        after_presses(e, presses).tab_index == (e.tab_index + presses) % (e.tabs.len() as int),
        after_presses(e, e.tabs.len()).tab_index == e.tab_index,
{
    let n = e.tabs.len() as int;
    assert((e.tab_index + 1) % n == if e.tab_index + 1 == n {
        0
    } else {
        e.tab_index + 1
    }) by (nonlinear_arith)
        requires
            0 <= e.tab_index < n,
    ;
    lemma_after_presses(e, presses);
    lemma_after_presses(e, e.tabs.len());
    assert((e.tab_index + n) % n == e.tab_index) by (nonlinear_arith)
        requires
            0 <= e.tab_index < n,
    ;
}

/// The session after `presses` presses of Ctrl-T.
pub open spec fn after_presses(e: EditorView, presses: nat) -> EditorView
    decreases presses,
{
    if presses == 0 {
        e
    } else {
        after_presses(e, (presses - 1) as nat).next_tab()
    }
}

proof fn lemma_after_presses(e: EditorView, presses: nat)
    requires
        e.tabs.len() > 0,
        0 <= e.tab_index < e.tabs.len(),
    ensures
        after_presses(e, presses).tabs == e.tabs,
        after_presses(e, presses).tab_index == (e.tab_index + presses) % (e.tabs.len() as int),
    decreases presses,
{
    let n = e.tabs.len() as int;
    if presses == 0 {
        assert(e.tab_index % n == e.tab_index) by (nonlinear_arith)
            requires
                0 <= e.tab_index < n,
        ;
    } else {
        lemma_after_presses(e, (presses - 1) as nat);
        let before = (e.tab_index + presses - 1) % n;
        assert((before + 1) % n == (e.tab_index + presses) % n) by (nonlinear_arith)
            requires
                before == (e.tab_index + presses - 1) % n,
                n > 0,
        ;
    }
}

} // verus!
