//! One logical line of text together with its tab-expanded render form.
//!
//! The model of a line is its content, a `Seq<char>`. The render form is a
//! function of the content ([`expand`]), and the two column systems are tied
//! together by [`render_col`] (content index to render column) and
//! [`col_index`] (render column back to content index).

use vstd::prelude::*;

verus! {

/// Column interval that tab expansion aligns to.
pub const KILO_TAB_STOP: usize = 4;

/// The first tab stop strictly to the right of column `col`.
pub open spec fn next_tab_stop(col: int) -> int {
    col + (KILO_TAB_STOP as int - col % (KILO_TAB_STOP as int))
}

/// Column `col` is a multiple of the tab stop width.
pub open spec fn is_tab_stop(col: int) -> bool {
    col % (KILO_TAB_STOP as int) == 0
}

/// `n` blanks.
pub open spec fn spaces(n: int) -> Seq<char> {
    Seq::new(n as nat, |i: int| ' ')
}

/// The render form of `chars`: every tab becomes the blanks that reach the
/// next tab stop, every other character stands for itself.
pub open spec fn expand(chars: Seq<char>) -> Seq<char>
    decreases chars.len(),
{
    if chars.len() == 0 {
        Seq::empty()
    } else {
        let before = expand(chars.drop_last());
        if chars.last() == '\t' {
            before + spaces(next_tab_stop(before.len() as int) - before.len())
        } else {
            before.push(chars.last())
        }
    }
}

/// The render column at which the character with index `cx` starts: the
/// width of the expansion of the `cx` characters before it.
pub open spec fn render_col(chars: Seq<char>, cx: int) -> int {
    expand(chars.take(cx)).len() as int
}

/// The first index at or after `from` whose character ends to the right of
/// render column `rx`; the length of the line if there is none.
pub open spec fn col_index_from(chars: Seq<char>, rx: int, from: int) -> int
    decreases chars.len() - from,
{
    if from >= chars.len() {
        chars.len() as int
    } else if render_col(chars, from + 1) > rx {
        from
    } else {
        col_index_from(chars, rx, from + 1)
    }
}

/// The content index of the character that covers render column `rx`; the
/// length of the line if `rx` lies to the right of the whole render form.
pub open spec fn col_index(chars: Seq<char>, rx: int) -> int {
    col_index_from(chars, rx, 0)
}

/// One step of [`render_col`]: a tab jumps to the next tab stop, any other
/// character takes one column.
pub proof fn lemma_render_col_step(chars: Seq<char>, cx: int)
    requires
        0 <= cx < chars.len(),
    ensures
        render_col(chars, 0) == 0,
        render_col(chars, cx + 1) == if chars[cx] == '\t' {
            next_tab_stop(render_col(chars, cx))
        } else {
            render_col(chars, cx) + 1
        },
        render_col(chars, cx) < render_col(chars, cx + 1) <= render_col(chars, cx)
            + KILO_TAB_STOP,
{
    assert(chars.take(cx + 1).drop_last() =~= chars.take(cx));
    assert(chars.take(cx + 1).last() == chars[cx]);
    assert(chars.take(0) =~= Seq::<char>::empty());
}

/// Render columns grow with the content index.
pub proof fn lemma_render_col_monotonic(chars: Seq<char>, i: int, j: int)
    requires
        0 <= i <= j <= chars.len(),
    ensures
        render_col(chars, i) + (j - i) <= render_col(chars, j),
    decreases j - i,
{
    if i < j {
        lemma_render_col_monotonic(chars, i, j - 1);
        lemma_render_col_step(chars, j - 1);
    }
}

/// The whole render form is as wide as the column after the last character.
pub proof fn lemma_render_col_end(chars: Seq<char>)
    ensures
        render_col(chars, chars.len() as int) == expand(chars).len(),
{
    assert(chars.take(chars.len() as int) =~= chars);
}

/// What [`col_index_from`] returns, without the recursion: it lies in
/// `from..=len`, every character between `from` and it ends at or before
/// `rx`, and the character at it, if there is one, ends after `rx`.
pub proof fn lemma_col_index_from(chars: Seq<char>, rx: int, from: int)
    requires
        0 <= from <= chars.len(),
    ensures
        from <= col_index_from(chars, rx, from) <= chars.len(),
        forall|j: int|
            from <= j < col_index_from(chars, rx, from) ==> #[trigger] render_col(chars, j + 1)
                <= rx,
        col_index_from(chars, rx, from) < chars.len() ==> render_col(
            chars,
            col_index_from(chars, rx, from) + 1,
        ) > rx,
    decreases chars.len() - from,
{
    if from < chars.len() && render_col(chars, from + 1) <= rx {
        lemma_col_index_from(chars, rx, from + 1);
    }
}

/// No render column lies beyond the width of the whole expansion.
pub proof fn lemma_render_col_bound(chars: Seq<char>, cx: int)
    requires
        0 <= cx <= chars.len(),
    ensures
        render_col(chars, cx) <= expand(chars).len(),
{
    lemma_render_col_monotonic(chars, cx, chars.len() as int);
    lemma_render_col_end(chars);
}

/// Mapping a content index to its render column and back gives the index
/// again.
pub proof fn lemma_rx_to_cx_of_cx_to_rx(chars: Seq<char>, n: int)
    requires
        0 <= n <= chars.len(),
    ensures
        col_index(chars, render_col(chars, n)) == n,
{
    let rx = render_col(chars, n);
    let found = col_index(chars, rx);
    lemma_col_index_from(chars, rx, 0);
    if found < n {
        lemma_render_col_monotonic(chars, found + 1, n);
    } else if found > n {
        assert(render_col(chars, n + 1) <= rx);
        lemma_render_col_step(chars, n);
    }
}

/// Every render column inside the span of one character maps back to that
/// character.
pub proof fn lemma_col_index_in_span(chars: Seq<char>, p: int, rx: int)
    requires
        0 <= p < chars.len(),
        render_col(chars, p) <= rx < render_col(chars, p + 1),
    ensures
        col_index(chars, rx) == p,
{
    let found = col_index(chars, rx);
    lemma_col_index_from(chars, rx, 0);
    if found < p {
        lemma_render_col_monotonic(chars, found + 1, p);
    } else if found > p {
        assert(render_col(chars, p + 1) <= rx);
    }
}

/// After a tab the render column is the smallest multiple of the tab stop
/// width that is greater than the column before the tab.
pub proof fn lemma_tab_reaches_next_stop(chars: Seq<char>, p: int)
    requires
        0 <= p < chars.len(),
        chars[p] == '\t',
    ensures
        is_tab_stop(render_col(chars, p + 1)),
        render_col(chars, p + 1) > render_col(chars, p),
        forall|m: int|
            #[trigger] is_tab_stop(m) && m > render_col(chars, p) ==> render_col(chars, p + 1)
                <= m,
{
    lemma_render_col_step(chars, p);
}

/// The render form is never shorter than the content.
pub proof fn lemma_expand_len(chars: Seq<char>)
    ensures
        chars.len() <= expand(chars).len() <= KILO_TAB_STOP * chars.len(),
{
    lemma_render_col_monotonic(chars, 0, chars.len() as int);
    lemma_render_col_end(chars);
    lemma_render_col_width(chars, chars.len() as int);
    assert(chars.take(0) =~= Seq::<char>::empty());
}

/// No character is wider than one tab stop.
pub proof fn lemma_render_col_width(chars: Seq<char>, cx: int)
    requires
        0 <= cx <= chars.len(),
    ensures
        render_col(chars, cx) <= KILO_TAB_STOP * cx,
    decreases cx,
{
    if cx > 0 {
        lemma_render_col_width(chars, cx - 1);
        lemma_render_col_step(chars, cx - 1);
    } else {
        assert(chars.take(0) =~= Seq::<char>::empty());
    }
}

/// A line of the buffer: its characters and the render form derived from
/// them.
#[derive(Clone)]
pub struct Line {
    pub chars: Vec<char>,
    pub render: Vec<char>,
}

impl Line {
    /// The render form is the expansion of the present content.
    pub open spec fn is_current(&self) -> bool {
        self.render@ == expand(self.chars@)
    }

    /// Length of the render form.
    pub fn rsize(&self) -> (n: usize)
        ensures
            n == self.render@.len(),
    {
        self.render.len()
    }

    /// Length of the content.
    pub fn size(&self) -> (n: usize)
        ensures
            n == self.chars@.len(),
    {
        self.chars.len()
    }

    /// Derives the render form again from the content.
    pub fn update(&mut self)
        ensures
            final(self).chars == old(self).chars,
            final(self).render@ == expand(old(self).chars@),
            final(self).is_current(),
    {
        self.render.clear();
        let n = self.chars.len();
        let mut i: usize = 0;
        while i < n
            invariant
                i <= n,
                n == self.chars.len(),
                self.chars == old(self).chars,
                self.render@ == expand(self.chars@.take(i as int)),
            decreases n - i,
        {
            let ch = self.chars[i];
            let ghost before = self.render@;
            if ch == '\t' {
                self.render.push(' ');
                while self.render.len() % KILO_TAB_STOP != 0
                    invariant
                        self.chars == old(self).chars,
                        before.len() < self.render.len() <= next_tab_stop(before.len() as int),
                        self.render@ == before + spaces(self.render.len() - before.len()),
                    decreases next_tab_stop(before.len() as int) - self.render.len(),
                {
                    self.render.push(' ');
                }
            } else {
                self.render.push(ch);
            }
            proof {
                assert(self.chars@.take(i + 1).drop_last() =~= self.chars@.take(i as int));
                assert(self.chars@.take(i + 1).last() == ch);
            }
            i += 1;
        }
        proof {
            assert(self.chars@.take(n as int) =~= self.chars@);
        }
    }

    /// The render column of content index `cx`. It is derived from the
    /// content alone; the column has to fit the machine word, which it
    /// does in every line that has a render form
    /// ([`lemma_render_col_bound`]).
    pub fn cx_to_rx(&self, cx: usize) -> (rx: usize)
        requires
            cx <= self.chars@.len(),
            render_col(self.chars@, cx as int) <= usize::MAX,
        ensures
            rx == render_col(self.chars@, cx as int),
    {
        let mut rx: usize = 0;
        let mut i: usize = 0;
        proof {
            assert(self.chars@.take(0) =~= Seq::<char>::empty());
        }
        while i < cx
            invariant
                i <= cx <= self.chars@.len(),
                render_col(self.chars@, cx as int) <= usize::MAX,
                rx == render_col(self.chars@, i as int),
            decreases cx - i,
        {
            proof {
                lemma_render_col_step(self.chars@, i as int);
                lemma_render_col_monotonic(self.chars@, i + 1, cx as int);
            }
            if self.chars[i] == '\t' {
                rx += (KILO_TAB_STOP - 1) - (rx % KILO_TAB_STOP);
            }
            rx += 1;
            i += 1;
        }
        rx
    }

    /// The content index of the character that covers render column `rx`,
    /// or the length of the line when `rx` is past its end. Every column
    /// inside a tab's span gives the index of that tab. It is derived from
    /// the content alone; the width of the expansion has to fit the machine
    /// word, which it does in every line that has a render form.
    pub fn rx_to_cx(&self, rx: usize) -> (cx: usize)
        requires
            expand(self.chars@).len() <= usize::MAX,
        ensures
            cx == col_index(self.chars@, rx as int),
            cx <= self.chars@.len(),
    {
        let mut cur_rx: usize = 0;
        let mut cx: usize = 0;
        proof {
            assert(self.chars@.take(0) =~= Seq::<char>::empty());
        }
        while cx < self.size()
            invariant
                cx <= self.chars@.len(),
                expand(self.chars@).len() <= usize::MAX,
                cur_rx == render_col(self.chars@, cx as int),
                col_index(self.chars@, rx as int) == col_index_from(
                    self.chars@,
                    rx as int,
                    cx as int,
                ),
            decreases self.chars@.len() - cx,
        {
            proof {
                lemma_render_col_step(self.chars@, cx as int);
                lemma_render_col_monotonic(self.chars@, cx + 1, self.chars@.len() as int);
                lemma_render_col_end(self.chars@);
            }
            if self.chars[cx] == '\t' {
                cur_rx += (KILO_TAB_STOP - 1) - (cur_rx % KILO_TAB_STOP);
            }
            cur_rx += 1;

            if cur_rx > rx {
                return cx;
            }
            cx += 1;
        }
        cx
    }
}

} // verus!
