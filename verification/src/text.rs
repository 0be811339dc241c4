//! Text as sequences of characters: building, searching, formatting and
//! splitting into lines.

use vstd::prelude::*;
use vstd::string::StrSliceExecFns;

verus! {

/// The contents of a list of texts.
pub open spec fn rows_of(lines: Seq<Vec<char>>) -> Seq<Seq<char>> {
    Seq::new(lines.len(), |i: int| lines[i]@)
}

/// The characters of `s`.
pub fn chars_of(s: &str) -> (v: Vec<char>)
    ensures
        v@ == s@,
{
    let mut v: Vec<char> = Vec::new();
    push_str(&mut v, s);
    v
}

/// Appends the characters of `s` to `out`.
pub fn push_str(out: &mut Vec<char>, s: &str)
    ensures
        final(out)@ == old(out)@ + s@,
{
    let n = s.unicode_len();
    let mut i: usize = 0;
    while i < n
        invariant
            i <= n,
            n == s@.len(),
            out@ == old(out)@ + s@.take(i as int),
        decreases n - i,
    {
        out.push(s.get_char(i));
        proof {
            assert(s@.take(i + 1) =~= s@.take(i as int).push(s@[i as int]));
        }
        i += 1;
    }
    proof {
        assert(s@.take(n as int) =~= s@);
    }
}

/// Appends the characters `from..to` of `src` to `out`.
pub fn push_range(out: &mut Vec<char>, src: &Vec<char>, from: usize, to: usize)
    requires
        from <= to <= src@.len(),
    ensures
        final(out)@ == old(out)@ + src@.subrange(from as int, to as int),
{
    let mut i: usize = from;
    while i < to
        invariant
            from <= i <= to <= src@.len(),
            out@ == old(out)@ + src@.subrange(from as int, i as int),
        decreases to - i,
    {
        out.push(src[i]);
        proof {
            assert(src@.subrange(from as int, i + 1) =~= src@.subrange(from as int, i as int).push(
                src@[i as int],
            ));
        }
        i += 1;
    }
}

/// Appends all of `src` to `out`.
pub fn push_all(out: &mut Vec<char>, src: &Vec<char>)
    ensures
        final(out)@ == old(out)@ + src@,
{
    push_range(out, src, 0, src.len());
    proof {
        assert(src@.subrange(0, src@.len() as int) =~= src@);
    }
}

/// Appends `n` copies of `c` to `out`.
pub fn push_repeat(out: &mut Vec<char>, c: char, n: usize)
    ensures
        final(out)@ == old(out)@ + Seq::new(n as nat, |i: int| c),
{
    let mut i: usize = 0;
    while i < n
        invariant
            i <= n,
            out@ == old(out)@ + Seq::new(i as nat, |k: int| c),
        decreases n - i,
    {
        out.push(c);
        proof {
            assert(Seq::new((i + 1) as nat, |k: int| c) =~= Seq::new(i as nat, |k: int| c).push(
                c,
            ));
        }
        i += 1;
    }
}

/// The decimal digit for `d`.
pub open spec fn digit_char(d: int) -> char {
    (0x30 + d) as char
}

/// `n` written in decimal, without sign or leading zeros.
pub open spec fn decimal(n: nat) -> Seq<char>
    decreases n,
{
    if n < 10 {
        seq![digit_char(n as int)]
    } else {
        decimal(n / 10).push(digit_char((n % 10) as int))
    }
}

/// Appends `n` in decimal to `out`.
pub fn push_decimal(out: &mut Vec<char>, n: u128)
    ensures
        final(out)@ == old(out)@ + decimal(n as nat),
    decreases n,
{
    if n >= 10 {
        push_decimal(out, n / 10);
    }
    let d: u8 = (n % 10) as u8;
    let c: char = (0x30 + d) as char;
    out.push(c);
    proof {
        if n >= 10 {
            assert(out@ =~= old(out)@ + decimal((n / 10) as nat).push(c));
        } else {
            assert(out@ =~= old(out)@ + seq![c]);
        }
    }
}

/// `query` stands in `text` at index `at`.
pub open spec fn occurs_at(text: Seq<char>, query: Seq<char>, at: int) -> bool {
    0 <= at && at + query.len() <= text.len() && text.subrange(at, at + query.len()) == query
}

/// The first index at or after `from` at which `query` stands in `text`.
pub open spec fn first_occurrence_from(text: Seq<char>, query: Seq<char>, from: int) -> Option<
    int,
>
    decreases text.len() - from + 1,
{
    if 0 <= from && from + query.len() <= text.len() {
        if occurs_at(text, query, from) {
            Some(from)
        } else {
            first_occurrence_from(text, query, from + 1)
        }
    } else {
        None
    }
}

/// The first index at which `query` stands in `text`. The empty query
/// stands at index 0 of every text.
pub open spec fn first_occurrence(text: Seq<char>, query: Seq<char>) -> Option<int> {
    first_occurrence_from(text, query, 0)
}

/// `query` stands somewhere in `text`.
pub open spec fn contains(text: Seq<char>, query: Seq<char>) -> bool {
    first_occurrence(text, query) is Some
}

/// What [`first_occurrence_from`] returns, without the recursion.
pub proof fn lemma_first_occurrence_from(text: Seq<char>, query: Seq<char>, from: int)
    requires
        0 <= from,
    ensures
        match first_occurrence_from(text, query, from) {
            Some(at) => from <= at && occurs_at(text, query, at) && forall|j: int|
                from <= j < at ==> !occurs_at(text, query, j),
            None => forall|j: int| from <= j ==> !occurs_at(text, query, j),
        },
    decreases text.len() - from + 1,
{
    if from + query.len() <= text.len() && !occurs_at(text, query, from) {
        lemma_first_occurrence_from(text, query, from + 1);
    }
}

/// The index of the first occurrence of `query` in `text`.
pub fn find_first(text: &Vec<char>, query: &Vec<char>) -> (r: Option<usize>)
    ensures
        match r {
            Some(at) => first_occurrence(text@, query@) == Some(at as int),
            None => first_occurrence(text@, query@) is None,
        },
{
    let n = text.len();
    let m = query.len();
    if m > n {
        return None;
    }
    let mut at: usize = 0;
    while at <= n - m
        invariant
            m <= n,
            n == text@.len(),
            m == query@.len(),
            at <= n - m + 1,
            first_occurrence(text@, query@) == first_occurrence_from(text@, query@, at as int),
        decreases n - m + 1 - at,
    {
        let mut k: usize = 0;
        while k < m && text[at + k] == query[k]
            invariant
                m <= n,
                n == text@.len(),
                m == query@.len(),
                at <= n - m,
                k <= m,
                text@.subrange(at as int, at + k) == query@.take(k as int),
            decreases m - k,
        {
            proof {
                assert(text@.subrange(at as int, at + k + 1) =~= text@.subrange(
                    at as int,
                    at + k,
                ).push(text@[at + k]));
                assert(query@.take(k + 1) =~= query@.take(k as int).push(query@[k as int]));
            }
            k += 1;
        }
        if k == m {
            proof {
                assert(query@.take(m as int) =~= query@);
            }
            return Some(at);
        }
        proof {
            if occurs_at(text@, query@, at as int) {
                assert(text@.subrange(at as int, at + m)[k as int] == query@[k as int]);
            }
        }
        at += 1;
    }
    None
}

/// The placeholder that [`dyn_fmt`] fills.
pub open spec fn placeholder() -> Seq<char> {
    seq!['{', '}']
}

/// `fmt` with its first placeholder replaced by `arg`; `fmt` itself if it
/// has none.
pub open spec fn fill_first(fmt: Seq<char>, arg: Seq<char>) -> Seq<char> {
    match first_occurrence(fmt, placeholder()) {
        Some(at) => fmt.take(at) + arg + fmt.skip(at + 2),
        None => fmt,
    }
}

/// What [`dyn_fmt`] builds: `fmt` with its first placeholder replaced by the
/// last of `args`, and nothing at all without arguments.
pub open spec fn formatted(fmt: Seq<char>, args: Seq<Seq<char>>) -> Seq<char> {
    if args.len() == 0 {
        Seq::empty()
    } else {
        fill_first(fmt, args.last())
    }
}

/// Fills the first placeholder `{}` of `fmt_str`. Each argument in turn is
/// placed into a fresh copy of `fmt_str`, so the last argument is the one
/// that shows, and without arguments the result is empty.
pub fn dyn_fmt(fmt_str: &Vec<char>, args: &Vec<Vec<char>>) -> (s: Vec<char>)
    ensures
        s@ == formatted(fmt_str@, rows_of(args@)),
{
    let mut s: Vec<char> = Vec::new();
    let mut braces: Vec<char> = Vec::new();
    braces.push('{');
    braces.push('}');
    assert(braces@ =~= placeholder());
    let hole = find_first(fmt_str, &braces);
    let end = fmt_str.len();
    let mut i: usize = 0;
    while i < args.len()
        invariant
            i <= args.len(),
            end == fmt_str@.len(),
            s@ == formatted(fmt_str@, rows_of(args@).take(i as int)),
            braces@ == placeholder(),
            match hole {
                Some(at) => first_occurrence(fmt_str@, placeholder()) == Some(at as int),
                None => first_occurrence(fmt_str@, placeholder()) is None,
            },
        decreases args.len() - i,
    {
        s = Vec::new();
        match hole {
            Some(at) => {
                proof {
                    lemma_first_occurrence_from(fmt_str@, placeholder(), 0);
                    assert(placeholder().len() == 2);
                    assert(occurs_at(fmt_str@, placeholder(), at as int));
                }
                push_range(&mut s, fmt_str, 0, at);
                push_all(&mut s, &args[i]);
                push_range(&mut s, fmt_str, at + 2, end);
            },
            None => {
                push_all(&mut s, fmt_str);
            },
        }
        proof {
            assert(rows_of(args@).take(i + 1).last() == args@[i as int]@);
            assert(fmt_str@.subrange(0, fmt_str@.len() as int) =~= fmt_str@);
        }
        i += 1;
    }
    proof {
        assert(rows_of(args@).take(args.len() as int) =~= rows_of(args@));
    }
    s
}

/// The character is a control character: one of the C0 controls, DEL, or
/// one of the C1 controls.
pub open spec fn is_control_char(c: char) -> bool {
    (c as u32) < 0x20 || 0x7f <= (c as u32) <= 0x9f
}

/// Tells whether `c` is a control character.
pub fn is_control(c: char) -> (b: bool)
    ensures
        b == is_control_char(c),
{
    let code: u32 = c as u32;
    code < 0x20 || (0x7f <= code && code <= 0x9f)
}

/// The index of the first line feed in `text`, or its length if it has
/// none.
pub open spec fn first_newline(text: Seq<char>) -> int
    decreases text.len(),
{
    if text.len() == 0 {
        0
    } else if text[0] == '\n' {
        0
    } else {
        1 + first_newline(text.drop_first())
    }
}

/// `line` without one carriage return at its end.
pub open spec fn strip_cr(line: Seq<char>) -> Seq<char> {
    if line.len() > 0 && line.last() == '\r' {
        line.drop_last()
    } else {
        line
    }
}

/// The lines of `text`. A line ends at a line feed, which does not belong
/// to it, nor does a carriage return right before that line feed. What
/// follows the last line feed is a line too, unless it is empty.
pub open spec fn split_lines(text: Seq<char>) -> Seq<Seq<char>>
    decreases text.len(),
{
    if text.len() == 0 {
        Seq::empty()
    } else {
        let end = first_newline(text);
        if 0 <= end < text.len() {
            seq![strip_cr(text.take(end))] + split_lines(text.skip(end + 1))
        } else {
            seq![text]
        }
    }
}

/// `lines` written out as one text: each line followed by a line feed.
pub open spec fn join_lines(lines: Seq<Seq<char>>) -> Seq<char>
    decreases lines.len(),
{
    if lines.len() == 0 {
        Seq::empty()
    } else {
        join_lines(lines.drop_last()) + lines.last().push('\n')
    }
}

/// [`first_newline`] finds a line feed with none before it, or the end of a
/// text without line feed.
pub proof fn lemma_first_newline(text: Seq<char>)
    ensures
        0 <= first_newline(text) <= text.len(),
        forall|j: int| 0 <= j < first_newline(text) ==> text[j] != '\n',
        first_newline(text) < text.len() ==> text[first_newline(text)] == '\n',
    decreases text.len(),
{
    if text.len() > 0 && text[0] != '\n' {
        let rest = text.drop_first();
        lemma_first_newline(rest);
        assert forall|j: int| 0 <= j < first_newline(text) implies text[j] != '\n' by {
            if j > 0 {
                assert(text[j] == rest[j - 1]);
            }
        }
    }
}

/// A position with a line feed and none before it is the first line feed.
pub proof fn lemma_first_newline_is(text: Seq<char>, end: int)
    requires
        0 <= end <= text.len(),
        forall|j: int| 0 <= j < end ==> text[j] != '\n',
        end < text.len() ==> text[end] == '\n',
    ensures
        first_newline(text) == end,
{
    lemma_first_newline(text);
}

/// No line holds a line feed or ends with a carriage return.
pub open spec fn plain_lines(lines: Seq<Seq<char>>) -> bool {
    forall|i: int|
        0 <= i < lines.len() ==> !(#[trigger] lines[i]).contains('\n') && (lines[i].len() > 0
            ==> lines[i].last() != '\r')
}

/// Written out, a list of lines starts with its first line and a line
/// feed.
pub proof fn lemma_join_lines_first(lines: Seq<Seq<char>>)
    requires
        lines.len() > 0,
    ensures
        join_lines(lines) == lines[0].push('\n') + join_lines(lines.drop_first()),
    decreases lines.len(),
{
    if lines.len() == 1 {
        assert(lines.drop_last() =~= Seq::<Seq<char>>::empty());
        assert(lines.drop_first() =~= Seq::<Seq<char>>::empty());
        assert(join_lines(lines) =~= lines[0].push('\n') + join_lines(lines.drop_first()));
    } else {
        let front = lines.drop_last();
        lemma_join_lines_first(front);
        assert(front.drop_first() =~= lines.drop_first().drop_last());
        assert(lines.drop_first().last() == lines.last());
        assert(join_lines(lines) =~= lines[0].push('\n') + join_lines(lines.drop_first()));
    }
}

/// Lines that are written out and split again are the same lines,
/// provided that none of them holds a line feed or ends with a carriage
/// return.
pub proof fn lemma_split_of_join(lines: Seq<Seq<char>>)
    requires
        plain_lines(lines),
    ensures
        split_lines(join_lines(lines)) == lines,
    decreases lines.len(),
{
    if lines.len() == 0 {
        assert(split_lines(join_lines(lines)) =~= lines);
    } else {
        let first = lines[0];
        let rest = lines.drop_first();
        let text = join_lines(lines);
        lemma_join_lines_first(lines);
        assert(!first.contains('\n'));
        assert forall|j: int| 0 <= j < first.len() implies text[j] != '\n' by {
            assert(text[j] == first[j]);
            assert(first.contains(first[j]));
        }
        assert(text[first.len() as int] == '\n');
        lemma_first_newline_is(text, first.len() as int);
        assert(text.take(first.len() as int) =~= first);
        assert(text.skip(first.len() as int + 1) =~= join_lines(rest));
        assert forall|i: int| 0 <= i < rest.len() implies !(#[trigger] rest[i]).contains('\n')
            && (rest[i].len() > 0 ==> rest[i].last() != '\r') by {
            assert(rest[i] == lines[i + 1]);
        }
        lemma_split_of_join(rest);
        assert(split_lines(text) =~= lines);
    }
}

/// Splits `text` into its lines.
pub fn lines_of(text: &Vec<char>) -> (lines: Vec<Vec<char>>)
    ensures
        rows_of(lines@) == split_lines(text@),
{
    let mut lines: Vec<Vec<char>> = Vec::new();
    let mut cur: Vec<char> = Vec::new();
    let n = text.len();
    let mut start: usize = 0;
    let mut i: usize = 0;
    proof {
        assert(text@.skip(0) =~= text@);
        assert(rows_of(lines@) =~= Seq::<Seq<char>>::empty());
    }
    while i < n
        invariant
            start <= i <= n,
            n == text@.len(),
            cur@ == text@.subrange(start as int, i as int),
            forall|j: int| start <= j < i ==> text@[j] != '\n',
            split_lines(text@) == rows_of(lines@) + split_lines(text@.skip(start as int)),
        decreases n - i,
    {
        let c = text[i];
        if c == '\n' {
            let ghost rest = text@.skip(start as int);
            proof {
                lemma_first_newline_is(rest, i - start);
                assert(rest.take(i - start) =~= cur@);
                assert(rest.skip(i - start + 1) =~= text@.skip(i + 1));
            }
            if cur.len() > 0 && cur[cur.len() - 1] == '\r' {
                cur.pop();
            }
            let ghost done = rows_of(lines@);
            lines.push(cur);
            proof {
                assert(rows_of(lines@) =~= done + seq![strip_cr(rest.take(i - start))]);
            }
            cur = Vec::new();
            start = i + 1;
            proof {
                assert(text@.subrange(start as int, start as int) =~= cur@);
            }
        } else {
            cur.push(c);
            proof {
                assert(text@.subrange(start as int, i + 1) =~= text@.subrange(
                    start as int,
                    i as int,
                ).push(c));
            }
        }
        i += 1;
    }
    if cur.len() > 0 {
        let ghost rest = text@.skip(start as int);
        let ghost done = rows_of(lines@);
        proof {
            lemma_first_newline_is(rest, n - start);
            assert(rest =~= cur@);
        }
        lines.push(cur);
        proof {
            assert(rows_of(lines@) =~= done + seq![rest]);
        }
    } else {
        proof {
            assert(text@.skip(start as int) =~= Seq::<char>::empty());
            assert(rows_of(lines@) + Seq::<Seq<char>>::empty() =~= rows_of(lines@));
        }
    }
    lines
}

} // verus!
