//! What the terminal tells about its size, read from plain values: the
//! answer to a window-size query, and the cursor position report
//! `ESC [ rows ; cols R` that stands in for it.

use crate::text::{find_first, first_occurrence, lemma_first_occurrence_from, push_range};
use vstd::prelude::*;

verus! {

/// Why a cursor position report was not understood.
#[derive(PartialEq, Eq, Clone, Copy, Debug, Structural)]
pub enum CursorReportError {
    /// The report does not have the shape of a cursor position report.
    InvalidEscapeSequence,
    /// The report has the shape, but rows or columns are no number.
    BadNumber,
}

impl CursorReportError {
    /// The error in words.
    pub fn message(&self) -> (text: &'static str)
        ensures
            text@ == match self {
                CursorReportError::InvalidEscapeSequence => "invalid escape sequence"@,
                CursorReportError::BadNumber => "failed to parse rows or cols"@,
            },
    {
        match self {
            CursorReportError::InvalidEscapeSequence => "invalid escape sequence",
            CursorReportError::BadNumber => "failed to parse rows or cols",
        }
    }
}

/// The character is a decimal digit.
pub open spec fn is_digit(c: char) -> bool {
    0x30 <= (c as u32) <= 0x39
}

/// Every character is a decimal digit.
pub open spec fn all_digits(s: Seq<char>) -> bool {
    forall|i: int| 0 <= i < s.len() ==> is_digit(#[trigger] s[i])
}

/// The number that the digits `s` write.
pub open spec fn digits_value(s: Seq<char>) -> int
    decreases s.len(),
{
    if s.len() == 0 {
        0
    } else {
        digits_value(s.drop_last()) * 10 + ((s.last() as u32) - 0x30)
    }
}

/// The number that `s` writes: one or more decimal digits, with or
/// without a plus sign before them, that give a number which fits the
/// machine word.
pub open spec fn number_of(s: Seq<char>) -> Option<int> {
    let digits = if s.len() > 0 && s[0] == '+' {
        s.drop_first()
    } else {
        s
    };
    if digits.len() > 0 && all_digits(digits) && digits_value(digits) <= usize::MAX {
        Some(digits_value(digits))
    } else {
        None
    }
}

/// What a cursor position report says. The report starts with an escape
/// character or a bracket and ends with `R`; what stands between its
/// second character and the `R` is rows and columns with the first
/// semicolon between them.
pub open spec fn cursor_report(report: Seq<char>) -> Result<(int, int), CursorReportError> {
    let n = report.len() as int;
    if n >= 3 && (report[0] == '\u{1b}' || report[0] == '[') && report[n - 1] == 'R' {
        let middle = report.subrange(2, n - 1);
        match first_occurrence(middle, seq![';']) {
            Some(at) => match (number_of(middle.take(at)), number_of(middle.skip(at + 1))) {
                (Some(rows), Some(cols)) => Ok((rows, cols)),
                _ => Err(CursorReportError::BadNumber),
            },
            None => Err(CursorReportError::InvalidEscapeSequence),
        }
    } else {
        Err(CursorReportError::InvalidEscapeSequence)
    }
}

/// The size that a window-size query gave: rows and columns if the query
/// succeeded and counted at least one column; nothing otherwise, and the
/// size is then to be had from a cursor position report.
pub open spec fn size_from_query(status: int, rows: u16, cols: u16) -> Option<(int, int)> {
    if status == -1 || cols == 0 {
        None
    } else {
        Some((rows as int, cols as int))
    }
}

/// A number written with more digits is no smaller.
pub proof fn lemma_digits_value_prefix(s: Seq<char>, k: int)
    requires
        all_digits(s),
        0 <= k <= s.len(),
    ensures
        0 <= digits_value(s.take(k)) <= digits_value(s),
    decreases s.len() - k,
{
    if k == s.len() {
        assert(s.take(k) =~= s);
        lemma_digits_value_nonnegative(s);
    } else {
        let shorter = s.drop_last();
        assert(shorter.take(k) =~= s.take(k));
        assert(is_digit(s.last()));
        assert forall|i: int| 0 <= i < shorter.len() implies is_digit(#[trigger] shorter[i]) by {
            assert(shorter[i] == s[i]);
        }
        lemma_digits_value_prefix(shorter, k);
    }
}

proof fn lemma_digits_value_nonnegative(s: Seq<char>)
    requires
        all_digits(s),
    ensures
        0 <= digits_value(s),
    decreases s.len(),
{
    if s.len() > 0 {
        let shorter = s.drop_last();
        assert(is_digit(s.last()));
        assert forall|i: int| 0 <= i < shorter.len() implies is_digit(#[trigger] shorter[i]) by {
            assert(shorter[i] == s[i]);
        }
        lemma_digits_value_nonnegative(shorter);
    }
}

fn parse_number(chars: &Vec<char>, from: usize, to: usize) -> (r: Option<usize>)
    requires
        from <= to <= chars@.len(),
    ensures
        match r {
            Some(v) => number_of(chars@.subrange(from as int, to as int)) == Some(v as int),
            None => number_of(chars@.subrange(from as int, to as int)) is None,
        },
{
    let ghost s = chars@.subrange(from as int, to as int);
    let mut i: usize = from;
    if i < to && chars[i] == '+' {
        i += 1;
    }
    let start = i;
    let ghost digits = chars@.subrange(start as int, to as int);
    proof {
        if start > from {
            assert(s.drop_first() =~= digits);
        } else {
            assert(s =~= digits);
        }
    }
    if i == to {
        return None;
    }
    let mut value: usize = 0;
    while i < to
        invariant
            from <= start <= i <= to <= chars@.len(),
            digits == chars@.subrange(start as int, to as int),
            number_of(chars@.subrange(from as int, to as int)) == if digits.len() > 0
                && all_digits(digits) && digits_value(digits) <= usize::MAX {
                Some(digits_value(digits))
            } else {
                None
            },
            all_digits(digits.take(i - start)),
            value == digits_value(digits.take(i - start)),
        decreases to - i,
    {
        let code: u32 = chars[i] as u32;
        if code < 0x30 || code > 0x39 {
            proof {
                assert(!is_digit(digits[i - start]));
            }
            return None;
        }
        let d: usize = (code - 0x30) as usize;
        proof {
            let longer = digits.take(i - start + 1);
            assert(longer.drop_last() =~= digits.take(i - start));
            assert(longer.last() == chars@[i as int]);
            assert(digits_value(longer) == value * 10 + d);
            assert forall|j: int| 0 <= j < longer.len() implies is_digit(#[trigger] longer[j]) by {
                if j < i - start {
                    assert(longer[j] == digits.take(i - start)[j]);
                }
            }
            if all_digits(digits) {
                lemma_digits_value_prefix(digits, i - start + 1);
            }
        }
        match value.checked_mul(10) {
            Some(tens) => match tens.checked_add(d) {
                Some(next) => {
                    value = next;
                },
                None => {
                    return None;
                },
            },
            None => {
                return None;
            },
        }
        i += 1;
    }
    proof {
        assert(digits.take(to - start) =~= digits);
    }
    Some(value)
}

/// Reads rows and columns from a cursor position report.
pub fn parse_cursor_position(report: &Vec<char>) -> (r: Result<(usize, usize), CursorReportError>)
    ensures
        match r {
            Ok((rows, cols)) => cursor_report(report@) == Ok::<(int, int), CursorReportError>(
                (rows as int, cols as int),
            ),
            Err(e) => cursor_report(report@) == Err::<(int, int), CursorReportError>(e),
        },
{
    let n = report.len();
    if n < 3 {
        return Err(CursorReportError::InvalidEscapeSequence);
    }
    let first = report[0];
    if !(first == '\u{1b}' || first == '[') || report[n - 1] != 'R' {
        return Err(CursorReportError::InvalidEscapeSequence);
    }
    let mut middle: Vec<char> = Vec::new();
    push_range(&mut middle, report, 2, n - 1);
    assert(middle@ =~= report@.subrange(2, n - 1));
    let mut semicolon: Vec<char> = Vec::new();
    semicolon.push(';');
    assert(semicolon@ =~= seq![';']);
    match find_first(&middle, &semicolon) {
        Some(at) => {
            proof {
                lemma_first_occurrence_from(middle@, semicolon@, 0);
                assert(middle@.subrange(0, at as int) =~= middle@.take(at as int));
                assert(middle@.subrange(at + 1, middle@.len() as int) =~= middle@.skip(at + 1));
            }
            let rows = parse_number(&middle, 0, at);
            let cols = parse_number(&middle, at + 1, middle.len());
            match (rows, cols) {
                (Some(rows), Some(cols)) => Ok((rows, cols)),
                _ => Err(CursorReportError::BadNumber),
            }
        },
        None => Err(CursorReportError::InvalidEscapeSequence),
    }
}

/// Reads the size of the window from the outcome of a window-size query:
/// the status that the query returned and the rows and columns it filled
/// in.
pub fn window_size_from(status: i32, rows: u16, cols: u16) -> (r: Option<(usize, usize)>)
    ensures
        match r {
            Some((r_rows, r_cols)) => size_from_query(status as int, rows, cols) == Some(
                (r_rows as int, r_cols as int),
            ),
            None => size_from_query(status as int, rows, cols) is None,
        },
{
    if status == -1 || cols == 0 {
        None
    } else {
        Some((rows as usize, cols as usize))
    }
}

} // verus!
