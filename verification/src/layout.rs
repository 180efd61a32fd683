//! The layout parser: comments, blank-line runs, end-of-line units and
//! two-space indentation.
//!
//! A blank run greedily consumes consecutive end-of-line units (horizontal
//! whitespace, an optional comment, then a line break or end of input) and
//! stops at the first line holding other content.  Indentation at level
//! `L` is exactly `L` repetitions of two spaces.

use vstd::prelude::*;
use vstd::string::StrSliceExecFns;

verus! {

/// Whether an optional-position result agrees with its specification.
pub open spec fn pos_option_matches(r: Option<usize>, m: Option<int>) -> bool {
    match (r, m) {
        (Some(a), Some(b)) => a as int == b,
        (None, None) => true,
        _ => false,
    }
}

/// Horizontal whitespace.
pub open spec fn is_space(c: char) -> bool {
    c == ' ' || c == '\t'
}

/// First position at or after `i` holding no horizontal whitespace.
pub open spec fn skip_spaces(s: Seq<char>, i: int) -> int
    decreases s.len() - i,
{
    if 0 <= i < s.len() && is_space(s[i]) {
        skip_spaces(s, i + 1)
    } else {
        i
    }
}

/// First position at or after `i` holding a carriage return or line feed.
pub open spec fn line_text_end(s: Seq<char>, i: int) -> int
    decreases s.len() - i,
{
    if 0 <= i < s.len() && s[i] != '\r' && s[i] != '\n' {
        line_text_end(s, i + 1)
    } else {
        i
    }
}

/// Specification of a comment: horizontal whitespace, `#`, then at least
/// one character before the line break.
pub open spec fn spec_comment(s: Seq<char>, i: int) -> Option<int> {
    let j = skip_spaces(s, i);
    if j < s.len() && s[j] == '#' {
        let k = line_text_end(s, j + 1);
        if k > j + 1 {
            Some(k)
        } else {
            None
        }
    } else {
        None
    }
}

/// A line break: a line feed, or a carriage return followed by a line
/// feed.
pub open spec fn spec_line_break(s: Seq<char>, i: int) -> Option<int> {
    if 0 <= i < s.len() && s[i] == '\n' {
        Some(i + 1)
    } else if 0 <= i && i + 1 < s.len() && s[i] == '\r' && s[i + 1] == '\n' {
        Some(i + 2)
    } else {
        None
    }
}

/// Position where one end-of-line unit starting at `i` expects its line
/// break: after horizontal whitespace and an optional comment.
pub open spec fn eol_unit_break_pos(s: Seq<char>, i: int) -> int {
    let j = skip_spaces(s, i);
    match spec_comment(s, j) {
        Some(k) => k,
        None => j,
    }
}

/// Specification of one end-of-line unit: horizontal whitespace, an
/// optional comment, then end of input or a line break.
pub open spec fn spec_eol_unit(s: Seq<char>, i: int) -> Option<int> {
    let k = eol_unit_break_pos(s, i);
    if k == s.len() {
        Some(k)
    } else {
        spec_line_break(s, k)
    }
}

/// Greedy run of further end-of-line units after a first one.
pub open spec fn blank_run_more(s: Seq<char>, i: int) -> int
    decreases s.len() - i,
{
    if 0 <= i < s.len() {
        match spec_eol_unit(s, i) {
            Some(j) => if i < j <= s.len() {
                blank_run_more(s, j)
            } else {
                i
            },
            None => i,
        }
    } else {
        i
    }
}

/// Specification of a blank run: one or more end-of-line units, stopping
/// at the first line with other content or at end of input.
pub open spec fn spec_blank_run(s: Seq<char>, i: int) -> Option<int> {
    match spec_eol_unit(s, i) {
        None => None,
        Some(j) => Some(blank_run_more(s, j)),
    }
}

/// Specification of indentation at level `lvl`: exactly `lvl` repetitions
/// of two spaces.
pub open spec fn spec_indent(s: Seq<char>, i: int, lvl: nat) -> Option<int>
    decreases lvl,
{
    if lvl == 0 {
        Some(i)
    } else if 0 <= i && i + 2 <= s.len() && s[i] == ' ' && s[i + 1] == ' ' {
        spec_indent(s, i + 2, (lvl - 1) as nat)
    } else {
        None
    }
}

/// Scan past horizontal whitespace.
pub(crate) fn spaces_scan(input: &str, pos: usize) -> (j: usize)
    requires
        pos <= input@.len(),
    ensures
        j == skip_spaces(input@, pos as int),
        pos <= j <= input@.len(),
        j < input@.len() ==> !is_space(input@[j as int]),
{
    let n = input.unicode_len();
    let mut i = pos;
    while i < n
        invariant
            pos <= i <= n,
            n == input@.len(),
            skip_spaces(input@, pos as int) == skip_spaces(input@, i as int),
        decreases n - i,
    {
        let c = input.get_char(i);
        if !(c == ' ' || c == '\t') {
            return i;
        }
        i = i + 1;
    }
    i
}

/// Scan to the end of the current line's text.
fn text_scan(input: &str, pos: usize) -> (k: usize)
    requires
        pos <= input@.len(),
    ensures
        k == line_text_end(input@, pos as int),
        pos <= k <= input@.len(),
{
    let n = input.unicode_len();
    let mut i = pos;
    while i < n
        invariant
            pos <= i <= n,
            n == input@.len(),
            line_text_end(input@, pos as int) == line_text_end(input@, i as int),
        decreases n - i,
    {
        let c = input.get_char(i);
        if c == '\r' || c == '\n' {
            return i;
        }
        i = i + 1;
    }
    i
}

/// Parse a comment: horizontal whitespace, `#`, then the rest of the
/// line (which must be nonempty).
fn comment(input: &str, pos: usize) -> (r: Option<usize>)
    requires
        pos <= input@.len(),
    ensures
        pos_option_matches(r, spec_comment(input@, pos as int)),
        r matches Some(k) ==> pos < k <= input@.len(),
{
    let n = input.unicode_len();
    let j = spaces_scan(input, pos);
    if j < n && input.get_char(j) == '#' {
        let k = text_scan(input, j + 1);
        if k > j + 1 {
            Some(k)
        } else {
            None
        }
    } else {
        None
    }
}

/// Position where the current end-of-line unit expects its line break;
/// reported when a committed grammar branch demanded an end of line.
pub(crate) fn eol_break_scan(input: &str, pos: usize) -> (k: usize)
    requires
        pos <= input@.len(),
    ensures
        k == eol_unit_break_pos(input@, pos as int),
        pos <= k <= input@.len(),
{
    let j = spaces_scan(input, pos);
    match comment(input, j) {
        Some(k) => k,
        None => j,
    }
}

/// Parse one end-of-line unit.
fn eol_unit(input: &str, pos: usize) -> (r: Option<usize>)
    requires
        pos <= input@.len(),
    ensures
        pos_option_matches(r, spec_eol_unit(input@, pos as int)),
        r matches Some(j) ==> pos <= j <= input@.len(),
        pos < input@.len() ==> (r matches Some(j) ==> pos < j),
{
    let n = input.unicode_len();
    let k = eol_break_scan(input, pos);
    if k == n {
        Some(k)
    } else if input.get_char(k) == '\n' {
        Some(k + 1)
    } else if k + 1 < n && input.get_char(k) == '\r' && input.get_char(k + 1) == '\n' {
        Some(k + 2)
    } else {
        None
    }
}

/// Greedy continuation of a blank run.
fn blank_more(input: &str, pos: usize) -> (r: usize)
    requires
        pos <= input@.len(),
    ensures
        r == blank_run_more(input@, pos as int),
        pos <= r <= input@.len(),
    decreases input@.len() - pos,
{
    let n = input.unicode_len();
    if pos < n {
        match eol_unit(input, pos) {
            Some(j) => blank_more(input, j),
            None => pos,
        }
    } else {
        pos
    }
}

/// Parse one or more blank lines: end-of-line units up to the first line
/// holding non-blank, non-comment content, or end of input.
pub fn yarn_line_ending(input: &str, pos: usize) -> (r: Option<usize>)
    requires
        pos <= input@.len(),
    ensures
        pos_option_matches(r, spec_blank_run(input@, pos as int)),
        r matches Some(j) ==> pos <= j <= input@.len(),
{
    match eol_unit(input, pos) {
        None => None,
        Some(j) => Some(blank_more(input, j)),
    }
}

/// Parse indentation: exactly `indentation` pairs of spaces.
pub fn yarn_indent(input: &str, pos: usize, indentation: usize) -> (r: Option<usize>)
    requires
        pos <= input@.len(),
    ensures
        pos_option_matches(r, spec_indent(input@, pos as int, indentation as nat)),
        r matches Some(j) ==> pos <= j <= input@.len(),
        r matches Some(j) ==> j as int == pos + 2 * (indentation as int),
{
    let n = input.unicode_len();
    let mut i = pos;
    let mut rem = indentation;
    while rem > 0
        invariant
            pos <= i <= n,
            n == input@.len(),
            rem <= indentation,
            i as int == pos + 2 * (indentation - rem) as int,
            spec_indent(input@, pos as int, indentation as nat) == spec_indent(
                input@,
                i as int,
                rem as nat,
            ),
        decreases rem,
    {
        if n - i >= 2 && input.get_char(i) == ' ' && input.get_char(i + 1) == ' ' {
            i = i + 2;
            rem = rem - 1;
        } else {
            return None;
        }
    }
    Some(i)
}

} // verus!
