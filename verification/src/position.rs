//! Resolution of character offsets into 1-based line/column positions.
//!
//! Diagnostics report positions in the original text.  The line number is
//! one more than the number of line feeds strictly before the offset; the
//! column counts characters (not bytes) from the most recent line start.

use vstd::prelude::*;
use vstd::string::StrSliceExecFns;

verus! {

/// Number of `'\n'` characters in `s` strictly before `off`.
pub open spec fn newline_count(s: Seq<char>, off: int) -> int
    decreases off,
{
    if off <= 0 {
        0
    } else {
        newline_count(s, off - 1) + if s[off - 1] == '\n' {
            1int
        } else {
            0int
        }
    }
}

/// Offset of the first character of the line containing `off`.
pub open spec fn line_start(s: Seq<char>, off: int) -> int
    decreases off,
{
    if off <= 0 {
        0
    } else if s[off - 1] == '\n' {
        off
    } else {
        line_start(s, off - 1)
    }
}

/// 1-based line number of `off` within `s`.
pub open spec fn spec_line(s: Seq<char>, off: int) -> int {
    newline_count(s, off) + 1
}

/// 1-based column number of `off` within `s`, counted in characters.
pub open spec fn spec_column(s: Seq<char>, off: int) -> int {
    off - line_start(s, off) + 1
}

/// Resolve a character offset into the 1-based `(line, column)` position
/// used by diagnostics.
pub fn get_position(input: &str, offset: usize) -> (r: (usize, usize))
    requires
        offset <= input@.len(),
        offset < usize::MAX,
    ensures
        r.0 == spec_line(input@, offset as int),
        r.1 == spec_column(input@, offset as int),
{
    let mut line: usize = 1;
    let mut start: usize = 0;
    let mut i: usize = 0;
    while i < offset
        invariant
            i <= offset,
            offset <= input@.len(),
            offset < usize::MAX,
            start <= i,
            line <= i + 1,
            line == newline_count(input@, i as int) + 1,
            start == line_start(input@, i as int),
        decreases offset - i,
    {
        let c = input.get_char(i);
        if c == '\n' {
            line = line + 1;
            start = i + 1;
        }
        i = i + 1;
    }
    (line, offset - start + 1)
}

} // verus!
