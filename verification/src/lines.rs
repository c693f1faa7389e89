//! Byte-level line arithmetic over UTF-8 content.
//!
//! A position's enclosing line starts right after the nearest preceding
//! newline byte (or at the start of the content) and ends at the nearest
//! following newline byte (or at the end of the content). Line numbers count
//! newlines strictly before the position; columns count bytes from the line
//! start. Both are 1-based.

use vstd::prelude::*;
use vstd::utf8::is_char_boundary;
use vstd::utf8::is_continuation_byte;
use vstd::utf8::is_leading_byte_width_1;
use vstd::utf8::length_of_first_scalar;
use vstd::utf8::pop_first_scalar;
use vstd::utf8::valid_utf8;

verus! {

/// The byte value of a line feed.
pub const NEWLINE: u8 = 10;

/// The start of the line enclosing position `p`: either 0, or the position
/// right after the nearest newline before `p`.
pub open spec fn line_start(bytes: Seq<u8>, p: int) -> int
    decreases p,
{
    if p <= 0 {
        0
    } else if bytes[p - 1] == NEWLINE {
        p
    } else {
        line_start(bytes, p - 1)
    }
}

/// The end of the line enclosing position `p`: either the position of the
/// nearest newline at or after `p`, or the length of the content.
pub open spec fn line_end(bytes: Seq<u8>, p: int) -> int
    decreases bytes.len() - p,
{
    if p < 0 || p >= bytes.len() {
        bytes.len() as int
    } else if bytes[p] == NEWLINE {
        p
    } else {
        line_end(bytes, p + 1)
    }
}

/// The number of newline bytes strictly before position `p`.
pub open spec fn newline_count(bytes: Seq<u8>, p: int) -> nat
    decreases p,
{
    if p <= 0 {
        0
    } else {
        newline_count(bytes, p - 1) + if bytes[p - 1] == NEWLINE {
            1nat
        } else {
            0nat
        }
    }
}

/// The 1-based line number of position `p`.
pub open spec fn line_number_at(bytes: Seq<u8>, p: int) -> nat {
    newline_count(bytes, p) + 1
}

/// The 1-based byte column of position `p` on its line.
pub open spec fn column_number_at(bytes: Seq<u8>, p: int) -> int {
    p - line_start(bytes, p) + 1
}

/// The line start lies between 0 and `p`, and is preceded by a newline
/// whenever it is not the start of the content.
pub proof fn lemma_line_start_props(bytes: Seq<u8>, p: int)
    requires
        0 <= p,
    ensures
        0 <= line_start(bytes, p) <= p,
        line_start(bytes, p) > 0 ==> bytes[line_start(bytes, p) - 1] == NEWLINE,
    decreases p,
{
    if p > 0 && bytes[p - 1] != NEWLINE {
        lemma_line_start_props(bytes, p - 1);
    }
}

/// The line end lies between `p` and the length of the content, and holds a
/// newline whenever it is not the end of the content.
pub proof fn lemma_line_end_props(bytes: Seq<u8>, p: int)
    requires
        0 <= p <= bytes.len(),
    ensures
        p <= line_end(bytes, p) <= bytes.len(),
        line_end(bytes, p) < bytes.len() ==> bytes[line_end(bytes, p)] == NEWLINE,
    decreases bytes.len() - p,
{
    if p < bytes.len() && bytes[p] != NEWLINE {
        lemma_line_end_props(bytes, p + 1);
    }
}

/// The number of newlines before a position is bounded by the position.
pub proof fn lemma_newline_count_le(bytes: Seq<u8>, p: int)
    ensures
        newline_count(bytes, p) <= if p >= 0 {
            p
        } else {
            0
        },
    decreases p,
{
    if p > 0 {
        lemma_newline_count_le(bytes, p - 1);
    }
}

/// In valid UTF-8, the position directly after an ASCII byte is a character
/// boundary.
pub proof fn lemma_boundary_after_ascii(bytes: Seq<u8>, i: int)
    requires
        valid_utf8(bytes),
        0 < i <= bytes.len(),
        bytes[i - 1] < 0x80,
    ensures
        is_char_boundary(bytes, i),
    decreases bytes.len(),
{
    let len1 = length_of_first_scalar(bytes);
    assert(1 <= len1 <= 4);
    if i < len1 {
        if i - 1 == 0 {
            assert(is_leading_byte_width_1(bytes[0]));
            assert(len1 == 1);
        } else {
            assert(is_continuation_byte(bytes[i - 1]));
        }
    } else if i == len1 {
        let rest = pop_first_scalar(bytes);
        assert(valid_utf8(rest));
        assert(is_char_boundary(rest, 0));
    } else {
        let rest = pop_first_scalar(bytes);
        assert(rest[i - len1 - 1] == bytes[i - 1]);
        lemma_boundary_after_ascii(rest, i - len1);
    }
}

/// In valid UTF-8, the position of a newline byte is a character boundary.
pub proof fn lemma_boundary_at_newline(bytes: Seq<u8>, i: int)
    requires
        valid_utf8(bytes),
        0 <= i < bytes.len(),
        bytes[i] == NEWLINE,
    ensures
        is_char_boundary(bytes, i),
{
    vstd::utf8::is_char_boundary_iff_not_is_continuation_byte(bytes, i);
}

/// In valid UTF-8, the start of a line is a character boundary.
pub proof fn lemma_line_start_boundary(bytes: Seq<u8>, p: int)
    requires
        valid_utf8(bytes),
        0 <= p <= bytes.len(),
    ensures
        is_char_boundary(bytes, line_start(bytes, p)),
{
    lemma_line_start_props(bytes, p);
    let s = line_start(bytes, p);
    if s > 0 {
        lemma_boundary_after_ascii(bytes, s);
    }
}

/// In valid UTF-8, the end of a line is a character boundary.
pub proof fn lemma_line_end_boundary(bytes: Seq<u8>, p: int)
    requires
        valid_utf8(bytes),
        0 <= p <= bytes.len(),
    ensures
        is_char_boundary(bytes, line_end(bytes, p)),
{
    lemma_line_end_props(bytes, p);
    let e = line_end(bytes, p);
    if e < bytes.len() {
        lemma_boundary_at_newline(bytes, e);
    } else {
        vstd::utf8::is_char_boundary_start_end_of_seq(bytes);
    }
}

/// A character boundary of a sequence is still a boundary inside the suffix
/// cut off at an earlier boundary.
pub proof fn lemma_boundary_in_suffix(bytes: Seq<u8>, s: int, e: int)
    requires
        valid_utf8(bytes),
        is_char_boundary(bytes, s),
        is_char_boundary(bytes, e),
        0 <= s <= e <= bytes.len(),
    ensures
        valid_utf8(bytes.subrange(s, bytes.len() as int)),
        is_char_boundary(bytes.subrange(s, bytes.len() as int), e - s),
{
    vstd::utf8::valid_utf8_split(bytes, s);
    let suf = bytes.subrange(s, bytes.len() as int);
    if e == bytes.len() {
        vstd::utf8::is_char_boundary_start_end_of_seq(suf);
    } else if e == s {
        vstd::utf8::is_char_boundary_start_end_of_seq(suf);
    } else {
        vstd::utf8::is_char_boundary_iff_not_is_continuation_byte(bytes, e);
        assert(suf[e - s] == bytes[e]);
        vstd::utf8::is_char_boundary_iff_not_is_continuation_byte(suf, e - s);
    }
}

/// A character boundary of a sequence is still a boundary inside the prefix
/// cut off at a later boundary.
pub proof fn lemma_boundary_in_prefix(bytes: Seq<u8>, s: int, e: int)
    requires
        valid_utf8(bytes),
        is_char_boundary(bytes, s),
        is_char_boundary(bytes, e),
        0 <= s <= e <= bytes.len(),
    ensures
        valid_utf8(bytes.subrange(0, e)),
        is_char_boundary(bytes.subrange(0, e), s),
{
    vstd::utf8::valid_utf8_split(bytes, e);
    let pre = bytes.subrange(0, e);
    if s == 0 || s == e {
        vstd::utf8::is_char_boundary_start_end_of_seq(pre);
    } else {
        vstd::utf8::is_char_boundary_iff_not_is_continuation_byte(bytes, s);
        assert(pre[s] == bytes[s]);
        vstd::utf8::is_char_boundary_iff_not_is_continuation_byte(pre, s);
    }
}

/// Find the start of the line enclosing position `p`.
pub fn find_line_start(bytes: &[u8], p: usize) -> (r: usize)
    requires
        p <= bytes@.len(),
    ensures
        r == line_start(bytes@, p as int),
{
    let mut i = p;
    while i > 0
        invariant
            i <= p <= bytes@.len(),
            line_start(bytes@, p as int) == line_start(bytes@, i as int),
        decreases i,
    {
        if bytes[i - 1] == NEWLINE {
            return i;
        }
        i = i - 1;
    }
    0
}

/// Find the end of the line enclosing position `p`.
pub fn find_line_end(bytes: &[u8], p: usize) -> (r: usize)
    requires
        p <= bytes@.len(),
    ensures
        r == line_end(bytes@, p as int),
{
    let mut i = p;
    while i < bytes.len()
        invariant
            p <= i <= bytes@.len(),
            line_end(bytes@, p as int) == line_end(bytes@, i as int),
        decreases bytes@.len() - i,
    {
        if bytes[i] == NEWLINE {
            return i;
        }
        i = i + 1;
    }
    bytes.len()
}

/// Count the newline bytes strictly before position `p`.
pub fn count_newlines(bytes: &[u8], p: usize) -> (r: usize)
    requires
        p <= bytes@.len(),
    ensures
        r == newline_count(bytes@, p as int),
{
    let mut count: usize = 0;
    let mut i: usize = 0;
    while i < p
        invariant
            i <= p <= bytes@.len(),
            count == newline_count(bytes@, i as int),
            count <= i,
        decreases p - i,
    {
        if bytes[i] == NEWLINE {
            count = count + 1;
        }
        i = i + 1;
    }
    count
}

} // verus!
