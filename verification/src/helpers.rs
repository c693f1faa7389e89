//! Normalization of indented, `|`-marked test content.

use vstd::prelude::*;
use vstd::string::StrSliceExecFns;
use vstd::string::StringExecFns;

verus! {

/// Whether a character has the Unicode whitespace property.
pub uninterp spec fn is_unicode_whitespace(c: char) -> bool;

/// Relies on `char::is_whitespace`: whether the character has the Unicode
/// whitespace property, a function of the character alone.
#[verifier::external_body]
fn char_is_whitespace(c: char) -> (r: bool)
    ensures
        r == is_unicode_whitespace(c),
{
    c.is_whitespace()
}

/// The position of the first occurrence of `c`, or the length when there is
/// none.
pub open spec fn first_at(s: Seq<char>, c: char) -> nat
    decreases s.len(),
{
    if s.len() == 0 {
        0
    } else if s[0] == c {
        0
    } else {
        first_at(s.drop_first(), c) + 1
    }
}

/// A line with a terminating carriage return stripped.
pub open spec fn strip_cr(line: Seq<char>) -> Seq<char> {
    if line.len() > 0 && line.last() == '\r' {
        line.drop_last()
    } else {
        line
    }
}

/// The lines of a text: split at newlines, a carriage return directly before
/// a newline stripped, without a final empty line for a terminating newline.
pub open spec fn split_lines(s: Seq<char>) -> Seq<Seq<char>>
    decreases s.len(),
{
    if s.len() == 0 {
        Seq::empty()
    } else {
        let e = first_at(s, '\n');
        if e < s.len() {
            seq![strip_cr(s.take(e as int))] + split_lines(s.skip(e as int + 1))
        } else {
            seq![s]
        }
    }
}

/// Whether a line holds only whitespace.
pub open spec fn line_blank(line: Seq<char>) -> bool {
    forall|i: int| 0 <= i < line.len() ==> is_unicode_whitespace(#[trigger] line[i])
}

/// The normalized form of a sequence of lines: blank lines are dropped, and
/// every other line is replaced by what follows its first `|` marker, with a
/// newline appended.
pub open spec fn normalize_lines(lines: Seq<Seq<char>>) -> Seq<char>
    decreases lines.len(),
{
    if lines.len() == 0 {
        Seq::empty()
    } else {
        (if line_blank(lines[0]) {
            Seq::empty()
        } else {
            lines[0].skip(first_at(lines[0], '|') as int + 1) + "\n"@
        }) + normalize_lines(lines.drop_first())
    }
}

/// Whether every non-blank line of a text holds a `|` marker.
pub open spec fn normalizable(lines: Seq<Seq<char>>) -> bool {
    forall|i: int|
        0 <= i < lines.len() ==> !line_blank(#[trigger] lines[i]) ==> first_at(lines[i], '|')
            < lines[i].len()
}

/// Find the position of the first occurrence of a character.
fn find_char(s: &str, c: char) -> (r: usize)
    ensures
        r == first_at(s@, c),
        r <= s@.len(),
        r < s@.len() ==> s@[r as int] == c,
    decreases s@.len(),
{
    let n = s.unicode_len();
    let mut i: usize = 0;
    proof {
        assert(s@.skip(0) =~= s@);
    }
    while i < n
        invariant
            i <= n,
            n == s@.len(),
            first_at(s@, c) == i + first_at(s@.skip(i as int), c),
            forall|j: int| 0 <= j < i ==> s@[j] != c,
        decreases n - i,
    {
        let found = s.get_char(i);
        proof {
            assert(s@.skip(i as int)[0] == s@[i as int]);
            assert(s@.skip(i as int).drop_first() =~= s@.skip(i + 1));
        }
        if found == c {
            return i;
        }
        i = i + 1;
    }
    proof {
        assert(s@.skip(n as int).len() == 0);
    }
    n
}

/// Determine whether a line holds only whitespace.
fn line_is_blank(s: &str) -> (r: bool)
    ensures
        r == line_blank(s@),
{
    let n = s.unicode_len();
    let mut i: usize = 0;
    while i < n
        invariant
            i <= n,
            n == s@.len(),
            forall|j: int| 0 <= j < i ==> is_unicode_whitespace(#[trigger] s@[j]),
        decreases n - i,
    {
        let c = s.get_char(i);
        if !char_is_whitespace(c) {
            return false;
        }
        i = i + 1;
    }
    true
}

/// Normalize content for tests and whitespace-sensitive inputs.
///
/// All lines holding only whitespace are removed. Every other line must hold
/// a `|` marker; the output keeps the rest of the line after the marker,
/// terminated by a newline.
pub fn normalize(content: &str) -> (r: String)
    requires
        normalizable(split_lines(content@)),
    ensures
        r@ == normalize_lines(split_lines(content@)),
    decreases content@.len(),
{
    let n = content.unicode_len();
    if n == 0 {
        return String::new();
    }
    let ghost lines = split_lines(content@);
    let e = find_char(content, '\n');
    let line = if e < n {
        let whole = content.substring_char(0, e);
        proof {
            assert(whole@ =~= content@.take(e as int));
        }
        strip_line_cr(whole)
    } else {
        let whole = content.substring_char(0, n);
        proof {
            assert(whole@ =~= content@);
        }
        whole
    };
    proof {
        if e < n {
            assert(lines[0] == strip_cr(content@.take(e as int)));
        } else {
            assert(lines =~= seq![content@]);
        }
        assert(line@ == lines[0]);
    }
    let mut out: String = if line_is_blank(line) {
        String::new()
    } else {
        proof {
            assert(lines[0] == line@);
        }
        let b = find_char(line, '|');
        let after = line.substring_char(b + 1, line.unicode_len());
        let mut s = after.to_owned();
        s.append("\n");
        proof {
            assert(after@ =~= lines[0].skip(first_at(lines[0], '|') as int + 1));
            assert(s@ =~= lines[0].skip(first_at(lines[0], '|') as int + 1) + "\n"@);
        }
        s
    };
    if e < n {
        let rest = content.substring_char(e + 1, n);
        proof {
            assert(rest@ =~= content@.skip(e + 1));
            let sub = split_lines(rest@);
            assert(lines == seq![strip_cr(content@.take(e as int))] + sub);
            assert forall|i: int| 0 <= i < sub.len() implies (!line_blank(#[trigger] sub[i])
                ==> first_at(sub[i], '|') < sub[i].len()) by {
                assert(sub[i] == lines[i + 1]);
            }
        }
        let tail = normalize(rest);
        let ghost head_part = out@;
        out.append(tail.as_str());
        proof {
            assert(lines.drop_first() =~= split_lines(rest@));
            assert(normalize_lines(lines) == head_part + normalize_lines(lines.drop_first()));
        }
    } else {
        proof {
            assert(lines.drop_first() =~= Seq::<Seq<char>>::empty());
            assert(normalize_lines(lines.drop_first()) == Seq::<char>::empty());
            assert(out@ =~= normalize_lines(lines));
        }
    }
    out
}

/// Determine whether every non-blank line of a text holds a `|` marker.
fn content_normalizable(content: &str) -> (r: bool)
    ensures
        r == normalizable(split_lines(content@)),
    decreases content@.len(),
{
    let n = content.unicode_len();
    if n == 0 {
        proof {
            assert(split_lines(content@) =~= Seq::<Seq<char>>::empty());
        }
        return true;
    }
    let ghost lines = split_lines(content@);
    let e = find_char(content, '\n');
    let line = if e < n {
        let whole = content.substring_char(0, e);
        proof {
            assert(whole@ =~= content@.take(e as int));
        }
        strip_line_cr(whole)
    } else {
        let whole = content.substring_char(0, n);
        proof {
            assert(whole@ =~= content@);
        }
        whole
    };
    proof {
        if e < n {
            assert(lines[0] == strip_cr(content@.take(e as int)));
        } else {
            assert(lines =~= seq![content@]);
        }
        assert(line@ == lines[0]);
    }
    let head_ok = line_is_blank(line) || find_char(line, '|') < line.unicode_len();
    if !head_ok {
        proof {
            assert(!line_blank(lines[0]) && first_at(lines[0], '|') >= lines[0].len());
        }
        return false;
    }
    if e < n {
        let rest = content.substring_char(e + 1, n);
        proof {
            assert(rest@ =~= content@.skip(e + 1));
            assert(lines == seq![strip_cr(content@.take(e as int))] + split_lines(
                content@.skip(e + 1),
            ));
        }
        let rest_ok = content_normalizable(rest);
        proof {
            let sub = split_lines(rest@);
            if rest_ok {
                assert forall|i: int| 0 <= i < lines.len() implies (!line_blank(
                    #[trigger] lines[i],
                ) ==> first_at(lines[i], '|') < lines[i].len()) by {
                    if i > 0 {
                        assert(lines[i] == sub[i - 1]);
                    }
                }
            } else {
                let i = choose|i: int|
                    0 <= i < sub.len() && !line_blank(#[trigger] sub[i]) && first_at(sub[i], '|')
                        >= sub[i].len();
                assert(lines[i + 1] == sub[i]);
                assert(!line_blank(lines[i + 1]) && first_at(lines[i + 1], '|') >= lines[i
                    + 1].len());
            }
        }
        rest_ok
    } else {
        proof {
            assert forall|i: int| 0 <= i < lines.len() implies (!line_blank(#[trigger] lines[i])
                ==> first_at(lines[i], '|') < lines[i].len()) by {
                assert(lines[i] == lines[0]);
            }
        }
        true
    }
}

/// Normalize content when it is well formed for [`normalize`]: every line
/// holding more than whitespace carries a `|` marker.
///
/// Returns the normalized text, or nothing when some non-blank line has no
/// marker.
pub fn try_normalize(content: &str) -> (r: Option<String>)
    ensures
        match r {
            Some(s) => normalizable(split_lines(content@)) && s@ == normalize_lines(
                split_lines(content@),
            ),
            None => !normalizable(split_lines(content@)),
        },
{
    if content_normalizable(content) {
        Some(normalize(content))
    } else {
        None
    }
}

/// Strip a terminating carriage return from a line.
fn strip_line_cr(line: &str) -> (r: &str)
    ensures
        r@ == strip_cr(line@),
{
    let n = line.unicode_len();
    if n > 0 && line.get_char(n - 1) == '\r' {
        let r = line.substring_char(0, n - 1);
        proof {
            assert(line@.subrange(0, n - 1) =~= line@.drop_last());
        }
        r
    } else {
        line
    }
}

} // verus!
