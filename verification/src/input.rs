//! Byte positions, byte ranges, and the persistent traversal cursor.

use vstd::prelude::*;
use vstd::utf8::encode_utf8;
use vstd::utf8::encode_utf8_decode_utf8;
use vstd::utf8::encode_utf8_valid_utf8;
use vstd::utf8::decode_utf8;
use vstd::utf8::is_char_boundary;
use vstd::utf8::is_continuation_byte;
use vstd::utf8::is_leading_byte_width_1;
use vstd::utf8::is_leading_byte_width_2;
use vstd::utf8::is_leading_byte_width_3;
use vstd::utf8::is_leading_byte_width_4;
use vstd::utf8::length_of_first_scalar;
use vstd::utf8::pop_first_scalar;
use vstd::utf8::valid_utf8;
use vstd::utf8::valid_utf8_split;
use vstd::string::StrSliceExecFns;
use vstd::string::StringSliceAdditionalSpecFns;

use crate::error::SourceError;
use crate::map::SourceIndex;

verus! {

broadcast use vstd::slice::axiom_spec_len;

/// A position in a [`SourceMap`](crate::SourceMap) entry, counted in bytes.
#[derive(Debug, Clone, Copy, PartialEq, Eq, Structural, PartialOrd, Ord, Hash)]
pub struct Offset {
    source_index: SourceIndex,
    byte: usize,
}

impl Offset {
    /// The index of the map entry this offset points into.
    pub closed spec fn spec_source_index(self) -> SourceIndex {
        self.source_index
    }

    /// The byte position of this offset.
    pub closed spec fn spec_byte(self) -> int {
        self.byte as int
    }

    /// The span covering the bytes between two offsets, in either order.
    pub closed spec fn spec_span(self, other: Self) -> Span {
        if self.byte <= other.byte {
            Span { offset: self, byte_len: (other.byte - self.byte) as usize }
        } else {
            Span { offset: other, byte_len: (self.byte - other.byte) as usize }
        }
    }

    pub(crate) fn new(source_index: SourceIndex, byte: usize) -> (r: Self)
        ensures
            r.spec_source_index() == source_index,
            r.spec_byte() == byte,
    {
        Offset { source_index, byte }
    }

    /// The [`SourceIndex`] of the map entry this offset is associated with.
    pub fn source_index(&self) -> (r: SourceIndex)
        ensures
            r == self.spec_source_index(),
    {
        self.source_index
    }

    /// The actual byte position of the offset.
    pub fn byte(&self) -> (r: usize)
        ensures
            r == self.spec_byte(),
    {
        self.byte
    }

    /// Determine if this offset is at the start of the content.
    pub fn is_at_start(&self) -> (r: bool)
        ensures
            r == (self.spec_byte() == 0),
    {
        self.byte == 0
    }

    /// Construct a [`SourceError`] anchored at this offset.
    pub fn error<E>(&self, error: E, offset_note: &'static str) -> (r: SourceError<E>)
        ensures
            r@.error == error,
            r@.offset == *self,
            r@.note == offset_note@,
            r@.context_offset is None,
    {
        SourceError::new(error, *self, offset_note)
    }

    /// Construct a [`Span`] from one offset to another.
    ///
    /// Both offsets must point into the same entry of the same map. The
    /// ordering of the two offsets does not matter: the span always starts at
    /// the smaller position.
    pub fn span(&self, other: Self) -> (r: Span)
        requires
            self.spec_source_index() == other.spec_source_index(),
        ensures
            r == self.spec_span(other),
    {
        let mut a = self.byte;
        let mut b = other.byte;
        if b < a {
            let t = a;
            a = b;
            b = t;
        }
        Span { offset: Offset { source_index: self.source_index, byte: a }, byte_len: b - a }
    }
}

/// Byte positions are never negative.
pub broadcast proof fn offset_byte_nonneg(o: Offset)
    ensures
        #[trigger] o.spec_byte() >= 0,
{
}

/// Span lengths are never negative.
pub broadcast proof fn span_byte_len_nonneg(s: Span)
    ensures
        #[trigger] s.spec_byte_len() >= 0,
{
}

/// Two offsets of one source span the same bytes in either order, and the
/// length of the span is the distance between them.
pub proof fn lemma_span_symmetric(a: Offset, b: Offset)
    requires
        a.spec_source_index() == b.spec_source_index(),
    ensures
        a.spec_span(b) == b.spec_span(a),
        a.spec_span(b).spec_byte_len() == if a.spec_byte() <= b.spec_byte() {
            b.spec_byte() - a.spec_byte()
        } else {
            a.spec_byte() - b.spec_byte()
        },
        a.spec_span(b).spec_start() == if a.spec_byte() <= b.spec_byte() {
            a
        } else {
            b
        },
{
}

impl From<Span> for Offset {
    /// The offset at the start of the span.
    fn from(span: Span) -> (r: Self) {
        span.offset
    }
}

impl vstd::std_specs::convert::FromSpecImpl<Span> for Offset {
    open spec fn obeys_from_spec() -> bool {
        true
    }

    open spec fn from_spec(span: Span) -> Self {
        span.spec_start()
    }
}

/// A span of content in a [`SourceMap`](crate::SourceMap) entry.
///
/// Spans are constructed from two [`Offset`]s with [`Offset::span`].
#[derive(Debug, Clone, Copy, PartialEq, Eq, Structural, PartialOrd, Ord, Hash)]
pub struct Span {
    offset: Offset,
    byte_len: usize,
}

impl Span {
    /// The offset at the start of the span.
    pub closed spec fn spec_start(self) -> Offset {
        self.offset
    }

    /// The length of the span in bytes.
    pub closed spec fn spec_byte_len(self) -> int {
        self.byte_len as int
    }

    /// The byte position at the end of the span stays representable.
    pub open spec fn wf(self) -> bool {
        self.spec_start().spec_byte() + self.spec_byte_len() <= usize::MAX
    }

    pub(crate) fn new(offset: Offset, byte_len: usize) -> (r: Self)
        ensures
            r.spec_start() == offset,
            r.spec_byte_len() == byte_len,
    {
        Span { offset, byte_len }
    }

    /// The [`SourceIndex`] of the map entry this span is associated with.
    pub fn source_index(&self) -> (r: SourceIndex)
        ensures
            r == self.spec_start().spec_source_index(),
    {
        self.offset.source_index
    }

    /// The [`Offset`] at the start of the span.
    pub fn start(&self) -> (r: Offset)
        ensures
            r == self.spec_start(),
    {
        self.offset
    }

    /// The [`Offset`] at the end of the span.
    pub fn end(&self) -> (r: Offset)
        requires
            self.wf(),
        ensures
            r.spec_source_index() == self.spec_start().spec_source_index(),
            r.spec_byte() == self.spec_start().spec_byte() + self.spec_byte_len(),
    {
        Offset {
            source_index: self.offset.source_index,
            byte: self.offset.byte + self.byte_len,
        }
    }

    /// The length of the span in bytes.
    pub fn byte_len(&self) -> (r: usize)
        ensures
            r == self.spec_byte_len(),
    {
        self.byte_len
    }

    /// The half-open byte range `[start, end)` of the span.
    pub fn byte_range(&self) -> (r: std::ops::Range<usize>)
        requires
            self.wf(),
        ensures
            r.start == self.spec_start().spec_byte(),
            r.end == self.spec_start().spec_byte() + self.spec_byte_len(),
    {
        self.offset.byte..(self.offset.byte + self.byte_len)
    }

    /// Determine if the start [`Offset`] is at the beginning of the content.
    pub fn is_at_start(&self) -> (r: bool)
        ensures
            r == (self.spec_start().spec_byte() == 0),
    {
        self.offset.is_at_start()
    }
}

/// The observable state of an [`Input`]: the entry it reads, the bytes left
/// to traverse, and the byte position of the cursor inside the entry.
pub struct InputModel {
    /// The index of the map entry the cursor reads.
    pub source: SourceIndex,
    /// The remaining content, as UTF-8 bytes.
    pub bytes: Seq<u8>,
    /// The byte position of the cursor within the entry.
    pub byte: int,
}

/// The model after skipping `n` bytes.
pub open spec fn skip_model(m: InputModel, n: int) -> InputModel {
    InputModel {
        source: m.source,
        bytes: m.bytes.subrange(n, m.bytes.len() as int),
        byte: m.byte + n,
    }
}

/// The model after truncating the remaining content to `n` bytes.
pub open spec fn truncate_model(m: InputModel, n: int) -> InputModel {
    InputModel { source: m.source, bytes: m.bytes.subrange(0, n), byte: m.byte }
}

/// Skipping no bytes leaves the cursor unchanged.
pub proof fn lemma_skip_zero(m: InputModel)
    ensures
        skip_model(m, 0) == m,
{
    assert(m.bytes.subrange(0, m.bytes.len() as int) =~= m.bytes);
}

/// An input traversal cursor for contents in a [`SourceMap`](crate::SourceMap).
///
/// Inputs are constructed with [`SourceMap::input`](crate::SourceMap::input).
/// Every traversal operation returns a new cursor and leaves the original
/// untouched.
#[derive(Debug, Clone)]
pub struct Input<'src> {
    source_index: SourceIndex,
    content: &'src str,
    byte: usize,
}

impl<'src> View for Input<'src> {
    type V = InputModel;

    closed spec fn view(&self) -> InputModel {
        InputModel {
            source: self.source_index,
            bytes: self.content.spec_bytes(),
            byte: self.byte as int,
        }
    }
}

impl<'src> Input<'src> {
    /// The remaining content decoded to characters.
    pub open spec fn spec_chars(self) -> Seq<char> {
        decode_utf8(self@.bytes)
    }

    /// The cursor position stays representable and the remaining content is
    /// valid UTF-8.
    pub open spec fn wf(self) -> bool {
        &&& self@.byte + self@.bytes.len() <= usize::MAX
        &&& valid_utf8(self@.bytes)
    }

    pub(crate) fn new(source_index: SourceIndex, content: &'src str) -> (r: Self)
        ensures
            r@.source == source_index,
            r@.bytes == content.spec_bytes(),
            r@.byte == 0,
            r.wf(),
    {
        proof {
            encode_utf8_valid_utf8(content@);
        }
        // The slice length bounds the byte model by usize::MAX.
        let remaining = content.as_bytes().len();
        proof {
            assert(remaining == content.spec_bytes().len());
        }
        Input { source_index, content, byte: 0 }
    }

    /// The byte length of the remaining input content.
    pub fn len(&self) -> (r: usize)
        ensures
            r == self@.bytes.len(),
    {
        self.content.as_bytes().len()
    }

    /// Determine if the input content has been fully consumed.
    pub fn is_empty(&self) -> (r: bool)
        ensures
            r == (self@.bytes.len() == 0),
    {
        self.content.as_bytes().len() == 0
    }

    /// The content left for the input.
    pub fn content(&self) -> (r: &'src str)
        ensures
            r.spec_bytes() == self@.bytes,
            r@ == self.spec_chars(),
    {
        proof {
            encode_utf8_decode_utf8(self.content@);
        }
        self.content
    }

    /// The [`Offset`] corresponding to the current input position.
    pub fn offset(&self) -> (r: Offset)
        ensures
            r.spec_source_index() == self@.source,
            r.spec_byte() == self@.byte,
    {
        Offset { source_index: self.source_index, byte: self.byte }
    }

    /// Skip to the end of the input.
    pub fn end(&self) -> (r: Self)
        requires
            self.wf(),
        ensures
            r@ == skip_model(self@, self@.bytes.len() as int),
            r.wf(),
    {
        proof {
            vstd::utf8::is_char_boundary_start_end_of_seq(self@.bytes);
        }
        self.skip(self.content.len())
    }

    /// Skip a number of bytes.
    ///
    /// The new cursor must stay on a character boundary of the remaining
    /// content.
    pub fn skip(&self, byte_len: usize) -> (r: Self)
        requires
            self.wf(),
            byte_len <= self@.bytes.len(),
            is_char_boundary(self@.bytes, byte_len as int),
        ensures
            r@ == skip_model(self@, byte_len as int),
            r.wf(),
    {
        proof {
            valid_utf8_split(self@.bytes, byte_len as int);
        }
        let rest = self.content.split_at(byte_len).1;
        Input { source_index: self.source_index, content: rest, byte: self.byte + byte_len }
    }

    /// Truncate the input content to a specific byte length.
    ///
    /// The cut must fall on a character boundary of the remaining content.
    pub fn truncate(&self, byte_len: usize) -> (r: Self)
        requires
            self.wf(),
            byte_len <= self@.bytes.len(),
            is_char_boundary(self@.bytes, byte_len as int),
        ensures
            r@ == truncate_model(self@, byte_len as int),
            r.wf(),
    {
        proof {
            valid_utf8_split(self@.bytes, byte_len as int);
        }
        let head = self.content.split_at(byte_len).0;
        Input { source_index: self.source_index, content: head, byte: self.byte }
    }

    /// Split the input into two parts at a given byte position: the content
    /// before the cut and the content from the cut on.
    pub fn split(&self, byte_len: usize) -> (r: (Self, Self))
        requires
            self.wf(),
            byte_len <= self@.bytes.len(),
            is_char_boundary(self@.bytes, byte_len as int),
        ensures
            r.0@ == truncate_model(self@, byte_len as int),
            r.1@ == skip_model(self@, byte_len as int),
            r.0.wf(),
            r.1.wf(),
    {
        (self.truncate(byte_len), self.skip(byte_len))
    }

    /// The next [`char`] in the input, if any is left.
    pub fn char(&self) -> (r: Option<char>)
        requires
            self.wf(),
        ensures
            r == if self.spec_chars().len() == 0 {
                Option::<char>::None
            } else {
                Option::<char>::Some(self.spec_chars()[0])
            },
            self.spec_chars().len() == 0 <==> self@.bytes.len() == 0,
    {
        proof {
            encode_utf8_decode_utf8(self.content@);
        }
        if self.content.len() == 0 {
            None
        } else {
            Some(self.content.get_char(0))
        }
    }

    /// Try to skip a specific [`char`] at the front of the input.
    ///
    /// Succeeds only when the input starts with exactly that character; the
    /// new cursor starts right after its encoding.
    pub fn skip_char(&self, c: char) -> (r: Option<Self>)
        requires
            self.wf(),
        ensures
            match r {
                Some(inp) => {
                    &&& self.spec_chars().len() > 0
                    &&& self.spec_chars()[0] == c
                    &&& inp@ == skip_model(self@, length_of_first_scalar(self@.bytes))
                    &&& inp.spec_chars() == self.spec_chars().drop_first()
                    &&& inp.wf()
                },
                None => !(self.spec_chars().len() > 0 && self.spec_chars()[0] == c),
            },
    {
        match self.char() {
            Some(front) => {
                if front == c {
                    Some(self.skip_first_scalar())
                } else {
                    None
                }
            },
            None => None,
        }
    }

    /// Try to consume any [`char`] at the front of the input.
    pub fn take_char(&self) -> (r: Option<(char, Self)>)
        requires
            self.wf(),
        ensures
            match r {
                Some((c, inp)) => {
                    &&& self.spec_chars().len() > 0
                    &&& c == self.spec_chars()[0]
                    &&& inp@ == skip_model(self@, length_of_first_scalar(self@.bytes))
                    &&& inp.spec_chars() == self.spec_chars().drop_first()
                    &&& inp.wf()
                },
                None => self.spec_chars().len() == 0,
            },
    {
        match self.char() {
            Some(front) => Some((front, self.skip_first_scalar())),
            None => None,
        }
    }

    /// Construct a [`SourceError`] anchored at the current input position.
    pub fn error<E>(&self, error: E, offset_note: &'static str) -> (r: SourceError<E>)
        ensures
            r@.error == error,
            r@.offset.spec_source_index() == self@.source,
            r@.offset.spec_byte() == self@.byte,
            r@.note == offset_note@,
            r@.context_offset is None,
    {
        SourceError::new(error, self.offset(), offset_note)
    }

    /// Skip the encoding of the first character of the input.
    fn skip_first_scalar(&self) -> (r: Self)
        requires
            self.wf(),
            self@.bytes.len() > 0,
        ensures
            r@ == skip_model(self@, length_of_first_scalar(self@.bytes)),
            r.spec_chars() == self.spec_chars().drop_first(),
            r.wf(),
    {
        proof {
            lemma_first_scalar_boundary(self@.bytes);
        }
        let width = first_scalar_width(self.content);
        let r = self.skip(width);
        proof {
            assert(r@.bytes =~= pop_first_scalar(self@.bytes));
            encode_utf8_decode_utf8(self.content@);
            assert(r.spec_chars() =~= self.spec_chars().drop_first());
        }
        r
    }
}

/// In nonempty valid UTF-8, the width of the first encoded scalar is a
/// character boundary.
proof fn lemma_first_scalar_boundary(bytes: Seq<u8>)
    requires
        valid_utf8(bytes),
        bytes.len() > 0,
    ensures
        1 <= length_of_first_scalar(bytes) <= bytes.len(),
        is_char_boundary(bytes, length_of_first_scalar(bytes)),
{
    let len1 = length_of_first_scalar(bytes);
    assert(1 <= len1 <= bytes.len());
    assert(valid_utf8(pop_first_scalar(bytes)));
    assert(is_char_boundary(pop_first_scalar(bytes), 0));
}

/// Read the byte width of the first encoded character from its leading byte.
fn first_scalar_width(s: &str) -> (r: usize)
    requires
        valid_utf8(s.spec_bytes()),
        s.spec_bytes().len() > 0,
    ensures
        r == length_of_first_scalar(s.spec_bytes()),
{
    let b0 = s.as_bytes()[0];
    proof {
        let bytes = s.spec_bytes();
        assert(is_leading_byte_width_1(bytes[0]) || is_leading_byte_width_2(bytes[0])
            || is_leading_byte_width_3(bytes[0]) || is_leading_byte_width_4(bytes[0]));
    }
    if b0 < 0x80 {
        1
    } else if b0 < 0xe0 {
        2
    } else if b0 < 0xf0 {
        3
    } else {
        4
    }
}

} // verus!
