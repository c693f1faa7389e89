//! The two-stage error model: offset-anchored errors and fully resolved,
//! renderable context errors.

use vstd::prelude::*;
use vstd::string::StrSliceExecFns;
use vstd::string::StringSliceAdditionalSpecFns;
use vstd::utf8::decode_utf8;
use vstd::utf8::encode_utf8;
use vstd::utf8::encode_utf8_decode_utf8;
use vstd::utf8::encode_utf8_valid_utf8;
use vstd::utf8::is_char_boundary;

use crate::display::append_padded_number;
use crate::display::append_spaces;
use crate::display::count_digits;
use crate::display::decimal_string;
use crate::display::spec_count_digits;
use crate::display::spec_decimal;
use crate::display::spec_padded;
use crate::display::spec_spaces;
use crate::input::Offset;
use crate::map::Origin;

verus! {

/// The payload requirements for wrapped error values: a one-line message and
/// the messages of the chain of underlying causes, outermost first.
pub trait ErrorMessage {
    /// The one-line message of the error. Unverified implementations leave it
    /// unspecified.
    open spec fn spec_message(&self) -> Seq<char> {
        vstd::pervasive::arbitrary()
    }

    /// The messages of the underlying causes, outermost first. Unverified
    /// implementations leave them unspecified.
    open spec fn spec_causes(&self) -> Seq<Seq<char>> {
        vstd::pervasive::arbitrary()
    }

    /// Render the one-line message of the error.
    fn message(&self) -> (r: String)
        ensures
            r@ == self.spec_message(),
    ;

    /// Render the messages of the underlying causes, outermost first.
    fn causes(&self) -> (r: Vec<String>)
        ensures
            r.deep_view() == self.spec_causes(),
    ;
}

impl ErrorMessage for String {
    open spec fn spec_message(&self) -> Seq<char> {
        self@
    }

    open spec fn spec_causes(&self) -> Seq<Seq<char>> {
        Seq::empty()
    }

    fn message(&self) -> (r: String) {
        self.clone()
    }

    fn causes(&self) -> (r: Vec<String>) {
        let out: Vec<String> = Vec::new();
        proof {
            assert(out.deep_view() =~= Seq::<Seq<char>>::empty());
        }
        out
    }
}

/// A frozen snapshot of one line of source: its text, its 1-based line
/// number, and a 1-based byte column on it.
#[derive(Debug, Clone, PartialEq, Eq)]
pub struct ContextErrorLocation {
    line: String,
    line_number: usize,
    column_number: usize,
}

/// The observable state of a [`ContextErrorLocation`].
pub struct LocationModel {
    /// The text of the line, without its terminating newline.
    pub line: Seq<char>,
    /// The 1-based line number.
    pub line_number: nat,
    /// The 1-based byte column of the position on the line.
    pub column_number: nat,
}

impl View for ContextErrorLocation {
    type V = LocationModel;

    closed spec fn view(&self) -> LocationModel {
        LocationModel {
            line: self.line@,
            line_number: self.line_number as nat,
            column_number: self.column_number as nat,
        }
    }
}

impl ContextErrorLocation {
    pub(crate) fn new(line: String, line_number: usize, column_number: usize) -> (r: Self)
        ensures
            r@.line == line@,
            r@.line_number == line_number,
            r@.column_number == column_number,
    {
        ContextErrorLocation { line, line_number, column_number }
    }

    /// The text of the line.
    pub fn line(&self) -> (r: &str)
        ensures
            r@ == self@.line,
    {
        self.line.as_str()
    }

    /// The 1-based line number.
    pub fn line_number(&self) -> (r: usize)
        ensures
            r == self@.line_number,
    {
        self.line_number
    }

    /// The 1-based byte column on the line.
    pub fn column_number(&self) -> (r: usize)
        ensures
            r == self@.column_number,
    {
        self.column_number
    }
}

/// The contextual origin of a position in a [`SourceMap`](crate::SourceMap):
/// the origin of the entry, the note highlighting the position, the enclosing
/// line, and optionally a second context line.
///
/// Produced by [`SourceMap::context_error_origin`](crate::SourceMap::context_error_origin)
/// and carried by [`ContextError`].
#[derive(Debug, Clone, PartialEq, Eq)]
pub struct ContextErrorOrigin {
    origin: Origin,
    note: &'static str,
    location: ContextErrorLocation,
    context: Option<ContextErrorLocation>,
}

/// The observable state of a [`ContextErrorOrigin`].
pub struct OriginModel {
    /// The origin of the entry the positions point into.
    pub origin: Origin,
    /// The note highlighting the position.
    pub note: Seq<char>,
    /// The line of the primary position.
    pub location: LocationModel,
    /// The line of the secondary context position, if any.
    pub context: Option<LocationModel>,
}

impl View for ContextErrorOrigin {
    type V = OriginModel;

    closed spec fn view(&self) -> OriginModel {
        OriginModel {
            origin: self.origin,
            note: self.note@,
            location: self.location@,
            context: match self.context {
                Some(c) => Some(c@),
                None => None,
            },
        }
    }
}

impl DeepView for ContextErrorOrigin {
    type V = OriginModel;

    open spec fn deep_view(&self) -> OriginModel {
        self.view()
    }
}

impl ContextErrorOrigin {
    pub(crate) fn new(
        origin: Origin,
        note: &'static str,
        location: ContextErrorLocation,
        context: Option<ContextErrorLocation>,
    ) -> (r: Self)
        ensures
            r@.origin == origin,
            r@.note == note@,
            r@.location == location@,
            r@.context == match context {
                Some(c) => Some(c@),
                None => None::<LocationModel>,
            },
    {
        ContextErrorOrigin { origin, note, location, context }
    }

    /// The origin of the entry the positions point into.
    pub fn origin(&self) -> (r: &Origin)
        ensures
            *r == self@.origin,
    {
        &self.origin
    }

    /// The note highlighting the position.
    pub fn note(&self) -> (r: &'static str)
        ensures
            r@ == self@.note,
    {
        self.note
    }

    /// The line of the primary position.
    pub fn location(&self) -> (r: &ContextErrorLocation)
        ensures
            r@ == self@.location,
    {
        &self.location
    }

    /// The line of the secondary context position, if any.
    pub fn context(&self) -> (r: Option<&ContextErrorLocation>)
        ensures
            match r {
                Some(c) => self@.context == Some(c@),
                None => self@.context is None,
            },
    {
        match &self.context {
            Some(c) => Some(c),
            None => None,
        }
    }
}

/// A generic error carrying contextual [`Offset`] data.
///
/// These can be constructed without access to a full source map and later
/// turned into [`ContextError`] values.
///
/// An error is centered around a primary error position, but can additionally
/// be given a context offset to include in the contextual output.
#[derive(Debug, Clone)]
pub struct SourceError<E> {
    error: E,
    offset: Offset,
    offset_note: &'static str,
    context_offset: Option<Offset>,
}

/// The observable state of a [`SourceError`].
pub struct SourceErrorModel<E> {
    /// The wrapped error value.
    pub error: E,
    /// The primary position the error is anchored to.
    pub offset: Offset,
    /// The note highlighting the primary position.
    pub note: Seq<char>,
    /// A secondary position to include in the context, if any.
    pub context_offset: Option<Offset>,
}

impl<E> View for SourceError<E> {
    type V = SourceErrorModel<E>;

    closed spec fn view(&self) -> SourceErrorModel<E> {
        SourceErrorModel {
            error: self.error,
            offset: self.offset,
            note: self.offset_note@,
            context_offset: self.context_offset,
        }
    }
}

/// The state of a source error after its wrapped value is replaced: the
/// position data is untouched.
pub open spec fn source_error_map_model<E, M>(
    m: SourceErrorModel<E>,
    error: M,
) -> SourceErrorModel<M> {
    SourceErrorModel { error, offset: m.offset, note: m.note, context_offset: m.context_offset }
}

/// Replacing the wrapped value twice reaches the same state as replacing it
/// once with the final value: mapping never touches the position data, so two
/// maps compose into one.
pub proof fn lemma_source_error_map_map<E, M, N>(m: SourceErrorModel<E>, mid: M, out: N)
    ensures
        source_error_map_model(source_error_map_model(m, mid), out) == source_error_map_model(
            m,
            out,
        ),
{
}

impl<E> SourceError<E> {
    /// Construct an error at a specific [`Offset`].
    ///
    /// The given note will be used to highlight the error position.
    pub fn new(error: E, offset: Offset, offset_note: &'static str) -> (r: Self)
        ensures
            r@.error == error,
            r@.offset == offset,
            r@.note == offset_note@,
            r@.context_offset is None,
    {
        SourceError { error, offset, offset_note, context_offset: None }
    }

    /// Associate an additional context [`Offset`] with the error.
    ///
    /// The line of this offset will also be included in the rendered context.
    /// The offset must point into the same entry as the error's own offset.
    pub fn with_context(self, offset: Offset) -> (r: Self)
        requires
            self@.offset.spec_source_index() == offset.spec_source_index(),
        ensures
            r@.error == self@.error,
            r@.offset == self@.offset,
            r@.note == self@.note,
            r@.context_offset == Some(offset),
    {
        SourceError {
            error: self.error,
            offset: self.offset,
            offset_note: self.offset_note,
            context_offset: Some(offset),
        }
    }

    /// The encapsulated error value.
    pub fn error(&self) -> (r: &E)
        ensures
            *r == self@.error,
    {
        &self.error
    }

    /// The [`Offset`] this error is associated with.
    pub fn offset(&self) -> (r: Offset)
        ensures
            r == self@.offset,
    {
        self.offset
    }

    /// The additional context [`Offset`] to be included in the output, if any
    /// was given.
    pub fn context_offset(&self) -> (r: Option<Offset>)
        ensures
            r == self@.context_offset,
    {
        self.context_offset
    }

    /// The note for the error position.
    pub fn note(&self) -> (r: &'static str)
        ensures
            r@ == self@.note,
    {
        self.offset_note
    }

    /// Map the encapsulated error value to a new value and/or type,
    /// preserving all position data.
    pub fn map<M, F: FnOnce(E) -> M>(self, map_error: F) -> (r: SourceError<M>)
        requires
            map_error.requires((self@.error,)),
        ensures
            map_error.ensures((self@.error,), r@.error),
            r@ == source_error_map_model(self@, r@.error),
    {
        SourceError {
            error: map_error(self.error),
            offset: self.offset,
            offset_note: self.offset_note,
            context_offset: self.context_offset,
        }
    }

    /// Discard the context and unwrap the encapsulated error value.
    pub fn into_error(self) -> (r: E)
        ensures
            r == self@.error,
    {
        self.error
    }

    /// Turn the error into a full [`ContextError`] by resolving its offsets
    /// through a [`SourceMap`](crate::SourceMap).
    ///
    /// Both the primary offset and the context offset, if one was attached,
    /// must be resolvable against the map.
    pub fn into_context_error(self, map: &crate::map::SourceMap) -> (r: ContextError<E>)
        requires
            map.resolvable(self@.offset),
            self@.context_offset matches Some(c) ==> map.resolvable(c),
        ensures
            r@.error == self@.error,
            r@.origins =~= seq![
                map.spec_context_origin(self@.offset, self@.note, self@.context_offset),
            ],
    {
        let origin = map.context_error_origin(self.offset, self.offset_note, self.context_offset);
        let mut origins: Vec<ContextErrorOrigin> = Vec::new();
        origins.push(origin);
        ContextError::with_origins(self.error, origins)
    }
}

/// A generic error with associated context information.
///
/// The contexts in this error wrapper are fully realized and can be rendered
/// without access to a [`SourceMap`](crate::SourceMap).
#[derive(Debug, Clone, PartialEq, Eq)]
pub struct ContextError<E> {
    error: E,
    origins: Vec<ContextErrorOrigin>,
}

/// The observable state of a [`ContextError`].
pub struct ContextErrorModel<E> {
    /// The wrapped error value.
    pub error: E,
    /// The resolved origins of the error, in order.
    pub origins: Seq<OriginModel>,
}

impl<E> View for ContextError<E> {
    type V = ContextErrorModel<E>;

    closed spec fn view(&self) -> ContextErrorModel<E> {
        ContextErrorModel {
            error: self.error,
            origins: self.origins.deep_view(),
        }
    }
}

/// The state of a context error after its wrapped value is replaced: the
/// origins are untouched.
pub open spec fn context_error_map_model<E, M>(
    m: ContextErrorModel<E>,
    error: M,
) -> ContextErrorModel<M> {
    ContextErrorModel { error, origins: m.origins }
}

/// Replacing the wrapped value twice reaches the same state as replacing it
/// once with the final value: mapping never touches the origins, so two maps
/// compose into one.
pub proof fn lemma_context_error_map_map<E, M, N>(m: ContextErrorModel<E>, mid: M, out: N)
    ensures
        context_error_map_model(context_error_map_model(m, mid), out) == context_error_map_model(
            m,
            out,
        ),
{
}

impl<E> ContextError<E> {
    /// Construct a context error with a given set of [`ContextErrorOrigin`]
    /// values.
    pub fn with_origins(error: E, origins: Vec<ContextErrorOrigin>) -> (r: Self)
        ensures
            r@.error == error,
            r@.origins == origins.deep_view(),
    {
        ContextError { error, origins }
    }

    /// The encapsulated error value.
    pub fn error(&self) -> (r: &E)
        ensures
            *r == self@.error,
    {
        &self.error
    }

    /// All contained [`ContextErrorOrigin`] values.
    pub fn error_origins(&self) -> (r: &Vec<ContextErrorOrigin>)
        ensures
            r.deep_view() == self@.origins,
    {
        &self.origins
    }

    /// Map the encapsulated error value to a new value and/or type,
    /// preserving the resolved origins.
    pub fn map<M, F: FnOnce(E) -> M>(self, map_error: F) -> (r: ContextError<M>)
        requires
            map_error.requires((self@.error,)),
        ensures
            map_error.ensures((self@.error,), r@.error),
            r@ == context_error_map_model(self@, r@.error),
    {
        ContextError { error: map_error(self.error), origins: self.origins }
    }

    /// Discard the context and unwrap the encapsulated error value.
    pub fn into_error(self) -> (r: E)
        ensures
            r == self@.error,
    {
        self.error
    }
}

/// The one-line rendering of a resolved position: `path:line:column` for file
/// origins and `` `name`, line L, column C `` for named origins, preceded by
/// `at ` or `in ` when used as a suffix.
pub open spec fn spec_origin_display(
    origin: Origin,
    line_number: nat,
    column_number: nat,
    with_prefix: bool,
) -> Seq<char> {
    match origin {
        Origin::File(p) => (if with_prefix {
            "at "@
        } else {
            Seq::empty()
        }) + p@ + ":"@ + spec_decimal(line_number) + ":"@ + spec_decimal(column_number),
        Origin::Named(n) => (if with_prefix {
            "in "@
        } else {
            Seq::empty()
        }) + "`"@ + n@ + "`, line "@ + spec_decimal(line_number) + ", column "@ + spec_decimal(
            column_number,
        ),
    }
}

/// The suffix form of one origin, with its prefix word.
pub open spec fn spec_origin_suffix(m: OriginModel) -> Seq<char> {
    spec_origin_display(m.origin, m.location.line_number, m.location.column_number, true)
}

/// The one-line suffix joining a sequence of origins with natural-language
/// conjunction: nothing for none, `" a"`, `" a and b"`, or comma-separated
/// with `and` before the last.
pub open spec fn spec_origins_suffix(origins: Seq<OriginModel>) -> Seq<char>
    decreases origins.len(),
{
    if origins.len() == 0 {
        Seq::empty()
    } else if origins.len() == 1 {
        " "@ + spec_origin_suffix(origins[0])
    } else if origins.len() == 2 {
        " "@ + spec_origin_suffix(origins[0]) + " and "@ + spec_origin_suffix(origins[1])
    } else {
        " "@ + spec_origin_suffix(origins[0]) + ","@ + spec_origins_suffix(origins.drop_first())
    }
}

/// The pointer-line prefix under the quoted source line: one character per
/// character before the column, keeping literal tabs so the caret stays
/// visually aligned, and a space for everything else.
pub open spec fn spec_caret_prefix(chars: Seq<char>) -> Seq<char> {
    Seq::new(
        chars.len(),
        |i: int|
            if chars[i] == '\t' {
                '\t'
            } else {
                ' '
            },
    )
}

/// Whether a location can be rendered with a caret: its column must point at
/// or directly behind a character boundary of the line.
pub open spec fn location_renderable(loc: LocationModel) -> bool {
    let bytes = encode_utf8(loc.line);
    loc.column_number <= bytes.len() && is_char_boundary(bytes, loc.column_number as int)
}

/// Whether an origin can be rendered: its primary location must be.
pub open spec fn origin_renderable(m: OriginModel) -> bool {
    location_renderable(m.location)
}

/// The context lines of an origin's block: the secondary line when it lies on
/// an earlier line than the primary one, followed by an elision marker when
/// the two lines are not adjacent. A secondary location on or after the
/// primary line is not shown.
pub open spec fn spec_context_lines(m: OriginModel, w: nat) -> Seq<char> {
    match m.context {
        Some(ctx) => if ctx.line_number < m.location.line_number {
            " "@ + spec_padded(ctx.line_number, w) + " | "@ + ctx.line + "\n"@ + if ctx.line_number
                + 1 != m.location.line_number {
                " "@ + spec_spaces(w) + " | ...\n"@
            } else {
                Seq::empty()
            }
        } else {
            Seq::empty()
        },
        None => Seq::empty(),
    }
}

/// The rendered diagnostic block of one origin: the location header, the
/// optional context lines, the quoted primary line, and the pointer line
/// carrying the note.
pub open spec fn spec_origin_block(m: OriginModel) -> Seq<char> {
    let w = spec_count_digits(m.location.line_number);
    let caret_chars = decode_utf8(
        encode_utf8(m.location.line).subrange(0, m.location.column_number as int),
    );
    "--> "@ + spec_origin_display(m.origin, m.location.line_number, m.location.column_number, false)
        + "\n"@ + spec_context_lines(m, w)
        + " "@ + spec_padded(m.location.line_number, w) + " | "@ + m.location.line + "\n"@ + " "@
        + spec_spaces(w) + " |"@ + spec_caret_prefix(caret_chars) + "^ "@ + m.note + "\n"@
}

/// The `cause:` lines for a chain of cause messages, outermost first.
pub open spec fn spec_causes_lines(causes: Seq<Seq<char>>) -> Seq<char>
    decreases causes.len(),
{
    if causes.len() == 0 {
        Seq::empty()
    } else {
        "cause: "@ + causes[0] + "\n"@ + spec_causes_lines(causes.drop_first())
    }
}

/// The concatenated diagnostic blocks of a sequence of origins.
pub open spec fn spec_origin_blocks(origins: Seq<OriginModel>) -> Seq<char>
    decreases origins.len(),
{
    if origins.len() == 0 {
        Seq::empty()
    } else {
        spec_origin_block(origins[0]) + spec_origin_blocks(origins.drop_first())
    }
}

/// The full diagnostic report: the `error:` line, the `cause:` lines, and
/// each origin's block.
pub open spec fn spec_full_context(
    message: Seq<char>,
    causes: Seq<Seq<char>>,
    origins: Seq<OriginModel>,
) -> Seq<char> {
    "error: "@ + message + "\n"@ + spec_causes_lines(causes) + spec_origin_blocks(origins)
}

/// Append the one-line rendering of a resolved position.
fn append_origin_display(
    out: &mut String,
    origin: &Origin,
    line_number: usize,
    column_number: usize,
    with_prefix: bool,
)
    ensures
        final(out)@ == old(out)@ + spec_origin_display(
            *origin,
            line_number as nat,
            column_number as nat,
            with_prefix,
        ),
{
    let line_rendered = decimal_string(line_number);
    let column_rendered = decimal_string(column_number);
    match origin {
        Origin::File(p) => {
            if with_prefix {
                out.append("at ");
            }
            out.append(p.as_str());
            out.append(":");
            out.append(line_rendered.as_str());
            out.append(":");
            out.append(column_rendered.as_str());
        },
        Origin::Named(n) => {
            if with_prefix {
                out.append("in ");
            }
            out.append("`");
            out.append(n.as_str());
            out.append("`, line ");
            out.append(line_rendered.as_str());
            out.append(", column ");
            out.append(column_rendered.as_str());
        },
    }
    proof {
        assert(out@ =~= old(out)@ + spec_origin_display(
            *origin,
            line_number as nat,
            column_number as nat,
            with_prefix,
        ));
    }
}

/// Append the pointer-line prefix for the part of the line before the column.
fn append_caret_prefix(out: &mut String, line: &str, column_number: usize)
    requires
        column_number <= line.spec_bytes().len(),
        is_char_boundary(line.spec_bytes(), column_number as int),
    ensures
        final(out)@ == old(out)@ + spec_caret_prefix(
            decode_utf8(line.spec_bytes().subrange(0, column_number as int)),
        ),
{
    proof {
        encode_utf8_valid_utf8(line@);
    }
    let prefix = line.split_at(column_number).0;
    proof {
        assert(prefix.spec_bytes() =~= line.spec_bytes().subrange(0, column_number as int));
        encode_utf8_decode_utf8(prefix@);
    }
    let ghost skipped = decode_utf8(line.spec_bytes().subrange(0, column_number as int));
    let n = prefix.unicode_len();
    let mut i: usize = 0;
    while i < n
        invariant
            i <= n,
            n == prefix@.len(),
            prefix@ == skipped,
            out@ == old(out)@ + spec_caret_prefix(skipped.take(i as int)),
        decreases n - i,
    {
        let c = prefix.get_char(i);
        if c == '\t' {
            out.append("\t");
        } else {
            out.append(" ");
        }
        proof {
            reveal_strlit("\t");
            reveal_strlit(" ");
            assert(out@ =~= old(out)@ + spec_caret_prefix(skipped.take(i + 1)));
        }
        i = i + 1;
    }
    proof {
        assert(skipped.take(n as int) =~= skipped);
    }
}

impl ContextErrorOrigin {
    /// Render this origin's diagnostic block.
    pub fn display(&self) -> (r: String)
        requires
            origin_renderable(self@),
        ensures
            r@ == spec_origin_block(self@),
    {
        let w = count_digits(self.location.line_number);
        let mut out = String::new();
        out.append("--> ");
        append_origin_display(
            &mut out,
            &self.origin,
            self.location.line_number,
            self.location.column_number,
            false,
        );
        out.append("\n");
        match &self.context {
            Some(ctx) => {
                if ctx.line_number < self.location.line_number {
                    out.append(" ");
                    append_padded_number(&mut out, ctx.line_number, w);
                    out.append(" | ");
                    out.append(ctx.line.as_str());
                    out.append("\n");
                    if ctx.line_number + 1 != self.location.line_number {
                        out.append(" ");
                        append_spaces(&mut out, w);
                        out.append(" | ...\n");
                    }
                }
            },
            None => {},
        }
        proof {
            assert(out@ =~= "--> "@ + spec_origin_display(
                self@.origin,
                self@.location.line_number,
                self@.location.column_number,
                false,
            ) + "\n"@ + spec_context_lines(self@, w as nat));
        }
        out.append(" ");
        append_padded_number(&mut out, self.location.line_number, w);
        out.append(" | ");
        out.append(self.location.line.as_str());
        out.append("\n");
        out.append(" ");
        append_spaces(&mut out, w);
        out.append(" |");
        append_caret_prefix(&mut out, self.location.line.as_str(), self.location.column_number);
        out.append("^ ");
        out.append(self.note);
        out.append("\n");
        proof {
            assert(out@ =~= spec_origin_block(self@));
        }
        out
    }
}

/// Append the one-line suffix of the origins from position `k` on, under the
/// conjunction rules for the number of origins left.
fn append_origins_suffix_from(out: &mut String, origins: &Vec<ContextErrorOrigin>, k: usize)
    requires
        k <= origins.len(),
    ensures
        final(out)@ == old(out)@ + spec_origins_suffix(origins.deep_view().skip(k as int)),
    decreases origins.len() - k,
{
    let n = origins.len();
    let ghost rest = origins.deep_view().skip(k as int);
    if k == n {
        proof {
            assert(rest.len() == 0);
        }
    } else if k + 1 == n {
        out.append(" ");
        let o = &origins[k];
        append_origin_display(
            out,
            &o.origin,
            o.location.line_number,
            o.location.column_number,
            true,
        );
        proof {
            assert(rest[0] == origins.deep_view()[k as int]);
            assert(out@ =~= old(out)@ + spec_origins_suffix(rest));
        }
    } else if k + 2 == n {
        out.append(" ");
        let o = &origins[k];
        append_origin_display(
            out,
            &o.origin,
            o.location.line_number,
            o.location.column_number,
            true,
        );
        out.append(" and ");
        let o2 = &origins[k + 1];
        append_origin_display(
            out,
            &o2.origin,
            o2.location.line_number,
            o2.location.column_number,
            true,
        );
        proof {
            assert(rest[0] == origins.deep_view()[k as int]);
            assert(rest[1] == origins.deep_view()[k + 1]);
            assert(out@ =~= old(out)@ + spec_origins_suffix(rest));
        }
    } else {
        out.append(" ");
        let o = &origins[k];
        append_origin_display(
            out,
            &o.origin,
            o.location.line_number,
            o.location.column_number,
            true,
        );
        out.append(",");
        append_origins_suffix_from(out, origins, k + 1);
        proof {
            assert(rest[0] == origins.deep_view()[k as int]);
            assert(rest.drop_first() =~= origins.deep_view().skip(k + 1));
            assert(out@ =~= old(out)@ + spec_origins_suffix(rest));
        }
    }
}

/// Append the `cause:` lines of the cause messages from position `k` on.
fn append_causes_from(out: &mut String, causes: &Vec<String>, k: usize)
    requires
        k <= causes.len(),
    ensures
        final(out)@ == old(out)@ + spec_causes_lines(causes.deep_view().skip(k as int)),
    decreases causes.len() - k,
{
    let ghost rest = causes.deep_view().skip(k as int);
    if k == causes.len() {
        proof {
            assert(rest.len() == 0);
        }
    } else {
        out.append("cause: ");
        out.append(causes[k].as_str());
        out.append("\n");
        append_causes_from(out, causes, k + 1);
        proof {
            assert(rest[0] == causes.deep_view()[k as int]);
            assert(rest.drop_first() =~= causes.deep_view().skip(k + 1));
            assert(out@ =~= old(out)@ + spec_causes_lines(rest));
        }
    }
}

/// Append the diagnostic blocks of the origins from position `k` on.
fn append_blocks_from(out: &mut String, origins: &Vec<ContextErrorOrigin>, k: usize)
    requires
        k <= origins.len(),
        forall|i: int|
            k <= i < origins.len() ==> origin_renderable(#[trigger] origins.deep_view()[i]),
    ensures
        final(out)@ == old(out)@ + spec_origin_blocks(origins.deep_view().skip(k as int)),
    decreases origins.len() - k,
{
    let ghost rest = origins.deep_view().skip(k as int);
    if k == origins.len() {
        proof {
            assert(rest.len() == 0);
        }
    } else {
        proof {
            assert(origins.deep_view()[k as int] == origins@[k as int].deep_view());
        }
        let block = origins[k].display();
        out.append(block.as_str());
        append_blocks_from(out, origins, k + 1);
        proof {
            assert(rest[0] == origins.deep_view()[k as int]);
            assert(rest.drop_first() =~= origins.deep_view().skip(k + 1));
            assert(out@ =~= old(out)@ + spec_origin_blocks(rest));
        }
    }
}

impl<E: ErrorMessage> SourceError<E> {
    /// The one-line rendering of the error: its message followed by the byte
    /// offset it is anchored to.
    pub fn display(&self) -> (r: String)
        ensures
            r@ == self@.error.spec_message() + " at byte offset "@ + spec_decimal(
                self@.offset.spec_byte() as nat,
            ),
    {
        let mut out = self.error.message();
        out.append(" at byte offset ");
        let rendered = decimal_string(self.offset.byte());
        out.append(rendered.as_str());
        out
    }
}

impl<E: ErrorMessage> ContextError<E> {
    /// The one-line rendering of the error: its message followed by its
    /// origins in suffix form.
    pub fn display(&self) -> (r: String)
        ensures
            r@ == self@.error.spec_message() + spec_origins_suffix(self@.origins),
    {
        let mut out = self.error.message();
        append_origins_suffix_from(&mut out, &self.origins, 0);
        proof {
            assert(self.origins.deep_view().skip(0) =~= self@.origins);
        }
        out
    }

    /// Render the full diagnostic report: the error message, its chain of
    /// causes, and an expanded view of every origin's source context.
    ///
    /// The carried notes highlight the error positions in the content.
    pub fn display_with_context(&self) -> (r: String)
        requires
            forall|i: int|
                0 <= i < self@.origins.len() ==> origin_renderable(#[trigger] self@.origins[i]),
        ensures
            r@ == spec_full_context(
                self@.error.spec_message(),
                self@.error.spec_causes(),
                self@.origins,
            ),
    {
        let mut out = String::new();
        out.append("error: ");
        let message = self.error.message();
        out.append(message.as_str());
        out.append("\n");
        let causes = self.error.causes();
        append_causes_from(&mut out, &causes, 0);
        proof {
            assert(causes.deep_view().skip(0) =~= self@.error.spec_causes());
            assert forall|i: int| 0 <= i < self.origins.deep_view().len() implies origin_renderable(
                #[trigger] self.origins.deep_view()[i],
            ) by {
                assert(origin_renderable(self@.origins[i]));
            }
        }
        append_blocks_from(&mut out, &self.origins, 0);
        proof {
            assert(self.origins.deep_view().skip(0) =~= self@.origins);
            assert(out@ =~= spec_full_context(
                self@.error.spec_message(),
                self@.error.spec_causes(),
                self@.origins,
            ));
        }
        out
    }

    /// Render the diagnostic report without the chain of causes: the error
    /// message and an expanded view of every origin's source context.
    pub fn display_with_outer_context(&self) -> (r: String)
        requires
            forall|i: int|
                0 <= i < self@.origins.len() ==> origin_renderable(#[trigger] self@.origins[i]),
        ensures
            r@ == spec_full_context(self@.error.spec_message(), Seq::empty(), self@.origins),
    {
        let mut out = String::new();
        out.append("error: ");
        let message = self.error.message();
        out.append(message.as_str());
        out.append("\n");
        proof {
            assert forall|i: int| 0 <= i < self.origins.deep_view().len() implies origin_renderable(
                #[trigger] self.origins.deep_view()[i],
            ) by {
                assert(origin_renderable(self@.origins[i]));
            }
        }
        append_blocks_from(&mut out, &self.origins, 0);
        proof {
            assert(self.origins.deep_view().skip(0) =~= self@.origins);
            assert(out@ =~= spec_full_context(
                self@.error.spec_message(),
                Seq::empty(),
                self@.origins,
            ));
        }
        out
    }
}

} // verus!
