//! The source registry: origins, indices, and the map owning all contents.

use vstd::prelude::*;
use vstd::string::StringSliceAdditionalSpecFns;
use vstd::utf8::decode_utf8;
use vstd::utf8::encode_utf8;
use vstd::utf8::encode_utf8_decode_utf8;
use vstd::utf8::encode_utf8_valid_utf8;
use vstd::utf8::is_char_boundary;
use std::hash::BuildHasher;
use std::hash::Hasher;

use crate::error::ContextErrorLocation;
use crate::error::ContextErrorOrigin;
use crate::error::LocationModel;
use crate::error::OriginModel;
use crate::input::Input;
use crate::input::Offset;
use crate::input::Span;
use crate::lines::column_number_at;
use crate::lines::count_newlines;
use crate::lines::find_line_end;
use crate::lines::find_line_start;
use crate::lines::lemma_boundary_in_prefix;
use crate::lines::lemma_line_end_boundary;
use crate::lines::lemma_line_end_props;
use crate::lines::lemma_line_start_boundary;
use crate::lines::lemma_line_start_props;
use crate::lines::lemma_newline_count_le;
use crate::lines::line_end;
use crate::lines::line_number_at;
use crate::lines::line_start;

verus! {

broadcast use crate::input::offset_byte_nonneg, crate::input::span_byte_len_nonneg;

/// An identifier for a specific source in a [`SourceMap`].
///
/// Only valid for the map instance that issued it; every map carries its own
/// identifier, and every index remembers which map it came from.
#[derive(Debug, Clone, Copy, PartialEq, Eq, Structural, PartialOrd, Ord, Hash)]
pub struct SourceIndex {
    map_id: u64,
    data_index: usize,
}

impl SourceIndex {
    /// The identifier of the map this index was issued by.
    pub closed spec fn spec_map_id(self) -> u64 {
        self.map_id
    }

    /// The slot of the entry inside the issuing map.
    pub closed spec fn spec_slot(self) -> int {
        self.data_index as int
    }
}

/// The origin of a [`SourceMap`] entry.
#[derive(Debug, Clone)]
pub enum Origin {
    /// The entry is designated as having come from this file path.
    File(String),
    /// The entry came from a named source instead of a file path.
    Named(String),
}

/// Whether two origins designate the same provenance: the same variant
/// carrying the same text.
pub open spec fn origin_eq(a: Origin, b: Origin) -> bool {
    match (a, b) {
        (Origin::File(p), Origin::File(q)) => p@ == q@,
        (Origin::Named(p), Origin::Named(q)) => p@ == q@,
        _ => false,
    }
}

/// Whether an origin is a file origin carrying exactly this path.
pub open spec fn is_file_origin(o: Origin, path: Seq<char>) -> bool {
    o matches Origin::File(p) && p@ == path
}

/// The paths of the file origins of a sequence, in order.
pub open spec fn file_paths(s: Seq<Origin>) -> Seq<Seq<char>>
    decreases s.len(),
{
    if s.len() == 0 {
        Seq::empty()
    } else {
        let rest = file_paths(s.drop_last());
        match s.last() {
            Origin::File(p) => rest.push(p@),
            Origin::Named(_) => rest,
        }
    }
}

/// Copy an origin, preserving its exact value.
fn clone_origin(o: &Origin) -> (r: Origin)
    ensures
        r == *o,
{
    match o {
        Origin::File(p) => Origin::File(p.clone()),
        Origin::Named(n) => Origin::Named(n.clone()),
    }
}

impl PartialEq for Origin {
    fn eq(&self, other: &Self) -> (r: bool) {
        match (self, other) {
            (Origin::File(p), Origin::File(q)) => *p == *q,
            (Origin::Named(p), Origin::Named(q)) => *p == *q,
            _ => false,
        }
    }
}

impl Eq for Origin {}

impl vstd::std_specs::cmp::PartialEqSpecImpl for Origin {
    open spec fn obeys_eq_spec() -> bool {
        true
    }

    open spec fn eq_spec(&self, other: &Origin) -> bool {
        origin_eq(*self, *other)
    }
}

impl Origin {
    /// Convenience constructor for a file origin.
    pub fn from_file(path: &str) -> (r: Self)
        ensures
            r matches Origin::File(p) && p@ == path@,
    {
        Origin::File(path.to_owned())
    }

    /// Convenience constructor for a named origin.
    pub fn from_named(name: &str) -> (r: Self)
        ensures
            r matches Origin::Named(n) && n@ == name@,
    {
        Origin::Named(name.to_owned())
    }
}

/// The outcome of an insertion into a [`SourceMap`].
#[derive(Debug, Clone, Copy, PartialEq, Eq, Structural)]
pub enum Insert {
    /// The entry was inserted under the given index.
    Inserted(SourceIndex),
    /// The entry already exists under the given index.
    Previous(SourceIndex),
}

impl Insert {
    /// Map the insertion outcome into a [`Result`].
    ///
    /// An insertion is treated as success, while any previous source index
    /// is used as the error.
    pub fn try_into_inserted(self) -> (r: Result<SourceIndex, SourceIndex>)
        ensures
            r == match self {
                Insert::Inserted(idx) => Result::<SourceIndex, SourceIndex>::Ok(idx),
                Insert::Previous(idx) => Result::<SourceIndex, SourceIndex>::Err(idx),
            },
    {
        match self {
            Insert::Inserted(idx) => Ok(idx),
            Insert::Previous(idx) => Err(idx),
        }
    }
}

struct SourceEntry {
    origin: Origin,
    content: String,
}

/// A source gathered for batch registration: new content under an origin, or
/// a reference to an entry that is already present in the map.
pub enum PendingSource {
    /// Content to register under an origin not yet in the map.
    New(Origin, String),
    /// An entry already present under this index.
    Known(SourceIndex),
}

/// The origins of the new entries of a batch, in order.
pub open spec fn new_origins(batch: Seq<PendingSource>) -> Seq<Origin>
    decreases batch.len(),
{
    if batch.len() == 0 {
        Seq::empty()
    } else {
        let rest = new_origins(batch.drop_last());
        match batch.last() {
            PendingSource::New(o, _) => rest.push(o),
            PendingSource::Known(_) => rest,
        }
    }
}

/// The contents of the new entries of a batch, in order.
pub open spec fn new_contents(batch: Seq<PendingSource>) -> Seq<Seq<char>>
    decreases batch.len(),
{
    if batch.len() == 0 {
        Seq::empty()
    } else {
        let rest = new_contents(batch.drop_last());
        match batch.last() {
            PendingSource::New(_, c) => rest.push(c@),
            PendingSource::Known(_) => rest,
        }
    }
}

/// The new entries of a batch are no more numerous than the batch, and
/// carry exactly one content per origin.
proof fn lemma_new_lens(batch: Seq<PendingSource>)
    ensures
        new_origins(batch).len() <= batch.len(),
        new_contents(batch).len() == new_origins(batch).len(),
    decreases batch.len(),
{
    if batch.len() > 0 {
        lemma_new_lens(batch.drop_last());
    }
}

/// Every origin of the new entries of a batch comes from some new entry.
proof fn lemma_new_origin_source(batch: Seq<PendingSource>, j: int)
    requires
        0 <= j < new_origins(batch).len(),
    ensures
        exists|t: int|
            #![trigger batch[t]]
            0 <= t < batch.len() && (batch[t] matches PendingSource::New(o, _) && o == new_origins(
                batch,
            )[j]),
    decreases batch.len(),
{
    lemma_new_lens(batch);
    let news = new_origins(batch);
    match batch.last() {
        PendingSource::New(o, _) => {
            if j == news.len() - 1 {
                assert(batch[batch.len() - 1] matches PendingSource::New(oo, _) && oo == news[j]);
            } else {
                lemma_new_origin_source(batch.drop_last(), j);
                let t = choose|t: int|
                    #![trigger batch.drop_last()[t]]
                    0 <= t < batch.drop_last().len() && (batch.drop_last()[t]
                        matches PendingSource::New(o, _) && o == new_origins(
                        batch.drop_last(),
                    )[j]);
                assert(batch[t] matches PendingSource::New(oo, _) && oo == news[j]);
            }
        },
        PendingSource::Known(_) => {
            lemma_new_origin_source(batch.drop_last(), j);
            let t = choose|t: int|
                #![trigger batch.drop_last()[t]]
                0 <= t < batch.drop_last().len() && (batch.drop_last()[t]
                    matches PendingSource::New(o, _) && o == new_origins(batch.drop_last())[j]);
            assert(batch[t] matches PendingSource::New(oo, _) && oo == news[j]);
        },
    }
}

/// A map storing source contents and their [`Origin`].
///
/// Every map has its own identifier to prevent use of a [`SourceIndex`]
/// with a map it did not originate from. Because every map and index carry
/// an associated identifier, maps are not clonable, as a clone would make
/// all prior indices ambiguous.
pub struct SourceMap {
    id: u64,
    entries: Vec<SourceEntry>,
}

/// Relies on std's `RandomState::new` (through `BuildHasher::build_hasher` and
/// `Hasher::finish`): each `RandomState` is built from per-process random keys
/// varied per instance, so two calls return the same identifier only with
/// negligible probability. Nothing is promised of the value itself.
#[verifier::external_body]
fn fresh_map_id() -> u64 {
    std::collections::hash_map::RandomState::new().build_hasher().finish()
}

impl SourceMap {
    /// The identifier tying issued indices to this map.
    pub closed spec fn spec_id(self) -> u64 {
        self.id
    }

    /// The number of entries stored in the map.
    pub closed spec fn spec_len(self) -> nat {
        self.entries@.len()
    }

    /// The origin stored at a slot.
    pub closed spec fn origin_at(self, slot: int) -> Origin {
        self.entries@[slot].origin
    }

    /// The content stored at a slot, as a sequence of characters.
    pub closed spec fn content_at(self, slot: int) -> Seq<char> {
        self.entries@[slot].content@
    }

    /// Whether an index was issued by this map and denotes a stored entry.
    pub open spec fn valid_index(self, idx: SourceIndex) -> bool {
        idx.spec_map_id() == self.spec_id() && 0 <= idx.spec_slot() < self.spec_len()
    }

    /// The index denoting a slot of this map.
    pub closed spec fn index_at(self, slot: int) -> SourceIndex {
        SourceIndex { map_id: self.spec_id(), data_index: slot as usize }
    }

    /// No origin is ever stored twice.
    pub open spec fn wf(self) -> bool {
        forall|i: int, j: int|
            0 <= i < j < self.spec_len() ==> !origin_eq(self.origin_at(i), self.origin_at(j))
    }

    /// Whether some entry is stored under an origin equal to `origin`.
    pub open spec fn has_origin(self, origin: Origin) -> bool {
        exists|i: int| 0 <= i < self.spec_len() && origin_eq(self.origin_at(i), origin)
    }

    /// The slot whose entry is stored under an origin equal to `origin`.
    pub open spec fn slot_of(self, origin: Origin) -> int {
        choose|i: int| 0 <= i < self.spec_len() && origin_eq(self.origin_at(i), origin)
    }

    /// An index denoting a stored slot of this map is valid, was issued by
    /// this map, and resolves back to exactly that slot.
    pub broadcast proof fn lemma_index_at(self, slot: int)
        requires
            0 <= slot < self.spec_len(),
        ensures
            self.valid_index(#[trigger] self.index_at(slot)),
            self.index_at(slot).spec_slot() == slot,
            self.index_at(slot).spec_map_id() == self.spec_id(),
    {
        broadcast use vstd::std_specs::vec::axiom_spec_len;

        let v = &self.entries;
        assert(v.len() == self.entries@.len());
    }

    /// Registering an origin never duplicates storage: an entry stored under
    /// an origin at some slot resolves back to exactly that slot, so a second
    /// insertion of the same origin reports [`Insert::Previous`] with the
    /// original index and leaves the map unchanged (see [`SourceMap::insert`]).
    pub proof fn lemma_slot_unique(self, origin: Origin, i: int)
        requires
            self.wf(),
            0 <= i < self.spec_len(),
            origin_eq(self.origin_at(i), origin),
        ensures
            self.has_origin(origin),
            self.slot_of(origin) == i,
    {
        assert(self.has_origin(origin));
        let j = self.slot_of(origin);
        if i < j {
            assert(origin_eq(self.origin_at(i), self.origin_at(j)));
        } else if j < i {
            assert(origin_eq(self.origin_at(j), self.origin_at(i)));
        }
    }

    /// Whether some entry is stored under a file origin with this path.
    pub open spec fn has_file(self, path: Seq<char>) -> bool {
        exists|i: int| 0 <= i < self.spec_len() && is_file_origin(self.origin_at(i), path)
    }

    /// The slot whose entry is stored under a file origin with this path.
    pub open spec fn file_slot(self, path: Seq<char>) -> int {
        choose|i: int| 0 <= i < self.spec_len() && is_file_origin(self.origin_at(i), path)
    }

    /// Under well-formedness, the slot holding a file path is unique.
    proof fn lemma_file_slot_unique(self, path: Seq<char>, i: int)
        requires
            self.wf(),
            0 <= i < self.spec_len(),
            is_file_origin(self.origin_at(i), path),
        ensures
            self.has_file(path),
            self.file_slot(path) == i,
    {
        assert(self.has_file(path));
        let j = self.file_slot(path);
        if i < j {
            assert(origin_eq(self.origin_at(i), self.origin_at(j)));
        } else if j < i {
            assert(origin_eq(self.origin_at(j), self.origin_at(i)));
        }
    }

    /// Try to insert a new source entry into the map.
    ///
    /// Returns [`Insert::Previous`] with the existing index if an entry with
    /// the same origin already exists in the map; the stored content is never
    /// overwritten. Otherwise the entry is appended and its fresh index is
    /// returned as [`Insert::Inserted`].
    pub fn insert(&mut self, origin: Origin, content: String) -> (r: Insert)
        requires
            old(self).wf(),
        ensures
            final(self).wf(),
            final(self).spec_id() == old(self).spec_id(),
            old(self).has_origin(origin) ==> {
                &&& r == Insert::Previous(final(self).index_at(old(self).slot_of(origin)))
                &&& *final(self) == *old(self)
            },
            !old(self).has_origin(origin) ==> {
                &&& r == Insert::Inserted(final(self).index_at(old(self).spec_len() as int))
                &&& final(self).spec_len() == old(self).spec_len() + 1
                &&& final(self).origin_at(old(self).spec_len() as int) == origin
                &&& final(self).content_at(old(self).spec_len() as int) == content@
                &&& forall|i: int|
                    0 <= i < old(self).spec_len() ==> final(self).origin_at(i) == old(
                        self,
                    ).origin_at(i) && final(self).content_at(i) == old(self).content_at(i)
            },
    {
        let mut k: usize = 0;
        while k < self.entries.len()
            invariant
                *self == *old(self),
                self.wf(),
                k <= self.entries@.len(),
                forall|j: int| 0 <= j < k ==> !origin_eq(self.entries@[j].origin, origin),
            decreases self.entries@.len() - k,
        {
            if self.entries[k].origin == origin {
                proof {
                    self.lemma_slot_unique(origin, k as int);
                }
                return Insert::Previous(SourceIndex { map_id: self.id, data_index: k });
            }
            k = k + 1;
        }
        let idx = SourceIndex { map_id: self.id, data_index: self.entries.len() };
        let ghost pre = *self;
        self.entries.push(SourceEntry { origin, content });
        proof {
            assert forall|i: int, j: int| 0 <= i < j < self.spec_len() implies !origin_eq(
                self.origin_at(i),
                self.origin_at(j),
            ) by {
                if j < pre.spec_len() {
                    assert(!origin_eq(pre.origin_at(i), pre.origin_at(j)));
                } else {
                    assert(!origin_eq(pre.entries@[i].origin, origin));
                }
            }
        }
        Insert::Inserted(idx)
    }

    /// Find the [`SourceIndex`] for a given [`Origin`] if there is one.
    pub fn origin_index(&self, origin: &Origin) -> (r: Option<SourceIndex>)
        requires
            self.wf(),
        ensures
            match r {
                Some(idx) => {
                    &&& self.has_origin(*origin)
                    &&& idx == self.index_at(self.slot_of(*origin))
                    &&& self.valid_index(idx)
                },
                None => !self.has_origin(*origin),
            },
    {
        let mut k: usize = 0;
        while k < self.entries.len()
            invariant
                self.wf(),
                k <= self.entries@.len(),
                forall|j: int| 0 <= j < k ==> !origin_eq(self.entries@[j].origin, *origin),
            decreases self.entries@.len() - k,
        {
            if self.entries[k].origin == *origin {
                proof {
                    self.lemma_slot_unique(*origin, k as int);
                }
                return Some(SourceIndex { map_id: self.id, data_index: k });
            }
            k = k + 1;
        }
        None
    }

    /// Find the [`SourceIndex`] for a given file path if there is one.
    pub fn file_index(&self, path: &str) -> (r: Option<SourceIndex>)
        requires
            self.wf(),
        ensures
            match r {
                Some(idx) => {
                    &&& self.has_file(path@)
                    &&& idx == self.index_at(self.file_slot(path@))
                    &&& self.valid_index(idx)
                },
                None => !self.has_file(path@),
            },
    {
        let needle = path.to_owned();
        let mut k: usize = 0;
        while k < self.entries.len()
            invariant
                self.wf(),
                needle@ == path@,
                k <= self.entries@.len(),
                forall|j: int| 0 <= j < k ==> !is_file_origin(self.entries@[j].origin, path@),
            decreases self.entries@.len() - k,
        {
            match &self.entries[k].origin {
                Origin::File(p) => {
                    if *p == needle {
                        proof {
                            self.lemma_file_slot_unique(path@, k as int);
                        }
                        return Some(SourceIndex { map_id: self.id, data_index: k });
                    }
                },
                Origin::Named(_) => {},
            }
            k = k + 1;
        }
        None
    }

    /// Determine if a file path is contained in this map.
    pub fn contains_file(&self, path: &str) -> (r: bool)
        requires
            self.wf(),
        ensures
            r == self.has_file(path@),
    {
        self.file_index(path).is_some()
    }

    /// Retrieve the [`Origin`] associated with a [`SourceIndex`].
    ///
    /// The index must have been issued by this map.
    pub fn origin(&self, idx: SourceIndex) -> (r: &Origin)
        requires
            self.valid_index(idx),
        ensures
            *r == self.origin_at(idx.spec_slot()),
    {
        &self.entries[idx.data_index].origin
    }

    /// Retrieve the content associated with a [`SourceIndex`].
    ///
    /// The index must have been issued by this map.
    pub fn content(&self, idx: SourceIndex) -> (r: &str)
        requires
            self.valid_index(idx),
        ensures
            r@ == self.content_at(idx.spec_slot()),
    {
        self.entries[idx.data_index].content.as_str()
    }

    /// All [`Origin`]s in this map, in insertion order.
    pub fn origins(&self) -> (r: Vec<Origin>)
        ensures
            r@.len() == self.spec_len(),
            forall|i: int| 0 <= i < r@.len() ==> r@[i] == self.origin_at(i),
    {
        let mut out: Vec<Origin> = Vec::new();
        let mut k: usize = 0;
        while k < self.entries.len()
            invariant
                k <= self.entries@.len(),
                out@.len() == k,
                forall|i: int| 0 <= i < k ==> out@[i] == self.entries@[i].origin,
            decreases self.entries@.len() - k,
        {
            out.push(clone_origin(&self.entries[k].origin));
            k = k + 1;
        }
        out
    }

    /// The origins of all entries, in insertion order.
    pub closed spec fn origin_seq(self) -> Seq<Origin> {
        self.entries@.map_values(|e: SourceEntry| e.origin)
    }

    /// All file paths in this map, in insertion order.
    pub fn files(&self) -> (r: Vec<String>)
        ensures
            r.deep_view() == file_paths(self.origin_seq()),
    {
        let mut out: Vec<String> = Vec::new();
        let mut k: usize = 0;
        while k < self.entries.len()
            invariant
                k <= self.entries@.len(),
                out.deep_view() == file_paths(self.origin_seq().take(k as int)),
            decreases self.entries@.len() - k,
        {
            proof {
                assert(self.origin_seq().take(k + 1).drop_last() =~= self.origin_seq().take(
                    k as int,
                ));
                assert(self.origin_seq().take(k + 1).last() == self.entries@[k as int].origin);
            }
            match &self.entries[k].origin {
                Origin::File(p) => {
                    let copied = p.clone();
                    out.push(copied);
                    proof {
                        assert(out.deep_view() =~= file_paths(self.origin_seq().take(k + 1)));
                    }
                },
                Origin::Named(_) => {
                    proof {
                        assert(out.deep_view() =~= file_paths(self.origin_seq().take(k + 1)));
                    }
                },
            }
            k = k + 1;
        }
        proof {
            assert(self.origin_seq().take(self.entries@.len() as int) =~= self.origin_seq());
        }
        out
    }

    /// Construct an empty [`SourceMap`].
    pub fn new() -> (r: Self)
        ensures
            r.wf(),
            r.spec_len() == 0,
    {
        SourceMap { id: fresh_map_id(), entries: Vec::new() }
    }

    /// Verify that a [`SourceIndex`] was issued by this map.
    pub fn contains(&self, idx: SourceIndex) -> (r: bool)
        ensures
            r == (idx.spec_map_id() == self.spec_id()),
    {
        self.id == idx.map_id
    }
}

impl SourceMap {
    /// The content stored at a slot, as UTF-8 bytes.
    pub open spec fn bytes_at(self, slot: int) -> Seq<u8> {
        encode_utf8(self.content_at(slot))
    }

    /// Whether an offset can be resolved against this map: its index was
    /// issued by this map, it points at or before the end of its entry's
    /// content, it falls on a character boundary, and the content is short
    /// enough for 1-based positions to stay representable.
    pub open spec fn resolvable(self, offset: Offset) -> bool {
        let slot = offset.spec_source_index().spec_slot();
        &&& self.valid_index(offset.spec_source_index())
        &&& self.bytes_at(slot).len() < usize::MAX
        &&& offset.spec_byte() <= self.bytes_at(slot).len()
        &&& is_char_boundary(self.bytes_at(slot), offset.spec_byte())
    }

    /// The snapshot of the line enclosing an offset: its text, its 1-based
    /// line number, and the 1-based byte column of the offset on it.
    pub open spec fn spec_location(self, offset: Offset) -> LocationModel {
        let bytes = self.bytes_at(offset.spec_source_index().spec_slot());
        let p = offset.spec_byte();
        LocationModel {
            line: decode_utf8(bytes.subrange(line_start(bytes, p), line_end(bytes, p))),
            line_number: line_number_at(bytes, p),
            column_number: column_number_at(bytes, p) as nat,
        }
    }

    /// The resolved origin of a primary offset with an optional secondary
    /// context offset.
    pub open spec fn spec_context_origin(
        self,
        offset: Offset,
        note: Seq<char>,
        context: Option<Offset>,
    ) -> OriginModel {
        OriginModel {
            origin: self.origin_at(offset.spec_source_index().spec_slot()),
            note,
            location: self.spec_location(offset),
            context: match context {
                Some(c) => Some(self.spec_location(c)),
                None => None,
            },
        }
    }

    /// Construct an [`Input`] for the content associated with a
    /// [`SourceIndex`].
    ///
    /// The index must have been issued by this map.
    pub fn input(&self, idx: SourceIndex) -> (r: Input<'_>)
        requires
            self.valid_index(idx),
        ensures
            r@.source == idx,
            r@.bytes == self.bytes_at(idx.spec_slot()),
            r@.byte == 0,
            r.wf(),
    {
        Input::new(idx, self.entries[idx.data_index].content.as_str())
    }

    /// Retrieve the string corresponding to a [`Span`] in the map.
    ///
    /// The span must have been formed from offsets issued for this map's
    /// entry, and both of its ends must lie on character boundaries of the
    /// content.
    pub fn span_str(&self, span: Span) -> (r: &str)
        requires
            span.wf(),
            self.valid_index(span.spec_start().spec_source_index()),
            span.spec_start().spec_byte() + span.spec_byte_len() <= self.bytes_at(
                span.spec_start().spec_source_index().spec_slot(),
            ).len(),
            is_char_boundary(
                self.bytes_at(span.spec_start().spec_source_index().spec_slot()),
                span.spec_start().spec_byte(),
            ),
            is_char_boundary(
                self.bytes_at(span.spec_start().spec_source_index().spec_slot()),
                span.spec_start().spec_byte() + span.spec_byte_len(),
            ),
        ensures
            r.spec_bytes() == self.bytes_at(
                span.spec_start().spec_source_index().spec_slot(),
            ).subrange(
                span.spec_start().spec_byte(),
                span.spec_start().spec_byte() + span.spec_byte_len(),
            ),
    {
        let ghost slot = span.spec_start().spec_source_index().spec_slot();
        let ghost bytes = self.bytes_at(slot);
        let content = self.content(span.source_index());
        let start = span.start().byte();
        let end = start + span.byte_len();
        proof {
            encode_utf8_valid_utf8(self.content_at(slot));
            lemma_boundary_in_prefix(bytes, start as int, end as int);
        }
        let head = content.split_at(end).0;
        let out = head.split_at(start).1;
        proof {
            assert(out.spec_bytes() =~= bytes.subrange(start as int, end as int));
        }
        out
    }

    /// The span of the line enclosing an offset.
    fn line_span(&self, offset: Offset) -> (r: Span)
        requires
            self.valid_index(offset.spec_source_index()),
            offset.spec_byte() <= self.bytes_at(offset.spec_source_index().spec_slot()).len(),
        ensures
            ({
                let bytes = self.bytes_at(offset.spec_source_index().spec_slot());
                let p = offset.spec_byte();
                &&& r.spec_start().spec_source_index() == offset.spec_source_index()
                &&& r.spec_start().spec_byte() == line_start(bytes, p)
                &&& r.spec_byte_len() == line_end(bytes, p) - line_start(bytes, p)
                &&& r.wf()
            }),
    {
        let ghost gbytes = self.bytes_at(offset.spec_source_index().spec_slot());
        let content = self.content(offset.source_index());
        let bytes = content.as_bytes();
        let p = offset.byte();
        let start = find_line_start(bytes, p);
        let end = find_line_end(bytes, p);
        proof {
            lemma_line_start_props(gbytes, p as int);
            lemma_line_end_props(gbytes, p as int);
        }
        Span::new(Offset::new(offset.source_index(), start), end - start)
    }

    /// Calculate an offset's byte position relative to the beginning of the
    /// line it is on.
    pub fn byte_offset_on_line(&self, offset: Offset) -> (r: usize)
        requires
            self.valid_index(offset.spec_source_index()),
            offset.spec_byte() <= self.bytes_at(offset.spec_source_index().spec_slot()).len(),
        ensures
            r == offset.spec_byte() - line_start(
                self.bytes_at(offset.spec_source_index().spec_slot()),
                offset.spec_byte(),
            ),
    {
        proof {
            lemma_line_start_props(
                self.bytes_at(offset.spec_source_index().spec_slot()),
                offset.spec_byte(),
            );
        }
        let line = self.line_span(offset);
        offset.byte() - line.start().byte()
    }

    /// Resolve an offset to the snapshot of its enclosing line.
    pub(crate) fn context_error_location(&self, offset: Offset) -> (r: ContextErrorLocation)
        requires
            self.resolvable(offset),
        ensures
            r@ == self.spec_location(offset),
    {
        let ghost slot = offset.spec_source_index().spec_slot();
        let ghost gbytes = self.bytes_at(slot);
        let content = self.content(offset.source_index());
        let bytes = content.as_bytes();
        let p = offset.byte();
        let start = find_line_start(bytes, p);
        let end = find_line_end(bytes, p);
        let count = count_newlines(bytes, p);
        proof {
            encode_utf8_valid_utf8(self.content_at(slot));
            lemma_line_start_props(gbytes, p as int);
            lemma_line_end_props(gbytes, p as int);
            lemma_newline_count_le(gbytes, p as int);
            lemma_line_start_boundary(gbytes, p as int);
            lemma_line_end_boundary(gbytes, p as int);
            lemma_boundary_in_prefix(gbytes, start as int, end as int);
        }
        let head = content.split_at(end).0;
        let line_str = head.split_at(start).1;
        let line = line_str.to_owned();
        proof {
            assert(line_str.spec_bytes() =~= gbytes.subrange(start as int, end as int));
            encode_utf8_decode_utf8(line_str@);
        }
        ContextErrorLocation::new(line, count + 1, p - start + 1)
    }

    /// Capture a [`ContextErrorOrigin`] for a given [`Offset`], optionally
    /// together with a secondary context [`Offset`].
    pub fn context_error_origin(
        &self,
        offset: Offset,
        note: &'static str,
        context: Option<Offset>,
    ) -> (r: ContextErrorOrigin)
        requires
            self.resolvable(offset),
            context matches Some(c) ==> self.resolvable(c),
        ensures
            r@ == self.spec_context_origin(offset, note@, context),
    {
        let location = self.context_error_location(offset);
        let context_location = match context {
            Some(c) => Some(self.context_error_location(c)),
            None => None,
        };
        let origin = clone_origin(self.origin(offset.source_index()));
        ContextErrorOrigin::new(origin, note, location, context_location)
    }

    /// Register a gathered batch of sources, in order.
    ///
    /// Sources already present are reported as [`Insert::Previous`] without
    /// touching the map; new contents are appended in order and reported as
    /// [`Insert::Inserted`]. Gathering must have resolved every source that
    /// is already stored to [`PendingSource::Known`]: the new origins collide
    /// neither with stored entries nor with each other.
    ///
    /// All insertions of a batch happen in this single call. A caller that
    /// first gathers all contents and only then registers them therefore
    /// never leaves the map partially updated when gathering fails midway.
    pub fn insert_many(&mut self, batch: Vec<PendingSource>) -> (r: Vec<Insert>)
        requires
            old(self).wf(),
            forall|i: int|
                0 <= i < batch@.len() ==> ((#[trigger] batch@[i]) matches PendingSource::New(o, _)
                    ==> !old(self).has_origin(o)),
            forall|i: int, j: int|
                #![trigger batch@[i], batch@[j]]
                0 <= i < j < batch@.len() ==> (batch@[i] matches PendingSource::New(oi, _) ==> (
                batch@[j] matches PendingSource::New(oj, _) ==> !origin_eq(oi, oj))),
        ensures
            final(self).wf(),
            final(self).spec_id() == old(self).spec_id(),
            final(self).spec_len() == old(self).spec_len() + new_origins(batch@).len(),
            forall|j: int|
                0 <= j < old(self).spec_len() ==> final(self).origin_at(j) == old(self).origin_at(
                    j,
                ) && final(self).content_at(j) == old(self).content_at(j),
            forall|j: int|
                0 <= j < new_origins(batch@).len() ==> final(self).origin_at(
                    old(self).spec_len() + j,
                ) == new_origins(batch@)[j] && final(self).content_at(old(self).spec_len() + j)
                    == new_contents(batch@)[j],
            r@.len() == batch@.len(),
            forall|i: int|
                0 <= i < batch@.len() ==> ((#[trigger] batch@[i]) matches PendingSource::Known(idx)
                    ==> r@[i] == Insert::Previous(idx)),
            forall|i: int|
                0 <= i < batch@.len() ==> ((#[trigger] batch@[i]) matches PendingSource::New(o, _)
                    ==> r@[i] == Insert::Inserted(
                    final(self).index_at(
                        old(self).spec_len() + new_origins(batch@.take(i)).len() as int,
                    ),
                )),
    {
        let ghost orig = batch@;
        let ghost base = *old(self);
        let mut rest = batch;
        let mut out: Vec<Insert> = Vec::new();
        while rest.len() > 0
            invariant
                self.wf(),
                self.spec_id() == base.spec_id(),
                out@.len() + rest@.len() == orig.len(),
                rest@ == orig.skip(out@.len() as int),
                forall|i: int|
                    0 <= i < orig.len() ==> ((#[trigger] orig[i]) matches PendingSource::New(o, _)
                        ==> !base.has_origin(o)),
                forall|i: int, j: int|
                    #![trigger orig[i], orig[j]]
                    0 <= i < j < orig.len() ==> (orig[i] matches PendingSource::New(oi, _) ==> (
                    orig[j] matches PendingSource::New(oj, _) ==> !origin_eq(oi, oj))),
                self.spec_len() == base.spec_len() + new_origins(
                    orig.take(out@.len() as int),
                ).len(),
                forall|j: int|
                    0 <= j < base.spec_len() ==> self.origin_at(j) == base.origin_at(j)
                        && self.content_at(j) == base.content_at(j),
                forall|j: int|
                    0 <= j < new_origins(orig.take(out@.len() as int)).len() ==> self.origin_at(
                        base.spec_len() + j,
                    ) == new_origins(orig.take(out@.len() as int))[j] && self.content_at(
                        base.spec_len() + j,
                    ) == new_contents(orig.take(out@.len() as int))[j],
                forall|i: int|
                    0 <= i < out@.len() ==> ((#[trigger] orig[i]) matches PendingSource::Known(idx)
                        ==> out@[i] == Insert::Previous(idx)),
                forall|i: int|
                    0 <= i < out@.len() ==> ((#[trigger] orig[i]) matches PendingSource::New(o, _)
                        ==> out@[i] == Insert::Inserted(
                        base.index_at(base.spec_len() + new_origins(orig.take(i)).len() as int),
                    )),
            decreases rest@.len(),
        {
            let ghost i = out@.len() as int;
            let ghost pre = *self;
            let p = rest.remove(0);
            proof {
                assert(p == orig[i]);
                assert(rest@ =~= orig.skip(i + 1));
                assert(orig.take(i + 1).drop_last() =~= orig.take(i));
                assert(orig.take(i + 1).last() == orig[i]);
                lemma_new_lens(orig.take(i));
            }
            match p {
                PendingSource::Known(idx) => {
                    out.push(Insert::Previous(idx));
                },
                PendingSource::New(o, c) => {
                    let ghost go = o;
                    let ghost gc = c@;
                    proof {
                        assert(!self.has_origin(go)) by {
                            if self.has_origin(go) {
                                let s = choose|s: int|
                                    0 <= s < self.spec_len() && origin_eq(self.origin_at(s), go);
                                if s < base.spec_len() {
                                    assert(origin_eq(base.origin_at(s), go));
                                    assert(base.has_origin(go));
                                } else {
                                    let jj = s - base.spec_len();
                                    let news = new_origins(orig.take(i));
                                    assert(self.origin_at(s) == news[jj]);
                                    lemma_new_origin_source(orig.take(i), jj);
                                    let t = choose|t: int|
                                        #![trigger orig.take(i)[t]]
                                        0 <= t < orig.take(i).len() && (orig.take(i)[t]
                                            matches PendingSource::New(ot, _) && ot == news[jj]);
                                    assert(orig[t] == orig.take(i)[t]);
                                    assert(orig[t] matches PendingSource::New(ot, _) && !origin_eq(
                                        ot,
                                        go,
                                    ));
                                }
                            }
                        }
                    }
                    let res = self.insert(o, c);
                    proof {
                        assert(res == Insert::Inserted(pre.index_at(pre.spec_len() as int)));
                        assert(pre.index_at(pre.spec_len() as int) == base.index_at(
                            base.spec_len() + new_origins(orig.take(i)).len() as int,
                        ));
                        assert(new_origins(orig.take(i + 1)) =~= new_origins(orig.take(i)).push(
                            go,
                        ));
                        assert(new_contents(orig.take(i + 1)) =~= new_contents(orig.take(i)).push(
                            gc,
                        ));
                    }
                    out.push(res);
                },
            }
            proof {
                if orig[i] matches PendingSource::Known(_) {
                    assert(new_origins(orig.take(i + 1)) =~= new_origins(orig.take(i)));
                    assert(new_contents(orig.take(i + 1)) =~= new_contents(orig.take(i)));
                }
            }
        }
        proof {
            assert(orig.take(orig.len() as int) =~= orig);
            assert forall|i: int|
                0 <= i < orig.len() && (#[trigger] orig[i]) matches PendingSource::New(o, _) implies
                new_origins(orig.take(i)) == new_origins(batch@.take(i)) by {
                assert(orig.take(i) =~= batch@.take(i));
            }
        }
        out
    }
}

impl Default for SourceMap {
    fn default() -> (r: Self)
        ensures
            r.wf(),
            r.spec_len() == 0,
    {
        SourceMap::new()
    }
}

} // verus!
