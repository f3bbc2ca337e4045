//! The events that a stream backend sends to its consumers.

use crate::buffers;
use crate::error::StreamReadError;
use bytes::Bytes;
use vstd::prelude::*;
use vstd::std_specs::cmp::PartialEqSpecImpl;
use vstd::std_specs::convert::FromSpecImpl;

verus! {

/// A "chunk" is an arbitrarily sized byte slice read from the underlying stream.
/// The slices' length is at max of the previously configured maximum `chunk_size`.
///
/// We use the word "chunk", as it is often used when processing collections in segments or when
/// dealing with buffered I/O operations where data arrives in variable-sized pieces.
///
/// In contrast to this, a "frame" typically carries more specific semantics. It usually implies a
/// complete logical unit with defined boundaries within a protocol or format. This we do not have
/// here.
///
/// Note: If the underlying stream is of lower buffer size, chunks of full `chunk_size` length may
/// never be observed.
#[derive(Debug, PartialEq, Eq, Hash)]
pub struct Chunk(pub(crate) Bytes);

impl View for Chunk {
    type V = Seq<u8>;

    closed spec fn view(&self) -> Seq<u8> {
        buffers::frozen(self.0)
    }
}

impl Clone for Chunk {
    fn clone(&self) -> (r: Self)
        ensures
            r@ == self@,
    {
        Self(self.0.clone())
    }
}

impl AsRef<[u8]> for Chunk {
    fn as_ref(&self) -> (r: &[u8])
        ensures
            r@ == self@,
    {
        &self.0
    }
}

impl From<Bytes> for Chunk {
    fn from(bytes: Bytes) -> (r: Self)
        ensures
            r@ == buffers::frozen(bytes),
    {
        Self(bytes)
    }
}

impl FromSpecImpl<Bytes> for Chunk {
    open spec fn obeys_from_spec() -> bool {
        true
    }

    closed spec fn from_spec(bytes: Bytes) -> Chunk {
        Chunk(bytes)
    }
}

impl From<&'static [u8]> for Chunk {
    fn from(bytes: &'static [u8]) -> (r: Self)
        ensures
            r@ == bytes@,
    {
        Self(Bytes::from_static(bytes))
    }
}

impl FromSpecImpl<&'static [u8]> for Chunk {
    open spec fn obeys_from_spec() -> bool {
        false
    }

    open spec fn from_spec(bytes: &'static [u8]) -> Chunk {
        arbitrary()
    }
}

impl<const N: usize> From<&'static [u8; N]> for Chunk {
    fn from(bytes: &'static [u8; N]) -> (r: Self)
        ensures
            r@ == bytes@,
    {
        Self(Bytes::from_static(bytes))
    }
}

impl<const N: usize> FromSpecImpl<&'static [u8; N]> for Chunk {
    open spec fn obeys_from_spec() -> bool {
        false
    }

    open spec fn from_spec(bytes: &'static [u8; N]) -> Chunk {
        arbitrary()
    }
}

/// Whether two slices hold the same bytes.
fn same_bytes(left: &[u8], right: &[u8]) -> (r: bool)
    ensures
        r == (left@ == right@),
{
    if left.len() != right.len() {
        return false;
    }
    let mut i: usize = 0;
    while i < left.len()
        invariant
            left@.len() == right@.len(),
            i <= left@.len(),
            forall|j: int| 0 <= j < i ==> left@[j] == right@[j],
        decreases left@.len() - i,
    {
        if left[i] != right[i] {
            return false;
        }
        i += 1;
    }
    assert(left@ =~= right@);
    true
}

impl PartialEq<[u8]> for Chunk {
    fn eq(&self, other: &[u8]) -> (r: bool)
        ensures
            r == (self@ == other@),
    {
        same_bytes(self.as_ref(), other)
    }
}

impl PartialEqSpecImpl<[u8]> for Chunk {
    open spec fn obeys_eq_spec() -> bool {
        true
    }

    open spec fn eq_spec(&self, other: &[u8]) -> bool {
        self@ == other@
    }
}

impl PartialEq<&[u8]> for Chunk {
    fn eq(&self, other: &&[u8]) -> (r: bool)
        ensures
            r == (self@ == other@),
    {
        same_bytes(self.as_ref(), other)
    }
}

impl PartialEqSpecImpl<&[u8]> for Chunk {
    open spec fn obeys_eq_spec() -> bool {
        true
    }

    open spec fn eq_spec(&self, other: &&[u8]) -> bool {
        self@ == other@
    }
}

impl<const N: usize> PartialEq<&[u8; N]> for Chunk {
    fn eq(&self, other: &&[u8; N]) -> (r: bool)
        ensures
            r == (self@ == other@),
    {
        same_bytes(self.as_ref(), other.as_slice())
    }
}

impl<const N: usize> PartialEqSpecImpl<&[u8; N]> for Chunk {
    open spec fn obeys_eq_spec() -> bool {
        true
    }

    open spec fn eq_spec(&self, other: &&[u8; N]) -> bool {
        self@ == other@
    }
}

/// Event emitted by an output stream backend.
///
/// Stream backends send these events to communicate raw process output, deliberate loss of output
/// when a bounded buffer cannot keep up, and the terminal end-of-stream marker.
#[derive(Debug, PartialEq, Eq)]
pub enum StreamEvent {
    /// Bytes read from the underlying stdout or stderr stream.
    Chunk(Chunk),
    /// Marker indicating that one or more chunks were skipped.
    ///
    /// This can be emitted when a lossy backend drops buffered output for a slow consumer. Line
    /// parsers use it to discard any partially accumulated line so data from before and after the
    /// gap is not joined into a line that never existed in the source stream.
    Gap,
    /// End of the underlying stdout or stderr stream.
    ///
    /// This is the terminal event for the stream. After it is emitted, no more events are expected.
    Eof,
    /// The underlying stdout or stderr stream failed while being read.
    ///
    /// This is terminal, but distinct from EOF because the stream did not end cleanly.
    ReadError(StreamReadError),
}

/// What a stream event says.
pub enum EventView {
    /// These bytes were read.
    Chunk(Seq<u8>),
    /// One or more chunks were skipped.
    Gap,
    /// The stream ended.
    Eof,
    /// The stream failed.
    ReadError(StreamReadError),
}

impl View for StreamEvent {
    type V = EventView;

    open spec fn view(&self) -> EventView {
        match *self {
            StreamEvent::Chunk(chunk) => EventView::Chunk(chunk@),
            StreamEvent::Gap => EventView::Gap,
            StreamEvent::Eof => EventView::Eof,
            StreamEvent::ReadError(error) => EventView::ReadError(error),
        }
    }
}

/// What the next event of a stream says, if there is one.
pub open spec fn next_view(event: Option<StreamEvent>) -> Option<EventView> {
    match event {
        Some(event) => Some(event@),
        None => None,
    }
}

impl Clone for StreamEvent {
    fn clone(&self) -> (r: Self)
        ensures
            r@ == self@,
    {
        match self {
            StreamEvent::Chunk(chunk) => StreamEvent::Chunk(chunk.clone()),
            StreamEvent::Gap => StreamEvent::Gap,
            StreamEvent::Eof => StreamEvent::Eof,
            StreamEvent::ReadError(error) => StreamEvent::ReadError(error.clone()),
        }
    }
}

impl StreamEvent {
    /// Convenience constructor for [`StreamEvent::Chunk`].
    #[must_use]
    pub fn chunk<C: Into<Chunk>>(chunk: C) -> (r: Self)
        ensures
            r matches StreamEvent::Chunk(inner) && call_ensures(C::into, (chunk,), inner),
    {
        Self::Chunk(chunk.into())
    }
}

} // verus!
