//! Reading a stream in chunks and handing the chunks to one consumer over a bounded channel.
//!
//! [`ChunkReader`] decides what to do next: read more, offer an event, or stop. The reads and sends
//! themselves are done by its caller, who reports how they went.

use crate::buffers;
use crate::output_stream::event::{Chunk, EventView, StreamEvent};
use crate::output_stream::num_bytes::NumBytes;
use atomic_take::AtomicTake;
use bytes::BytesMut;
use vstd::prelude::*;

verus! {

/// A slot that a value can be taken out of once, by whoever comes first.
#[verifier::external_type_specification]
#[verifier::external_body]
#[verifier::reject_recursive_types(T)]
pub struct ExAtomicTake<T>(AtomicTake<T>);

/// [`AtomicTake::new`] makes a slot that holds the value. Nothing is claimed of the slot, whose
/// contents change behind shared references.
pub assume_specification<T>[ AtomicTake::<T>::new ](value: T) -> (r: AtomicTake<T>);

/// [`AtomicTake::take`] hands the value to the first caller and `None` to all others. Who comes
/// first is up to the threads that share the slot, so nothing is claimed of the result.
pub assume_specification<T>[ AtomicTake::<T>::take ](slot: &AtomicTake<T>) -> (r: Option<T>);

/// The complaint about a second consumer of the named stream.
pub open spec fn second_consumer_text(stream_name: Seq<char>) -> Seq<char> {
    "Cannot create multiple consumers on SingleSubscriberOutputStream (stream: '"@ + stream_name
        + "'). Only one inspector or collector can be active at a time. Use .spawn_broadcast() instead of .spawn_single_subscriber() to support multiple consumers."@
}

/// Holds the receiving end of a stream for its only consumer.
#[verifier::reject_recursive_types(T)]
pub struct ReceiverSlot<T> {
    receiver: AtomicTake<T>,
    stream_name: &'static str,
}

impl<T> ReceiverSlot<T> {
    /// The name of the stream.
    pub closed spec fn spec_stream_name(&self) -> &'static str {
        self.stream_name
    }

    /// Whether `taken` can be what taking out of the slot gives.
    pub closed spec fn may_give(&self, taken: Option<T>) -> bool {
        call_ensures(AtomicTake::<T>::take, (&self.receiver,), taken)
    }

    /// Whether the slot was made of `receiver`.
    pub closed spec fn is_made_of(&self, receiver: T) -> bool {
        call_ensures(AtomicTake::<T>::new, (receiver,), self.receiver)
    }

    /// Holds the receiver of the named stream.
    pub fn new(receiver: T, stream_name: &'static str) -> (r: Self)
        ensures
            r.is_made_of(receiver),
            r.spec_stream_name() == stream_name,
    {
        Self { receiver: AtomicTake::new(receiver), stream_name }
    }

    /// Hands out the receiver, or complains if it was handed out before. Which of several callers
    /// gets it depends on their timing, so the result is stated in terms of what the slot gave.
    pub fn take(&self) -> (r: Result<T, String>)
        ensures
            exists|taken: Option<T>|
                {
                    &&& #[trigger] self.may_give(taken)
                    &&& match taken {
                        Some(receiver) => r == Ok::<T, String>(receiver),
                        None => r matches Err(text) && text@ == second_consumer_text(
                            self.spec_stream_name()@,
                        ),
                    }
                },
    {
        let taken = self.receiver.take();
        assert(self.may_give(taken));
        claim_receiver(taken, self.stream_name)
    }
}

/// The receiver that was taken, or the complaint about a second consumer if there was none left.
pub fn claim_receiver<T>(taken: Option<T>, stream_name: &'static str) -> (r: Result<T, String>)
    ensures
        match taken {
            Some(receiver) => r == Ok::<T, String>(receiver),
            None => r matches Err(text) && text@ == second_consumer_text(stream_name@),
        },
        r matches Err(text) ==> text@
            == "Cannot create multiple consumers on SingleSubscriberOutputStream (stream: '"@
            + stream_name@
            + "'). Only one inspector or collector can be active at a time. Use .spawn_broadcast() instead of .spawn_single_subscriber() to support multiple consumers."@,
{
    match taken {
        Some(receiver) => Ok(receiver),
        None => {
            let mut text =
                "Cannot create multiple consumers on SingleSubscriberOutputStream (stream: '".to_owned();
            text.append(stream_name);
            text.append(
                "'). Only one inspector or collector can be active at a time. Use .spawn_broadcast() instead of .spawn_single_subscriber() to support multiple consumers.",
            );
            Err(text)
        },
    }
}

/// What a stream reader does when the channel to its consumer is full.
#[derive(Debug, Clone, Copy, PartialEq, Eq, Structural)]
pub enum BackpressureControl {
    /// Drop the chunk that does not fit, and tell the consumer of the gap before the next chunk
    /// that does.
    DropLatestIncomingIfBufferFull,
    /// Wait until the consumer made room. No chunk is lost, and the process may have to wait.
    BlockUntilBufferHasSpace,
}

/// How offering an event without waiting went.
#[derive(Debug, Clone, Copy, PartialEq, Eq, Structural)]
pub enum TrySendOutcome {
    /// The event is in the channel.
    Sent,
    /// The channel had no room, the event is gone.
    Full,
    /// No consumer is left.
    Closed,
}

/// How sending an event with waiting went.
#[derive(Debug, Clone, Copy, PartialEq, Eq, Structural)]
pub enum SendOutcome {
    /// The event is in the channel.
    Sent,
    /// No consumer is left.
    Closed,
}

/// What a [`ChunkReader`] wants done next.
#[derive(Debug)]
pub enum ReaderAction {
    /// Read from the stream into the buffer, then call [`ChunkReader::on_read`].
    Read(BytesMut),
    /// Offer the event without waiting, then call [`ChunkReader::on_try_sent`].
    TrySend(StreamEvent),
    /// Send the event, waiting for room, then call [`ChunkReader::on_sent`].
    Send(StreamEvent),
    /// Nothing, the reader is done.
    Stop,
}

/// What an action of the reader says.
pub enum ActionView {
    /// Read into a buffer that holds these bytes.
    Read(Seq<u8>),
    /// Offer this event without waiting.
    TrySend(EventView),
    /// Send this event, waiting for room.
    Send(EventView),
    /// Done.
    Stop,
}

impl View for ReaderAction {
    type V = ActionView;

    open spec fn view(&self) -> ActionView {
        match *self {
            ReaderAction::Read(buffer) => ActionView::Read(buffers::buffered(buffer)),
            ReaderAction::TrySend(event) => ActionView::TrySend(event@),
            ReaderAction::Send(event) => ActionView::Send(event@),
            ReaderAction::Stop => ActionView::Stop,
        }
    }
}

/// What the reader is waiting for.
#[derive(Debug)]
enum Phase {
    Reading,
    OfferingGap(Chunk),
    OfferingChunk,
    SendingChunk,
    SendingFinalGap,
    SendingEof,
    Stopped,
}

/// What a reader is waiting for.
pub enum PhaseView {
    /// The outcome of a read.
    Reading,
    /// The outcome of offering a gap marker. The chunk with these bytes comes next.
    OfferingGap(Seq<u8>),
    /// The outcome of offering a chunk.
    OfferingChunk,
    /// The outcome of sending a chunk.
    SendingChunk,
    /// The outcome of sending the gap marker that is still owed at the end of the stream.
    SendingFinalGap,
    /// The outcome of sending the end marker.
    SendingEof,
    /// Nothing.
    Stopped,
}

/// The state of a [`ChunkReader`].
pub struct ReaderState {
    /// The largest chunk that is sent.
    pub chunk_size: nat,
    /// What happens when the channel is full.
    pub backpressure: BackpressureControl,
    /// Bytes that were read and are not part of any event yet.
    pub pending: Seq<u8>,
    /// How many offers in a row found the channel full.
    pub lagged: nat,
    /// Whether bytes were dropped of which the consumer does not know yet.
    pub gap_pending: bool,
    /// What the reader is waiting for.
    pub phase: PhaseView,
}

/// The bytes of the next chunk, and the bytes behind it.
pub open spec fn split_chunk(pending: Seq<u8>, chunk_size: nat) -> (Seq<u8>, Seq<u8>) {
    let len = if chunk_size < pending.len() {
        chunk_size as int
    } else {
        pending.len() as int
    };
    (pending.take(len), pending.skip(len))
}

impl ReaderState {
    /// The state before the first read.
    pub open spec fn initial(chunk_size: nat, backpressure: BackpressureControl) -> ReaderState {
        ReaderState {
            chunk_size,
            backpressure,
            pending: Seq::empty(),
            lagged: 0,
            gap_pending: false,
            phase: PhaseView::Reading,
        }
    }

    /// Goes on with the bytes that are pending, or with the next read.
    pub open spec fn proceed(self) -> (ReaderState, ActionView) {
        if self.pending.len() == 0 {
            (ReaderState { phase: PhaseView::Reading, ..self }, ActionView::Read(self.pending))
        } else {
            let (chunk, rest) = split_chunk(self.pending, self.chunk_size);
            match self.backpressure {
                BackpressureControl::BlockUntilBufferHasSpace => (
                    ReaderState { pending: rest, phase: PhaseView::SendingChunk, ..self },
                    ActionView::Send(EventView::Chunk(chunk)),
                ),
                BackpressureControl::DropLatestIncomingIfBufferFull => if self.gap_pending {
                    (
                        ReaderState { pending: rest, phase: PhaseView::OfferingGap(chunk), ..self },
                        ActionView::TrySend(EventView::Gap),
                    )
                } else {
                    (
                        ReaderState { pending: rest, phase: PhaseView::OfferingChunk, ..self },
                        ActionView::TrySend(EventView::Chunk(chunk)),
                    )
                },
            }
        }
    }

    /// Ends because no consumer is left.
    pub open spec fn stop(self) -> (ReaderState, ActionView) {
        (ReaderState { phase: PhaseView::Stopped, ..self }, ActionView::Stop)
    }

    /// Sends the end marker.
    pub open spec fn send_eof(self) -> (ReaderState, ActionView) {
        (
            ReaderState { phase: PhaseView::SendingEof, ..self },
            ActionView::Send(EventView::Eof),
        )
    }

    /// A read ended that added `bytes_read` bytes, with `contents` in the buffer now.
    pub open spec fn after_read(self, contents: Seq<u8>, bytes_read: nat) -> (
        ReaderState,
        ActionView,
    ) {
        let filled = ReaderState { pending: contents, ..self };
        if bytes_read != 0 {
            filled.proceed()
        } else if self.gap_pending && self.backpressure
            == BackpressureControl::DropLatestIncomingIfBufferFull {
            (
                ReaderState { phase: PhaseView::SendingFinalGap, ..filled },
                ActionView::Send(EventView::Gap),
            )
        } else {
            filled.send_eof()
        }
    }

    /// An event was offered.
    pub open spec fn after_try_sent(self, outcome: TrySendOutcome) -> (ReaderState, ActionView) {
        match outcome {
            TrySendOutcome::Closed => self.stop(),
            TrySendOutcome::Full => (ReaderState {
                lagged: self.lagged + 1,
                gap_pending: true,
                ..self
            }).proceed(),
            TrySendOutcome::Sent => match self.phase {
                PhaseView::OfferingGap(chunk) => (
                    ReaderState {
                        lagged: 0,
                        gap_pending: false,
                        phase: PhaseView::OfferingChunk,
                        ..self
                    },
                    ActionView::TrySend(EventView::Chunk(chunk)),
                ),
                _ => (ReaderState { lagged: 0, ..self }).proceed(),
            },
        }
    }

    /// An event was sent.
    pub open spec fn after_sent(self, outcome: SendOutcome) -> (ReaderState, ActionView) {
        match (outcome, self.phase) {
            (SendOutcome::Sent, PhaseView::SendingChunk) => self.proceed(),
            (SendOutcome::Sent, PhaseView::SendingFinalGap) => (ReaderState {
                gap_pending: false,
                ..self
            }).send_eof(),
            _ => self.stop(),
        }
    }
}

/// Reads a stream in chunks of bounded size and hands them to one consumer.
///
/// A single buffer is read into. Every chunk sent is a frozen slice of that buffer. Once chunks
/// were handled by the consumer, the space of the chunk is reclaimed and reused.
#[derive(Debug)]
pub struct ChunkReader {
    chunk_size: usize,
    backpressure: BackpressureControl,
    buffer: BytesMut,
    lagged: usize,
    gap_pending: bool,
    phase: Phase,
}

impl View for ChunkReader {
    type V = ReaderState;

    closed spec fn view(&self) -> ReaderState {
        ReaderState {
            chunk_size: self.chunk_size as nat,
            backpressure: self.backpressure,
            pending: buffers::buffered(self.buffer),
            lagged: self.lagged as nat,
            gap_pending: self.gap_pending,
            phase: match self.phase {
                Phase::Reading => PhaseView::Reading,
                Phase::OfferingGap(chunk) => PhaseView::OfferingGap(chunk@),
                Phase::OfferingChunk => PhaseView::OfferingChunk,
                Phase::SendingChunk => PhaseView::SendingChunk,
                Phase::SendingFinalGap => PhaseView::SendingFinalGap,
                Phase::SendingEof => PhaseView::SendingEof,
                Phase::Stopped => PhaseView::Stopped,
            },
        }
    }
}

impl ChunkReader {
    /// Creates a reader that sends chunks of at most `chunk_size`, and says what to do first.
    #[must_use]
    pub fn new(chunk_size: NumBytes, backpressure: BackpressureControl) -> (r: (Self, ReaderAction))
        requires
            0 < chunk_size@ <= isize::MAX,
        ensures
            (r.0@, r.1@) == ReaderState::initial(chunk_size@, backpressure).proceed(),
    {
        let chunk_size: usize = chunk_size.bytes();
        let mut reader = Self {
            chunk_size,
            backpressure,
            buffer: BytesMut::with_capacity(chunk_size),
            lagged: 0,
            gap_pending: false,
            phase: Phase::Reading,
        };
        let action = reader.proceed();
        (reader, action)
    }

    /// How many offers in a row found the channel full.
    #[must_use]
    pub fn lagged(&self) -> (r: usize)
        ensures
            r == self@.lagged,
    {
        self.lagged
    }

    /// Takes the buffer back after a read that added `bytes_read` bytes to it. A read of no bytes
    /// is the end of the stream.
    pub fn on_read(&mut self, buffer: BytesMut, bytes_read: usize) -> (r: ReaderAction)
        requires
            old(self)@.phase is Reading,
            old(self)@.chunk_size > 0,
        ensures
            (final(self)@, r@) == old(self)@.after_read(
                buffers::buffered(buffer),
                bytes_read as nat,
            ),
    {
        self.buffer = buffer;
        if bytes_read != 0 {
            return self.proceed();
        }
        match self.backpressure {
            BackpressureControl::DropLatestIncomingIfBufferFull => {
                if self.gap_pending {
                    self.phase = Phase::SendingFinalGap;
                    return ReaderAction::Send(StreamEvent::Gap);
                }
            },
            BackpressureControl::BlockUntilBufferHasSpace => {},
        }
        self.phase = Phase::SendingEof;
        ReaderAction::Send(StreamEvent::Eof)
    }

    /// Takes note of how the event went that was offered without waiting.
    pub fn on_try_sent(&mut self, outcome: TrySendOutcome) -> (r: ReaderAction)
        requires
            old(self)@.phase is OfferingGap || old(self)@.phase is OfferingChunk,
            old(self)@.chunk_size > 0,
            outcome == TrySendOutcome::Full ==> old(self)@.lagged < usize::MAX,
        ensures
            (final(self)@, r@) == old(self)@.after_try_sent(outcome),
    {
        match outcome {
            TrySendOutcome::Closed => {
                self.phase = Phase::Stopped;
                ReaderAction::Stop
            },
            TrySendOutcome::Full => {
                self.lagged += 1;
                self.gap_pending = true;
                self.proceed()
            },
            TrySendOutcome::Sent => {
                self.lagged = 0;
                let mut phase = Phase::OfferingChunk;
                std::mem::swap(&mut phase, &mut self.phase);
                match phase {
                    Phase::OfferingGap(chunk) => {
                        self.gap_pending = false;
                        ReaderAction::TrySend(StreamEvent::Chunk(chunk))
                    },
                    _ => self.proceed(),
                }
            },
        }
    }

    /// Takes note of how the event went that was sent with waiting.
    pub fn on_sent(&mut self, outcome: SendOutcome) -> (r: ReaderAction)
        requires
            old(self)@.phase is SendingChunk || old(self)@.phase is SendingFinalGap || old(
                self,
            )@.phase is SendingEof,
            old(self)@.chunk_size > 0,
        ensures
            (final(self)@, r@) == old(self)@.after_sent(outcome),
    {
        match (outcome, &self.phase) {
            (SendOutcome::Sent, Phase::SendingChunk) => self.proceed(),
            (SendOutcome::Sent, Phase::SendingFinalGap) => {
                self.gap_pending = false;
                self.phase = Phase::SendingEof;
                ReaderAction::Send(StreamEvent::Eof)
            },
            _ => {
                self.phase = Phase::Stopped;
                ReaderAction::Stop
            },
        }
    }

    /// Goes on with the bytes that are in the buffer, or with the next read.
    fn proceed(&mut self) -> (r: ReaderAction)
        requires
            old(self)@.chunk_size > 0,
        ensures
            (final(self)@, r@) == old(self)@.proceed(),
    {
        if self.buffer.is_empty() {
            let mut buffer = BytesMut::new();
            std::mem::swap(&mut buffer, &mut self.buffer);
            let _ = buffer.try_reclaim(self.chunk_size);
            self.phase = Phase::Reading;
            assert(buffers::buffered(buffer) =~= Seq::<u8>::empty());
            return ReaderAction::Read(buffer);
        }
        let split_to: usize = if self.chunk_size < self.buffer.len() {
            self.chunk_size
        } else {
            self.buffer.len()
        };
        let chunk = Chunk::from(self.buffer.split_to(split_to).freeze());
        match self.backpressure {
            BackpressureControl::DropLatestIncomingIfBufferFull => {
                if self.gap_pending {
                    self.phase = Phase::OfferingGap(chunk);
                    ReaderAction::TrySend(StreamEvent::Gap)
                } else {
                    self.phase = Phase::OfferingChunk;
                    ReaderAction::TrySend(StreamEvent::Chunk(chunk))
                }
            },
            BackpressureControl::BlockUntilBufferHasSpace => {
                self.phase = Phase::SendingChunk;
                ReaderAction::Send(StreamEvent::Chunk(chunk))
            },
        }
    }
}

} // verus!
