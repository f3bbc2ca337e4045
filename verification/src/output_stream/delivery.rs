//! Laws of chunked delivery: what a consumer can conclude about the stream from the events it got,
//! whatever the timing of reads and sends.

use crate::output_stream::event::EventView;
use crate::output_stream::line::laws;
use crate::output_stream::single_subscriber::{
    ActionView, BackpressureControl, PhaseView, ReaderState, SendOutcome, TrySendOutcome,
};
use crate::output_stream::single_subscriber;
use vstd::prelude::*;

verus! {

/// What the surroundings of a reader answer to its actions.
pub enum Reply {
    /// A read gave these bytes, none at the end of the stream.
    Read(Seq<u8>),
    /// How an offer without waiting went.
    TrySent(TrySendOutcome),
    /// How a send with waiting went.
    Sent(SendOutcome),
}

/// The pieces that the bytes of one read are cut into: as many of the configured size as there are,
/// and then the rest.
pub open spec fn cut(bytes: Seq<u8>, chunk_size: nat) -> Seq<Seq<u8>>
    decreases bytes.len(),
{
    if bytes.len() == 0 || chunk_size == 0 {
        Seq::empty()
    } else {
        let (piece, rest) = single_subscriber::split_chunk(bytes, chunk_size);
        seq![piece] + cut(rest, chunk_size)
    }
}

/// A reader at work: its state, what it asked for last, and what happened so far.
pub struct Run {
    /// The state of the reader.
    pub state: ReaderState,
    /// What the reader asked for last.
    pub action: ActionView,
    /// All bytes read so far.
    pub source: Seq<u8>,
    /// The pieces that the bytes read so far are cut into.
    pub pieces: Seq<Seq<u8>>,
    /// All events that reached the channel so far.
    pub delivered: Seq<EventView>,
}

impl Run {
    /// A reader that has just started.
    pub open spec fn start(chunk_size: nat, backpressure: BackpressureControl) -> Run {
        let (state, action) = ReaderState::initial(chunk_size, backpressure).proceed();
        Run {
            state,
            action,
            source: Seq::empty(),
            pieces: Seq::empty(),
            delivered: Seq::empty(),
        }
    }

    /// The run after one more reply. A reply that does not answer what was asked changes nothing.
    pub open spec fn answered(self, reply: Reply) -> Run {
        match (self.action, reply) {
            (ActionView::Read(_), Reply::Read(bytes)) => {
                let (state, action) = self.state.after_read(bytes, bytes.len());
                Run {
                    state,
                    action,
                    source: self.source + bytes,
                    pieces: self.pieces + cut(bytes, self.state.chunk_size),
                    ..self
                }
            },
            (ActionView::TrySend(event), Reply::TrySent(outcome)) => {
                let (state, action) = self.state.after_try_sent(outcome);
                Run {
                    state,
                    action,
                    delivered: if outcome == TrySendOutcome::Sent {
                        self.delivered.push(event)
                    } else {
                        self.delivered
                    },
                    ..self
                }
            },
            (ActionView::Send(event), Reply::Sent(outcome)) => {
                let (state, action) = self.state.after_sent(outcome);
                Run {
                    state,
                    action,
                    delivered: if outcome == SendOutcome::Sent {
                        self.delivered.push(event)
                    } else {
                        self.delivered
                    },
                    ..self
                }
            },
            _ => self,
        }
    }

    /// The run after all replies, in order.
    pub open spec fn after(
        chunk_size: nat,
        backpressure: BackpressureControl,
        replies: Seq<Reply>,
    ) -> Run
        decreases replies.len(),
    {
        if replies.len() == 0 {
            Run::start(chunk_size, backpressure)
        } else {
            Run::after(chunk_size, backpressure, replies.drop_last()).answered(replies.last())
        }
    }

    /// The bytes that are part of the event in flight, or wait behind it.
    pub open spec fn in_flight(self) -> Seq<u8> {
        match (self.state.phase, self.action) {
            (PhaseView::OfferingGap(chunk), _) => chunk,
            (PhaseView::OfferingChunk, ActionView::TrySend(EventView::Chunk(chunk))) => chunk,
            (PhaseView::SendingChunk, ActionView::Send(EventView::Chunk(chunk))) => chunk,
            _ => Seq::empty(),
        }
    }

    /// What the reader asked for fits its state.
    pub open spec fn consistent(self) -> bool {
        &&& self.state.chunk_size > 0
        &&& match self.state.phase {
            PhaseView::Reading => self.action == ActionView::Read(Seq::empty())
                && self.state.pending.len() == 0,
            PhaseView::OfferingGap(chunk) => {
                &&& self.action == ActionView::TrySend(EventView::Gap)
                &&& self.state.gap_pending
                &&& 0 < chunk.len() <= self.state.chunk_size
            },
            PhaseView::OfferingChunk => {
                &&& self.action matches ActionView::TrySend(EventView::Chunk(chunk))
                &&& !self.state.gap_pending
                &&& 0 < chunk.len() <= self.state.chunk_size
            },
            PhaseView::SendingChunk => {
                &&& self.action matches ActionView::Send(EventView::Chunk(chunk))
                &&& self.state.backpressure == BackpressureControl::BlockUntilBufferHasSpace
                &&& 0 < chunk.len() <= self.state.chunk_size
            },
            PhaseView::SendingFinalGap => {
                &&& self.action == ActionView::Send(EventView::Gap)
                &&& self.state.gap_pending
                &&& self.state.pending.len() == 0
            },
            PhaseView::SendingEof => {
                &&& self.action == ActionView::Send(EventView::Eof)
                &&& !self.state.gap_pending
                &&& self.state.pending.len() == 0
            },
            PhaseView::Stopped => self.action == ActionView::Stop,
        }
        &&& self.state.backpressure == BackpressureControl::BlockUntilBufferHasSpace ==> {
            &&& !self.state.gap_pending
            &&& !(self.state.phase is OfferingGap)
            &&& !(self.state.phase is OfferingChunk)
        }
    }
}

/// Whether `delivered` tells the truth about `source`: the chunks are the source bytes in order, and
/// wherever bytes are missing there is a gap marker in their place.
pub open spec fn explains(delivered: Seq<EventView>, source: Seq<u8>) -> bool
    decreases delivered.len(),
{
    if delivered.len() == 0 {
        source.len() == 0
    } else {
        let before = delivered.drop_last();
        match delivered.last() {
            EventView::Chunk(bytes) => {
                &&& bytes.len() <= source.len()
                &&& source.skip(source.len() - bytes.len()) == bytes
                &&& explains(before, source.take(source.len() - bytes.len()))
            },
            EventView::Gap => exists|kept: int|
                0 <= kept < source.len() && explains(before, #[trigger] source.take(kept)),
            EventView::Eof => explains(before, source),
            EventView::ReadError(_) => false,
        }
    }
}

/// Whether `delivered` tells the truth about `source`, except that bytes are missing at the end for
/// which no gap marker was delivered yet.
pub open spec fn explains_before_loss(delivered: Seq<EventView>, source: Seq<u8>) -> bool {
    exists|kept: int|
        0 <= kept < source.len() && explains(delivered, #[trigger] source.take(kept))
}

/// The bytes of the chunks among `events`, in order.
pub open spec fn chunk_bytes(events: Seq<EventView>) -> Seq<u8>
    decreases events.len(),
{
    if events.len() == 0 {
        Seq::empty()
    } else {
        let before = chunk_bytes(events.drop_last());
        match events.last() {
            EventView::Chunk(bytes) => before + bytes,
            _ => before,
        }
    }
}

/// What holds of every run: the bytes in `settled` are explained by what was delivered. Until the
/// reader stops, they are all bytes of the source before those in flight.
pub open spec fn accounted(run: Run, settled: Seq<u8>) -> bool {
    &&& run.state.phase is Stopped || run.source == settled + run.in_flight() + run.state.pending
    &&& settled.is_prefix_of(run.source)
    &&& if run.state.gap_pending {
        explains_before_loss(run.delivered, settled)
    } else {
        explains(run.delivered, settled)
    }
    &&& ended(run.delivered) ==> {
        &&& run.state.phase is Stopped
        &&& !run.state.gap_pending
        &&& settled == run.source
    }
}

/// Whether the end marker was delivered.
pub open spec fn ended(delivered: Seq<EventView>) -> bool {
    delivered.len() > 0 && delivered.last() is Eof
}

proof fn explain_chunk(delivered: Seq<EventView>, source: Seq<u8>, chunk: Seq<u8>)
    requires
        explains(delivered, source),
    ensures
        explains(delivered.push(EventView::Chunk(chunk)), source + chunk),
{
    let longer = delivered.push(EventView::Chunk(chunk));
    assert(longer.drop_last() == delivered);
    assert((source + chunk).skip(source.len() as int) == chunk);
    assert((source + chunk).take(source.len() as int) == source);
}

proof fn explain_loss(delivered: Seq<EventView>, source: Seq<u8>, chunk: Seq<u8>)
    requires
        explains(delivered, source) || explains_before_loss(delivered, source),
        chunk.len() > 0,
    ensures
        explains_before_loss(delivered, source + chunk),
{
    if explains(delivered, source) {
        assert((source + chunk).take(source.len() as int) == source);
    } else {
        let kept = choose|kept: int|
            0 <= kept < source.len() && explains(delivered, #[trigger] source.take(kept));
        assert((source + chunk).take(kept) == source.take(kept));
    }
}

proof fn explain_gap(delivered: Seq<EventView>, source: Seq<u8>)
    requires
        explains_before_loss(delivered, source),
    ensures
        explains(delivered.push(EventView::Gap), source),
{
    assert(delivered.push(EventView::Gap).drop_last() == delivered);
}

proof fn explain_eof(delivered: Seq<EventView>, source: Seq<u8>)
    requires
        explains(delivered, source),
    ensures
        explains(delivered.push(EventView::Eof), source),
{
    assert(delivered.push(EventView::Eof).drop_last() == delivered);
}

proof fn split_chunk_parts(pending: Seq<u8>, chunk_size: nat)
    requires
        pending.len() > 0,
        chunk_size > 0,
    ensures
        ({
            let (chunk, rest) = single_subscriber::split_chunk(pending, chunk_size);
            &&& chunk + rest == pending
            &&& 0 < chunk.len() <= chunk_size
        }),
{
    let (chunk, rest) = single_subscriber::split_chunk(pending, chunk_size);
    assert(chunk + rest == pending);
}

/// Going on with pending bytes keeps them in order behind what is settled.
proof fn proceed_keeps_order(state: ReaderState, settled: Seq<u8>)
    requires
        state.chunk_size > 0,
        state.backpressure == BackpressureControl::BlockUntilBufferHasSpace ==> !state.gap_pending,
    ensures
        ({
            let (next, action) = state.proceed();
            let run = Run {
                state: next,
                action,
                source: Seq::empty(),
                pieces: Seq::empty(),
                delivered: Seq::empty(),
            };
            &&& settled + run.in_flight() + next.pending == settled + state.pending
            &&& run.consistent()
            &&& next.gap_pending == state.gap_pending
        }),
{
    let (next, action) = state.proceed();
    let run = Run {
        state: next,
        action,
        source: Seq::empty(),
        pieces: Seq::empty(),
        delivered: Seq::empty(),
    };
    if state.pending.len() > 0 {
        split_chunk_parts(state.pending, state.chunk_size);
        let (chunk, rest) = single_subscriber::split_chunk(state.pending, state.chunk_size);
        assert(settled + chunk + rest == settled + (chunk + rest));
        assert(run.in_flight() == chunk);
    } else {
        assert(state.pending == Seq::<u8>::empty());
        assert(settled + Seq::<u8>::empty() + state.pending == settled + state.pending);
    }
}

/// A reply keeps a run accounted for.
proof fn answer_keeps_account(run: Run, settled: Seq<u8>, reply: Reply) -> (now_settled: Seq<u8>)
    requires
        run.consistent(),
        accounted(run, settled),
    ensures
        run.answered(reply).consistent(),
        accounted(run.answered(reply), now_settled),
{
    let next = run.answered(reply);
    let held = run.in_flight();
    let pending = run.state.pending;
    match (run.action, reply) {
        (ActionView::Read(_), Reply::Read(bytes)) => {
            assert(run.source == settled);
            if bytes.len() > 0 {
                proceed_keeps_order(ReaderState { pending: bytes, ..run.state }, settled);
            } else {
                assert(settled + bytes == settled);
                assert(settled + Seq::<u8>::empty() + bytes == settled);
            }
            settled
        },
        (ActionView::TrySend(event), Reply::TrySent(outcome)) => {
            match outcome {
                TrySendOutcome::Closed => settled,
                TrySendOutcome::Full => {
                    explain_loss(run.delivered, settled, held);
                    proceed_keeps_order(
                        ReaderState { lagged: run.state.lagged + 1, gap_pending: true, ..run.state },
                        settled + held,
                    );
                    settled + held
                },
                TrySendOutcome::Sent => {
                    if run.state.phase is OfferingGap {
                        explain_gap(run.delivered, settled);
                        settled
                    } else {
                        explain_chunk(run.delivered, settled, held);
                        proceed_keeps_order(
                            ReaderState { lagged: 0, ..run.state },
                            settled + held,
                        );
                        settled + held
                    }
                },
            }
        },
        (ActionView::Send(event), Reply::Sent(outcome)) => {
            if outcome == SendOutcome::Closed {
                settled
            } else if run.state.phase is SendingChunk {
                explain_chunk(run.delivered, settled, held);
                proceed_keeps_order(run.state, settled + held);
                settled + held
            } else if run.state.phase is SendingFinalGap {
                explain_gap(run.delivered, settled);
                settled
            } else {
                explain_eof(run.delivered, settled);
                assert(run.source == settled);
                settled
            }
        },
        _ => settled,
    }
}

/// Every run is accounted for, whatever the replies.
proof fn run_is_accounted(
    chunk_size: nat,
    backpressure: BackpressureControl,
    replies: Seq<Reply>,
) -> (settled: Seq<u8>)
    requires
        chunk_size > 0,
    ensures
        Run::after(chunk_size, backpressure, replies).consistent(),
        accounted(Run::after(chunk_size, backpressure, replies), settled),
    decreases replies.len(),
{
    if replies.len() == 0 {
        let settled = Seq::<u8>::empty();
        proceed_keeps_order(ReaderState::initial(chunk_size, backpressure), settled);
        settled
    } else {
        let settled = run_is_accounted(chunk_size, backpressure, replies.drop_last());
        answer_keeps_account(
            Run::after(chunk_size, backpressure, replies.drop_last()),
            settled,
            replies.last(),
        )
    }
}

/// No output is lost silently. At any time, what was delivered explains the stream up to the bytes in
/// flight: its bytes in order, with a gap marker wherever chunks were dropped, except for a loss at
/// the very end that the next delivery will announce. Once the end marker was delivered, the whole
/// stream is explained.
pub proof fn losses_are_announced(
    chunk_size: nat,
    backpressure: BackpressureControl,
    replies: Seq<Reply>,
)
    requires
        chunk_size > 0,
    ensures
        ({
            let run = Run::after(chunk_size, backpressure, replies);
            &&& exists|settled: Seq<u8>| accounted(run, settled)
            &&& ended(run.delivered) ==> explains(run.delivered, run.source)
        }),
{
    let settled = run_is_accounted(chunk_size, backpressure, replies);
    assert(accounted(Run::after(chunk_size, backpressure, replies), settled));
}

/// What was delivered without gap markers is the stream itself.
proof fn explained_without_gaps(delivered: Seq<EventView>, source: Seq<u8>)
    requires
        explains(delivered, source),
        forall|i: int| 0 <= i < delivered.len() ==> !(#[trigger] delivered[i] is Gap),
    ensures
        chunk_bytes(delivered) == source,
    decreases delivered.len(),
{
    if delivered.len() > 0 {
        let before = delivered.drop_last();
        assert(forall|i: int| 0 <= i < before.len() ==> before[i] == delivered[i]);
        match delivered.last() {
            EventView::Chunk(bytes) => {
                let kept = source.take(source.len() - bytes.len());
                explained_without_gaps(before, kept);
                assert(kept + bytes == source);
            },
            EventView::Gap => {
                assert(delivered[delivered.len() - 1] is Gap);
            },
            _ => {
                explained_without_gaps(before, source);
            },
        }
    }
}

/// A reader that waits for room delivers no gap markers.
proof fn blocking_reader_sends_no_gap(chunk_size: nat, replies: Seq<Reply>)
    requires
        chunk_size > 0,
    ensures
        ({
            let run = Run::after(
                chunk_size,
                BackpressureControl::BlockUntilBufferHasSpace,
                replies,
            );
            forall|i: int|
                0 <= i < run.delivered.len() ==> !(#[trigger] run.delivered[i] is Gap)
        }),
        Run::after(
            chunk_size,
            BackpressureControl::BlockUntilBufferHasSpace,
            replies,
        ).state.backpressure == BackpressureControl::BlockUntilBufferHasSpace,
    decreases replies.len(),
{
    if replies.len() > 0 {
        let backpressure = BackpressureControl::BlockUntilBufferHasSpace;
        blocking_reader_sends_no_gap(chunk_size, replies.drop_last());
        run_is_accounted(chunk_size, backpressure, replies.drop_last());
        let run = Run::after(chunk_size, backpressure, replies.drop_last());
        let next = run.answered(replies.last());
        assert forall|i: int| 0 <= i < next.delivered.len() implies !(
        #[trigger] next.delivered[i] is Gap) by {
            if i < run.delivered.len() {
                assert(next.delivered[i] == run.delivered[i]);
            }
        }
    }
}

/// A reader that waits for room loses nothing: the chunks delivered are the start of the stream, up to
/// the bytes in flight until the reader stops, and all of it once the end marker was delivered.
pub proof fn blocking_reader_loses_nothing(chunk_size: nat, replies: Seq<Reply>)
    requires
        chunk_size > 0,
    ensures
        ({
            let run = Run::after(
                chunk_size,
                BackpressureControl::BlockUntilBufferHasSpace,
                replies,
            );
            &&& chunk_bytes(run.delivered).is_prefix_of(run.source)
            &&& run.state.phase is Stopped || run.source == chunk_bytes(run.delivered)
                + run.in_flight() + run.state.pending
            &&& ended(run.delivered) ==> chunk_bytes(run.delivered) == run.source
        }),
{
    let backpressure = BackpressureControl::BlockUntilBufferHasSpace;
    let run = Run::after(chunk_size, backpressure, replies);
    let settled = run_is_accounted(chunk_size, backpressure, replies);
    blocking_reader_sends_no_gap(chunk_size, replies);
    explained_without_gaps(run.delivered, settled);
}

/// Every chunk delivered holds at least one byte and at most the configured number.
pub proof fn chunks_respect_size(
    chunk_size: nat,
    backpressure: BackpressureControl,
    replies: Seq<Reply>,
)
    requires
        chunk_size > 0,
    ensures
        ({
            let run = Run::after(chunk_size, backpressure, replies);
            &&& run.state.chunk_size == chunk_size
            &&& forall|i: int|
                0 <= i < run.delivered.len() ==> (#[trigger] run.delivered[i] matches
                    EventView::Chunk(bytes) ==> 0 < bytes.len() <= chunk_size)
        }),
    decreases replies.len(),
{
    if replies.len() > 0 {
        chunks_respect_size(chunk_size, backpressure, replies.drop_last());
        run_is_accounted(chunk_size, backpressure, replies.drop_last());
        let run = Run::after(chunk_size, backpressure, replies.drop_last());
        let next = run.answered(replies.last());
        assert forall|i: int| 0 <= i < next.delivered.len() implies (
        #[trigger] next.delivered[i] matches EventView::Chunk(bytes) ==> 0 < bytes.len()
            <= chunk_size) by {
            if i < run.delivered.len() {
                assert(next.delivered[i] == run.delivered[i]);
            }
        }
    }
}

/// What became of a piece, or was delivered between pieces.
pub enum Fate {
    /// The piece was delivered as a chunk.
    Sent(Seq<u8>),
    /// The piece was dropped.
    Lost(Seq<u8>),
    /// A gap marker was delivered.
    Announced,
    /// The end marker was delivered.
    Ended,
}

/// The events delivered according to `fates`.
pub open spec fn events_of(fates: Seq<Fate>) -> Seq<EventView>
    decreases fates.len(),
{
    if fates.len() == 0 {
        Seq::empty()
    } else {
        let before = events_of(fates.drop_last());
        match fates.last() {
            Fate::Sent(piece) => before.push(EventView::Chunk(piece)),
            Fate::Lost(_) => before,
            Fate::Announced => before.push(EventView::Gap),
            Fate::Ended => before.push(EventView::Eof),
        }
    }
}

/// The pieces that `fates` speaks of, in order.
pub open spec fn pieces_of(fates: Seq<Fate>) -> Seq<Seq<u8>>
    decreases fates.len(),
{
    if fates.len() == 0 {
        Seq::empty()
    } else {
        let before = pieces_of(fates.drop_last());
        match fates.last() {
            Fate::Sent(piece) | Fate::Lost(piece) => before.push(piece),
            _ => before,
        }
    }
}

/// Whether the last thing that happened is that a piece was dropped.
pub open spec fn ends_with_loss(fates: Seq<Fate>) -> bool {
    fates.len() > 0 && fates.last() is Lost
}

/// Whether gap markers stand exactly where pieces were dropped: each of them directly behind a piece
/// that was dropped, and nothing else between dropped pieces and what is delivered next.
pub open spec fn announces_losses(fates: Seq<Fate>) -> bool {
    forall|i: int|
        #![trigger fates[i]]
        0 <= i < fates.len() ==> match fates[i] {
            Fate::Announced => ends_with_loss(fates.take(i)),
            Fate::Lost(_) => true,
            Fate::Sent(_) | Fate::Ended => !ends_with_loss(fates.take(i)),
        }
}

proof fn announces_push(fates: Seq<Fate>, fate: Fate)
    requires
        announces_losses(fates),
        match fate {
            Fate::Announced => ends_with_loss(fates),
            Fate::Lost(_) => true,
            Fate::Sent(_) | Fate::Ended => !ends_with_loss(fates),
        },
    ensures
        announces_losses(fates.push(fate)),
        events_of(fates.push(fate)) == match fate {
            Fate::Sent(piece) => events_of(fates).push(EventView::Chunk(piece)),
            Fate::Lost(_) => events_of(fates),
            Fate::Announced => events_of(fates).push(EventView::Gap),
            Fate::Ended => events_of(fates).push(EventView::Eof),
        },
        pieces_of(fates.push(fate)) == match fate {
            Fate::Sent(piece) | Fate::Lost(piece) => pieces_of(fates).push(piece),
            _ => pieces_of(fates),
        },
        ends_with_loss(fates.push(fate)) == fate is Lost,
{
    let longer = fates.push(fate);
    assert(longer.drop_last() =~= fates);
    assert forall|i: int| #![trigger longer[i]] 0 <= i < longer.len() implies match longer[i] {
        Fate::Announced => ends_with_loss(longer.take(i)),
        Fate::Lost(_) => true,
        Fate::Sent(_) | Fate::Ended => !ends_with_loss(longer.take(i)),
    } by {
        if i < fates.len() {
            assert(longer[i] == fates[i]);
            assert(longer.take(i) =~= fates.take(i));
        } else {
            assert(longer.take(i) =~= fates);
        }
    }
}

impl Run {
    /// The piece that is part of the event in flight, or waits behind it.
    pub open spec fn piece_in_flight(self) -> Seq<Seq<u8>> {
        if self.in_flight().len() == 0 {
            Seq::empty()
        } else {
            seq![self.in_flight()]
        }
    }
}

/// What holds of every run: each piece was delivered whole or dropped, in order, and gap markers stand
/// exactly where pieces were dropped. Until the reader stops, `fates` speaks of all pieces but the one
/// in flight and those behind it.
pub open spec fn tells(run: Run, fates: Seq<Fate>) -> bool {
    &&& announces_losses(fates)
    &&& run.delivered == events_of(fates)
    &&& run.state.gap_pending == ends_with_loss(fates)
    &&& pieces_of(fates).is_prefix_of(run.pieces)
    &&& run.state.phase is Stopped || run.pieces == pieces_of(fates) + run.piece_in_flight() + cut(
        run.state.pending,
        run.state.chunk_size,
    )
    &&& ended(run.delivered) ==> run.state.phase is Stopped && pieces_of(fates) == run.pieces
}

/// Going on with pending bytes takes the next piece of them.
proof fn proceed_takes_piece(state: ReaderState)
    requires
        state.chunk_size > 0,
        state.backpressure == BackpressureControl::BlockUntilBufferHasSpace ==> !state.gap_pending,
    ensures
        ({
            let (next, action) = state.proceed();
            let run = Run {
                state: next,
                action,
                source: Seq::empty(),
                pieces: Seq::empty(),
                delivered: Seq::empty(),
            };
            &&& run.piece_in_flight() + cut(next.pending, next.chunk_size) == cut(
                state.pending,
                state.chunk_size,
            )
            &&& next.chunk_size == state.chunk_size
            &&& next.gap_pending == state.gap_pending
            &&& !(next.phase is Stopped)
        }),
{
    proceed_keeps_order(state, Seq::empty());
    if state.pending.len() > 0 {
        split_chunk_parts(state.pending, state.chunk_size);
    } else {
        assert(Seq::<Seq<u8>>::empty() + cut(state.pending, state.chunk_size) =~= cut(
            state.pending,
            state.chunk_size,
        ));
    }
}

/// A reply keeps the story of the pieces.
proof fn answer_keeps_fates(run: Run, fates: Seq<Fate>, reply: Reply) -> (longer: Seq<Fate>)
    requires
        run.consistent(),
        tells(run, fates),
    ensures
        tells(run.answered(reply), longer),
{
    let next = run.answered(reply);
    let size = run.state.chunk_size;
    let held = run.in_flight();
    let told = pieces_of(fates);
    let behind = cut(run.state.pending, size);
    match (run.action, reply) {
        (ActionView::Read(_), Reply::Read(bytes)) => {
            assert(run.state.phase is Reading);
            assert(run.pieces =~= told);
            if bytes.len() > 0 {
                proceed_takes_piece(ReaderState { pending: bytes, ..run.state });
                assert(told + next.piece_in_flight() + cut(next.state.pending, size) =~= told + (
                next.piece_in_flight() + cut(next.state.pending, size)));
            } else {
                assert(next.pieces =~= told);
                assert(told + Seq::<Seq<u8>>::empty() + cut(bytes, size) =~= told);
            }
            fates
        },
        (ActionView::TrySend(event), Reply::TrySent(outcome)) => {
            assert(run.pieces =~= told.push(held) + behind);
            match outcome {
                TrySendOutcome::Closed => fates,
                TrySendOutcome::Full => {
                    announces_push(fates, Fate::Lost(held));
                    proceed_takes_piece(
                        ReaderState { lagged: run.state.lagged + 1, gap_pending: true, ..run.state },
                    );
                    assert(next.pieces =~= told.push(held) + next.piece_in_flight() + cut(
                        next.state.pending,
                        size,
                    ));
                    fates.push(Fate::Lost(held))
                },
                TrySendOutcome::Sent => {
                    if run.state.phase is OfferingGap {
                        announces_push(fates, Fate::Announced);
                        fates.push(Fate::Announced)
                    } else {
                        announces_push(fates, Fate::Sent(held));
                        proceed_takes_piece(ReaderState { lagged: 0, ..run.state });
                        assert(next.pieces =~= told.push(held) + next.piece_in_flight() + cut(
                            next.state.pending,
                            size,
                        ));
                        fates.push(Fate::Sent(held))
                    }
                },
            }
        },
        (ActionView::Send(event), Reply::Sent(outcome)) => {
            if outcome == SendOutcome::Closed {
                fates
            } else if run.state.phase is SendingChunk {
                assert(run.pieces =~= told.push(held) + behind);
                announces_push(fates, Fate::Sent(held));
                proceed_takes_piece(run.state);
                assert(next.pieces =~= told.push(held) + next.piece_in_flight() + cut(
                    next.state.pending,
                    size,
                ));
                fates.push(Fate::Sent(held))
            } else if run.state.phase is SendingFinalGap {
                announces_push(fates, Fate::Announced);
                fates.push(Fate::Announced)
            } else {
                announces_push(fates, Fate::Ended);
                assert(run.pieces =~= told);
                fates.push(Fate::Ended)
            }
        },
        _ => fates,
    }
}

proof fn run_has_fates(
    chunk_size: nat,
    backpressure: BackpressureControl,
    replies: Seq<Reply>,
) -> (fates: Seq<Fate>)
    requires
        chunk_size > 0,
    ensures
        tells(Run::after(chunk_size, backpressure, replies), fates),
    decreases replies.len(),
{
    if replies.len() == 0 {
        let fates = Seq::<Fate>::empty();
        assert(cut(Seq::empty(), chunk_size) =~= Seq::<Seq<u8>>::empty());
        assert(Seq::<Seq<u8>>::empty() + Seq::<Seq<u8>>::empty() + cut(Seq::empty(), chunk_size)
            =~= Seq::<Seq<u8>>::empty());
        fates
    } else {
        let earlier = replies.drop_last();
        let fates = run_has_fates(chunk_size, backpressure, earlier);
        run_is_accounted(chunk_size, backpressure, earlier);
        answer_keeps_fates(Run::after(chunk_size, backpressure, earlier), fates, replies.last())
    }
}

/// Chunks are delivered whole and in order, and a gap marker stands exactly where pieces of the
/// stream were dropped. At any time there is a story of all pieces but the one in flight and those
/// behind it that says so, and once the end marker was delivered it speaks of the whole stream. A loss
/// at its end, of which there is no marker yet, will be announced before anything else is delivered.
pub proof fn gaps_stand_where_pieces_were_dropped(
    chunk_size: nat,
    backpressure: BackpressureControl,
    replies: Seq<Reply>,
)
    requires
        chunk_size > 0,
    ensures
        ({
            let run = Run::after(chunk_size, backpressure, replies);
            &&& exists|fates: Seq<Fate>| tells(run, fates)
            &&& laws::joined(run.pieces) == run.source
        }),
    decreases replies.len(),
{
    let fates = run_has_fates(chunk_size, backpressure, replies);
    let run = Run::after(chunk_size, backpressure, replies);
    assert(tells(run, fates));
    if replies.len() > 0 {
        let earlier = Run::after(chunk_size, backpressure, replies.drop_last());
        gaps_stand_where_pieces_were_dropped(chunk_size, backpressure, replies.drop_last());
        chunks_respect_size(chunk_size, backpressure, replies.drop_last());
        if let (ActionView::Read(_), Reply::Read(bytes)) = (earlier.action, replies.last()) {
            cut_keeps_bytes(bytes, chunk_size);
            laws::joined_concat(earlier.pieces, cut(bytes, chunk_size));
        }
    }
}

/// The pieces of a read are its bytes, in order. All but the last are of the configured size, and
/// none is empty.
pub proof fn cut_keeps_bytes(bytes: Seq<u8>, chunk_size: nat)
    requires
        chunk_size > 0,
    ensures
        ({
            let pieces = cut(bytes, chunk_size);
            &&& laws::joined(pieces) == bytes
            &&& forall|i: int|
                0 <= i < pieces.len() ==> 0 < (#[trigger] pieces[i]).len() <= chunk_size
            &&& forall|i: int|
                0 <= i < pieces.len() - 1 ==> (#[trigger] pieces[i]).len() == chunk_size
        }),
    decreases bytes.len(),
{
    if bytes.len() > 0 {
        split_chunk_parts(bytes, chunk_size);
        let (piece, rest) = single_subscriber::split_chunk(bytes, chunk_size);
        cut_keeps_bytes(rest, chunk_size);
        let pieces = cut(bytes, chunk_size);
        let more = cut(rest, chunk_size);
        assert(pieces.skip(1) =~= more);
        assert(forall|i: int| 0 < i < pieces.len() ==> pieces[i] == more[i - 1]);
        assert(rest.len() == 0 ==> more.len() == 0);
    }
}

impl Run {
    /// Whether the reply answers what the reader asked for last.
    pub open spec fn is_answered_by(self, reply: Reply) -> bool {
        match reply {
            Reply::Read(_) => self.action is Read,
            Reply::TrySent(_) => self.action is TrySend,
            Reply::Sent(_) => self.action is Send,
        }
    }

    /// The pieces that were read and are neither delivered nor dropped yet.
    pub open spec fn open_pieces(self) -> Seq<Seq<u8>> {
        self.piece_in_flight() + cut(self.state.pending, self.state.chunk_size)
    }
}

/// Whether the reply says that no consumer is left.
pub open spec fn says_closed(reply: Reply) -> bool {
    reply == Reply::TrySent(TrySendOutcome::Closed) || reply == Reply::Sent(SendOutcome::Closed)
}

/// Whether a reply to the reader said that no consumer is left.
pub open spec fn was_closed(
    chunk_size: nat,
    backpressure: BackpressureControl,
    replies: Seq<Reply>,
) -> bool {
    exists|i: int|
        {
            &&& 0 <= i < replies.len()
            &&& says_closed(#[trigger] replies[i])
            &&& Run::after(chunk_size, backpressure, replies.take(i)).is_answered_by(replies[i])
        }
}

/// A reader stops only once nobody listens any more or the end marker was delivered, and then it does
/// stop. However many offers found the channel full, it goes on.
pub proof fn reader_stops_only_at_the_end(
    chunk_size: nat,
    backpressure: BackpressureControl,
    replies: Seq<Reply>,
)
    requires
        chunk_size > 0,
    ensures
        ({
            let run = Run::after(chunk_size, backpressure, replies);
            let done = was_closed(chunk_size, backpressure, replies) || ended(run.delivered);
            &&& (run.action is Stop) == done
            &&& (run.state.phase is Stopped) == done
        }),
    decreases replies.len(),
{
    let run = Run::after(chunk_size, backpressure, replies);
    run_is_accounted(chunk_size, backpressure, replies);
    if replies.len() > 0 {
        let earlier = replies.drop_last();
        let before = Run::after(chunk_size, backpressure, earlier);
        let reply = replies.last();
        reader_stops_only_at_the_end(chunk_size, backpressure, earlier);
        run_is_accounted(chunk_size, backpressure, earlier);
        assert(replies.take(replies.len() - 1) =~= earlier);
        assert(replies[replies.len() - 1] == reply);
        if was_closed(chunk_size, backpressure, earlier) {
            let i = choose|i: int|
                {
                    &&& 0 <= i < earlier.len()
                    &&& says_closed(#[trigger] earlier[i])
                    &&& Run::after(chunk_size, backpressure, earlier.take(i)).is_answered_by(
                        earlier[i],
                    )
                };
            assert(replies[i] == earlier[i]);
            assert(replies.take(i) =~= earlier.take(i));
            assert(was_closed(chunk_size, backpressure, replies));
        }
        if was_closed(chunk_size, backpressure, replies) && !(says_closed(reply)
            && before.is_answered_by(reply)) {
            let i = choose|i: int|
                {
                    &&& 0 <= i < replies.len()
                    &&& says_closed(#[trigger] replies[i])
                    &&& Run::after(chunk_size, backpressure, replies.take(i)).is_answered_by(
                        replies[i],
                    )
                };
            assert(i < earlier.len());
            assert(replies[i] == earlier[i]);
            assert(replies.take(i) =~= earlier.take(i));
            assert(was_closed(chunk_size, backpressure, earlier));
        }
        if says_closed(reply) && before.is_answered_by(reply) {
            assert(was_closed(chunk_size, backpressure, replies));
        }
    }
}

/// A run in which nobody said that the channel is closed is over only if the end marker was
/// delivered.
pub proof fn unclosed_run_ends_with_the_end_marker(
    chunk_size: nat,
    backpressure: BackpressureControl,
    replies: Seq<Reply>,
)
    requires
        chunk_size > 0,
        forall|i: int| 0 <= i < replies.len() ==> !says_closed(#[trigger] replies[i]),
        Run::after(chunk_size, backpressure, replies).action is Stop,
    ensures
        ended(Run::after(chunk_size, backpressure, replies).delivered),
{
    reader_stops_only_at_the_end(chunk_size, backpressure, replies);
}

/// How every reply moves a reader on. What a read gives is cut into pieces. A chunk that is taken, or
/// that finds the channel full, is done with, and the next piece follows. A gap marker that is taken
/// is followed by the piece behind it, and one that is not taken is dropped together with that piece.
/// Nothing is done about the pieces once nobody listens. The reader reads again exactly when no
/// piece is left, and the read that gives no bytes leads to the end.
pub proof fn every_reply_moves_the_reader_on(
    chunk_size: nat,
    backpressure: BackpressureControl,
    replies: Seq<Reply>,
    reply: Reply,
)
    requires
        chunk_size > 0,
        Run::after(chunk_size, backpressure, replies).is_answered_by(reply),
    ensures
        ({
            let run = Run::after(chunk_size, backpressure, replies);
            let next = Run::after(chunk_size, backpressure, replies.push(reply));
            match reply {
                Reply::Read(bytes) => {
                    &&& run.open_pieces() == Seq::<Seq<u8>>::empty()
                    &&& next.open_pieces() == cut(bytes, chunk_size)
                    &&& next.delivered == run.delivered
                    &&& bytes.len() == 0 ==> next.action == ActionView::Send(
                        if run.state.gap_pending {
                            EventView::Gap
                        } else {
                            EventView::Eof
                        },
                    )
                },
                Reply::TrySent(TrySendOutcome::Sent) => {
                    let event = run.action->TrySend_0;
                    &&& next.delivered == run.delivered.push(event)
                    &&& event == EventView::Gap ==> {
                        &&& next.open_pieces() == run.open_pieces()
                        &&& next.action == ActionView::TrySend(
                            EventView::Chunk(run.open_pieces()[0]),
                        )
                    }
                    &&& event != EventView::Gap ==> {
                        &&& event == EventView::Chunk(run.open_pieces()[0])
                        &&& next.open_pieces() == run.open_pieces().skip(1)
                    }
                },
                Reply::TrySent(TrySendOutcome::Full) => {
                    &&& next.delivered == run.delivered
                    &&& run.open_pieces().len() > 0
                    &&& next.open_pieces() == run.open_pieces().skip(1)
                    &&& next.state.gap_pending
                    &&& !(next.action is Stop)
                },
                Reply::Sent(SendOutcome::Sent) => {
                    let event = run.action->Send_0;
                    &&& next.delivered == run.delivered.push(event)
                    &&& match event {
                        EventView::Chunk(piece) => {
                            &&& piece == run.open_pieces()[0]
                            &&& next.open_pieces() == run.open_pieces().skip(1)
                        },
                        EventView::Gap => next.action == ActionView::Send(EventView::Eof),
                        EventView::Eof => next.action is Stop,
                        EventView::ReadError(_) => false,
                    }
                },
                _ => next.action is Stop && next.delivered == run.delivered,
            }
        }),
{
    let run = Run::after(chunk_size, backpressure, replies);
    let next = Run::after(chunk_size, backpressure, replies.push(reply));
    run_is_accounted(chunk_size, backpressure, replies);
    chunks_respect_size(chunk_size, backpressure, replies);
    assert(replies.push(reply).drop_last() =~= replies);
    assert(next == run.answered(reply));
    let held = run.in_flight();
    let behind = cut(run.state.pending, chunk_size);
    match reply {
        Reply::Read(bytes) => {
            assert(run.open_pieces() =~= Seq::<Seq<u8>>::empty());
            if bytes.len() > 0 {
                proceed_takes_piece(ReaderState { pending: bytes, ..run.state });
            } else {
                assert(next.open_pieces() =~= cut(bytes, chunk_size));
            }
        },
        Reply::TrySent(outcome) => {
            assert(run.open_pieces() =~= seq![held] + behind);
            assert(run.open_pieces().skip(1) =~= behind);
            match outcome {
                TrySendOutcome::Full => {
                    proceed_takes_piece(
                        ReaderState { lagged: run.state.lagged + 1, gap_pending: true, ..run.state },
                    );
                    run_is_accounted(chunk_size, backpressure, replies.push(reply));
                },
                TrySendOutcome::Sent => {
                    if !(run.state.phase is OfferingGap) {
                        proceed_takes_piece(ReaderState { lagged: 0, ..run.state });
                    }
                },
                TrySendOutcome::Closed => {},
            }
        },
        Reply::Sent(outcome) => {
            if run.state.phase is SendingChunk {
                assert(run.open_pieces() =~= seq![held] + behind);
                assert(run.open_pieces().skip(1) =~= behind);
                proceed_takes_piece(run.state);
            }
        },
    }
}

/// What a reader asks for next depends on the pieces that are left: it reads if there is none, and
/// hands out the next one otherwise, behind a gap marker if pieces were dropped before it.
pub proof fn reader_asks_for_what_is_next(
    chunk_size: nat,
    backpressure: BackpressureControl,
    replies: Seq<Reply>,
)
    requires
        chunk_size > 0,
    ensures
        ({
            let run = Run::after(chunk_size, backpressure, replies);
            let first = run.open_pieces()[0];
            match run.action {
                ActionView::Read(contents) => run.open_pieces().len() == 0 && contents.len() == 0,
                ActionView::TrySend(event) => {
                    &&& backpressure == BackpressureControl::DropLatestIncomingIfBufferFull
                    &&& run.open_pieces().len() > 0
                    &&& event == if run.state.gap_pending {
                        EventView::Gap
                    } else {
                        EventView::Chunk(first)
                    }
                },
                ActionView::Send(EventView::Chunk(piece)) => {
                    &&& backpressure == BackpressureControl::BlockUntilBufferHasSpace
                    &&& run.open_pieces().len() > 0
                    &&& piece == first
                },
                ActionView::Send(EventView::Gap) => run.state.gap_pending && run.open_pieces().len()
                    == 0,
                ActionView::Send(EventView::Eof) => !run.state.gap_pending
                    && run.open_pieces().len() == 0,
                ActionView::Send(EventView::ReadError(_)) => false,
                ActionView::Stop => true,
            }
        }),
{
    let run = Run::after(chunk_size, backpressure, replies);
    run_is_accounted(chunk_size, backpressure, replies);
    chunks_respect_size(chunk_size, backpressure, replies);
    policy_stays(chunk_size, backpressure, replies);
    if run.in_flight().len() > 0 {
        assert(run.open_pieces() =~= seq![run.in_flight()] + cut(run.state.pending, chunk_size));
    } else {
        assert(run.open_pieces() =~= cut(run.state.pending, chunk_size));
    }
}

/// A reader keeps the policy that it was started with.
proof fn policy_stays(chunk_size: nat, backpressure: BackpressureControl, replies: Seq<Reply>)
    requires
        chunk_size > 0,
    ensures
        Run::after(chunk_size, backpressure, replies).state.backpressure == backpressure,
        ({
            let run = Run::after(chunk_size, backpressure, replies);
            &&& run.action matches ActionView::TrySend(_) ==> backpressure
                == BackpressureControl::DropLatestIncomingIfBufferFull
            &&& run.action matches ActionView::Send(EventView::Chunk(_)) ==> backpressure
                == BackpressureControl::BlockUntilBufferHasSpace
        }),
    decreases replies.len(),
{
    run_is_accounted(chunk_size, backpressure, replies);
    if replies.len() > 0 {
        policy_stays(chunk_size, backpressure, replies.drop_last());
        run_is_accounted(chunk_size, backpressure, replies.drop_last());
    }
}

/// The number of offers in a row that found the channel full, up to the last reply.
pub open spec fn refusals(
    chunk_size: nat,
    backpressure: BackpressureControl,
    replies: Seq<Reply>,
) -> nat
    decreases replies.len(),
{
    if replies.len() == 0 {
        0
    } else {
        let earlier = replies.drop_last();
        let before = refusals(chunk_size, backpressure, earlier);
        if !Run::after(chunk_size, backpressure, earlier).is_answered_by(replies.last()) {
            before
        } else {
            match replies.last() {
                Reply::TrySent(TrySendOutcome::Full) => before + 1,
                Reply::TrySent(TrySendOutcome::Sent) => 0,
                _ => before,
            }
        }
    }
}

/// A reader counts the offers in a row that found the channel full.
pub proof fn lag_counts_refusals(
    chunk_size: nat,
    backpressure: BackpressureControl,
    replies: Seq<Reply>,
)
    requires
        chunk_size > 0,
    ensures
        Run::after(chunk_size, backpressure, replies).state.lagged == refusals(
            chunk_size,
            backpressure,
            replies,
        ),
    decreases replies.len(),
{
    run_is_accounted(chunk_size, backpressure, replies);
    if replies.len() > 0 {
        lag_counts_refusals(chunk_size, backpressure, replies.drop_last());
        run_is_accounted(chunk_size, backpressure, replies.drop_last());
    }
}

} // verus!
