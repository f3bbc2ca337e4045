//! Selecting the backend and the settings of one output stream of a process.

use crate::output_stream::config::{
    StreamConfig, StreamConfigBuilder, StreamConfigMaxBufferedChunksBuilder,
    StreamConfigReadChunkSizeBuilder, StreamConfigReadyBuilder, StreamConfigReplayBuilder,
};
use crate::output_stream::num_bytes::NumBytes;
use crate::output_stream::policy::{
    Delivery, LossyWithoutBackpressure, NoReplay, ReliableWithBackpressure, Replay, ReplayEnabled,
    ReplayRetention, SealedReplayBehavior,
};
use std::marker::PhantomData;
use vstd::prelude::*;

verus! {

/// What a child's stdio slot is connected to.
#[derive(Debug, Clone, Copy, PartialEq, Eq, Structural)]
pub enum ChildStdio {
    /// A pipe that the parent reads from.
    Piped,
    /// The null device. The bytes never cross into the parent.
    Null,
}

/// Process stream builder configurations.
pub trait ProcessStreamConfig {
    /// What the matching child stdio slot has to be connected to.
    spec fn stdio(&self) -> ChildStdio;

    /// Returns the disposition this configuration requires for the matching child stdio slot.
    fn child_stdio(&self) -> (r: ChildStdio)
        ensures
            r == self.stdio(),
    ;
}

impl<Backend, D: Delivery, R: Replay> ProcessStreamConfig for PipedStreamConfig<
    Backend,
    StreamConfigReadyBuilder<D, R>,
> {
    open spec fn stdio(&self) -> ChildStdio {
        ChildStdio::Piped
    }

    fn child_stdio(&self) -> (r: ChildStdio)
        ensures
            r == ChildStdio::Piped,
    {
        ChildStdio::Piped
    }
}

impl ProcessStreamConfig for DiscardedStreamConfig {
    open spec fn stdio(&self) -> ChildStdio {
        ChildStdio::Null
    }

    fn child_stdio(&self) -> (r: ChildStdio)
        ensures
            r == ChildStdio::Null,
    {
        ChildStdio::Null
    }
}

/// Builder for selecting the output stream backend for one process stream.
///
/// Backend choice controls stream ownership and fanout. Delivery policy and replay policy are
/// selected in later builder stages and are independent decisions. The [`Self::discard`] entry
/// short-circuits the chain entirely for stdio that should be routed to the null device at the OS
/// level.
#[derive(Debug, Clone, Copy, PartialEq, Eq, Structural)]
pub struct ProcessStreamBuilder;

/// Marks streams that any number of consumers can share.
#[derive(Debug, Clone, Copy, PartialEq, Eq, Structural)]
pub struct BroadcastBackend;

/// Marks streams that have exactly one consumer.
#[derive(Debug, Clone, Copy, PartialEq, Eq, Structural)]
pub struct SingleSubscriberBackend;

/// Configuration produced by [`ProcessStreamBuilder::discard`]. The matching child stdio slot is
/// connected to the null device, so the OS discards the bytes; no pipe is allocated and no reader
/// task runs in the parent.
#[derive(Debug, Clone, Copy, PartialEq, Eq, Structural)]
pub struct DiscardedStreamConfig;

/// Configuration of a stream that is read through a pipe, at some stage of the stream builder.
#[derive(Debug, PartialEq, Eq)]
pub struct PipedStreamConfig<Backend, Stage> {
    stage: Stage,
    backend: PhantomData<Backend>,
}

impl<Backend, Stage> View for PipedStreamConfig<Backend, Stage> {
    type V = Stage;

    closed spec fn view(&self) -> Stage {
        self.stage
    }
}

impl<Backend, Stage: Copy> Clone for PipedStreamConfig<Backend, Stage> {
    fn clone(&self) -> (r: Self)
        ensures
            r == *self,
    {
        *self
    }
}

impl<Backend, Stage: Copy> Copy for PipedStreamConfig<Backend, Stage> {

}

impl<Backend, Stage> PipedStreamConfig<Backend, Stage> {
    /// Wraps a stage of the stream builder.
    fn new(stage: Stage) -> (r: Self)
        ensures
            r@ == stage,
    {
        Self { stage, backend: PhantomData }
    }
}

impl<Backend> PipedStreamConfig<Backend, StreamConfigBuilder> {
    /// Selects bounded live delivery where slow consumers may observe gaps or dropped output.
    #[must_use]
    pub fn best_effort_delivery(self) -> (r: PipedStreamConfig<
        Backend,
        StreamConfigReplayBuilder<LossyWithoutBackpressure>,
    >)
        ensures
            r@@ == LossyWithoutBackpressure,
    {
        PipedStreamConfig::new(self.stage.best_effort_delivery())
    }

    /// Selects delivery that waits for active consumers when their buffers are full.
    #[must_use]
    pub fn reliable_for_active_subscribers(self) -> (r: PipedStreamConfig<
        Backend,
        StreamConfigReplayBuilder<ReliableWithBackpressure>,
    >)
        ensures
            r@@ == ReliableWithBackpressure,
    {
        PipedStreamConfig::new(self.stage.reliable_for_active_subscribers())
    }
}

impl<Backend, D> PipedStreamConfig<Backend, StreamConfigReplayBuilder<D>> where D: Delivery {
    /// Disables replay for future subscribers.
    #[must_use]
    pub fn no_replay(self) -> (r: PipedStreamConfig<
        Backend,
        StreamConfigReadChunkSizeBuilder<D, NoReplay>,
    >)
        ensures
            r@@ == (self@@, NoReplay),
    {
        PipedStreamConfig::new(self.stage.no_replay())
    }

    /// Keeps the latest number of chunks for future subscribers. Once replay is sealed, they start
    /// at live output.
    #[must_use]
    pub fn replay_last_chunks(self, chunks: usize) -> (r: PipedStreamConfig<
        Backend,
        StreamConfigReadChunkSizeBuilder<D, ReplayEnabled>,
    >)
        requires
            chunks > 0,
        ensures
            r@@ == (self@@, (ReplayEnabled {
                replay_retention: ReplayRetention::LastChunks(chunks),
                sealed_replay_behavior: SealedReplayBehavior::StartAtLiveOutput,
            })),
    {
        PipedStreamConfig::new(
            self.stage.replay_last_chunks(chunks).sealed_replay_behavior(
                SealedReplayBehavior::default(),
            ),
        )
    }

    /// Keeps whole chunks covering at least the latest number of bytes. Once replay is sealed,
    /// future subscribers start at live output.
    #[must_use]
    pub fn replay_last_bytes(self, bytes: NumBytes) -> (r: PipedStreamConfig<
        Backend,
        StreamConfigReadChunkSizeBuilder<D, ReplayEnabled>,
    >)
        requires
            bytes@ > 0,
        ensures
            r@@ == (self@@, (ReplayEnabled {
                replay_retention: ReplayRetention::LastBytes(bytes),
                sealed_replay_behavior: SealedReplayBehavior::StartAtLiveOutput,
            })),
    {
        PipedStreamConfig::new(
            self.stage.replay_last_bytes(bytes).sealed_replay_behavior(
                SealedReplayBehavior::default(),
            ),
        )
    }

    /// Keeps all output for the stream lifetime. Once replay is sealed, future subscribers start at
    /// live output.
    #[must_use]
    pub fn replay_all(self) -> (r: PipedStreamConfig<
        Backend,
        StreamConfigReadChunkSizeBuilder<D, ReplayEnabled>,
    >)
        ensures
            r@@ == (self@@, (ReplayEnabled {
                replay_retention: ReplayRetention::All,
                sealed_replay_behavior: SealedReplayBehavior::StartAtLiveOutput,
            })),
    {
        PipedStreamConfig::new(
            self.stage.replay_all().sealed_replay_behavior(SealedReplayBehavior::default()),
        )
    }
}

impl<Backend, D, R> PipedStreamConfig<Backend, StreamConfigReadChunkSizeBuilder<D, R>> where
    D: Delivery,
    R: Replay,
 {
    /// Selects the size of chunks read from the underlying process stream.
    #[must_use]
    pub fn read_chunk_size(self, read_chunk_size: NumBytes) -> (r: PipedStreamConfig<
        Backend,
        StreamConfigMaxBufferedChunksBuilder<D, R>,
    >)
        requires
            read_chunk_size@ > 0,
        ensures
            r@@ == (self@@.0, self@@.1, read_chunk_size),
    {
        PipedStreamConfig::new(self.stage.read_chunk_size(read_chunk_size))
    }
}

impl<Backend, D, R> PipedStreamConfig<Backend, StreamConfigMaxBufferedChunksBuilder<D, R>> where
    D: Delivery,
    R: Replay,
 {
    /// Selects the maximum number of chunks held by the underlying async channel.
    #[must_use]
    pub fn max_buffered_chunks(self, max_buffered_chunks: usize) -> (r: PipedStreamConfig<
        Backend,
        StreamConfigReadyBuilder<D, R>,
    >)
        requires
            max_buffered_chunks > 0,
        ensures
            r@@ == (StreamConfig {
                read_chunk_size: self@@.2,
                max_buffered_chunks,
                delivery: self@@.0,
                replay: self@@.1,
            }),
    {
        PipedStreamConfig::new(self.stage.max_buffered_chunks(max_buffered_chunks))
    }
}

impl<Backend, D, R> PipedStreamConfig<Backend, StreamConfigReadyBuilder<D, R>> where
    D: Delivery,
    R: Replay,
 {
    /// The finished configuration of the stream.
    #[must_use]
    pub fn build(self) -> (r: StreamConfig<D, R>)
        ensures
            r == self@@,
            r.is_valid(),
    {
        self.stage.build()
    }
}

impl ProcessStreamBuilder {
    /// Selects the broadcast backend for this stream.
    ///
    /// Use this when the same stdout or stderr stream must be consumed concurrently, such as
    /// logging plus readiness checks or logging plus collection.
    #[must_use]
    pub fn broadcast(self) -> (r: PipedStreamConfig<BroadcastBackend, StreamConfigBuilder>)
        ensures
            r@ == StreamConfigBuilder,
    {
        PipedStreamConfig::new(StreamConfig::builder())
    }

    /// Selects the single-subscriber backend for this stream.
    ///
    /// Use this when exactly one active consumer should own the stream and accidental concurrent
    /// fanout should be rejected early. This backend can reduce coordination overhead in some
    /// single-consumer paths, but delivery policy still determines lag behavior.
    #[must_use]
    pub fn single_subscriber(self) -> (r: PipedStreamConfig<
        SingleSubscriberBackend,
        StreamConfigBuilder,
    >)
        ensures
            r@ == StreamConfigBuilder,
    {
        PipedStreamConfig::new(StreamConfig::builder())
    }

    /// Routes the matching child stdio slot to the null device.
    ///
    /// No pipe is allocated and no reader task is spawned. Reach for this when only the exit status
    /// matters and the child's output should be dropped at the OS level.
    #[must_use]
    pub fn discard(self) -> (r: DiscardedStreamConfig)
        ensures
            r == DiscardedStreamConfig,
    {
        DiscardedStreamConfig
    }
}

} // verus!
