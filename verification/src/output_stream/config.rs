//! Shared stream consumption configuration.

use crate::output_stream::num_bytes::NumBytes;
use crate::output_stream::options::{check_bytes_non_zero, check_max_buffered_chunks_non_zero};
use crate::output_stream::policy::{
    Delivery, DeliveryGuarantee, LossyWithoutBackpressure, NoReplay, ReliableWithBackpressure,
    Replay, ReplayEnabled, ReplayRetention, SealedReplayBehavior,
};
use vstd::prelude::*;

verus! {

/// Shared output stream configuration for all stream backends.
#[derive(Debug, PartialEq, Eq)]
pub struct StreamConfig<D = LossyWithoutBackpressure, R = NoReplay> where D: Delivery, R: Replay {
    /// The size of an individual chunk read from the underlying process stream.
    ///
    /// Must be greater than zero.
    pub read_chunk_size: NumBytes,
    /// The number of chunks held by the underlying async channel.
    ///
    /// Must be greater than zero.
    /// With [`DeliveryGuarantee::ReliableWithBackpressure`], it is the maximum unread chunk
    /// lag an active subscriber can have before reading waits.
    pub max_buffered_chunks: usize,
    /// How slow active subscribers affect reading from the underlying stream.
    pub delivery: D,
    /// Whether and how replay history is retained for subscribers that attach after output arrives.
    pub replay: R,
}

impl<D: Delivery, R: Replay> Clone for StreamConfig<D, R> {
    fn clone(&self) -> (r: Self)
        ensures
            r == *self,
    {
        *self
    }
}

impl<D: Delivery, R: Replay> Copy for StreamConfig<D, R> {

}

/// Whether a replay marker retains anything if it enables replay.
pub open spec fn replay_is_valid<R: Replay>(replay: R) -> bool {
    replay.retained() matches Some(retention) ==> retention.is_non_zero()
}

impl StreamConfig<LossyWithoutBackpressure, NoReplay> {
    /// Starts building an output stream configuration.
    ///
    /// The builder requires explicit delivery, replay, read chunk size, and maximum buffered chunk
    /// count before a [`StreamConfig`] can be built.
    #[must_use]
    pub fn builder() -> (r: StreamConfigBuilder)
        ensures
            r == StreamConfigBuilder,
    {
        StreamConfigBuilder
    }
}

/// Initial builder stage that requires selecting delivery behavior.
#[derive(Debug, Clone, Copy, PartialEq, Eq, Structural)]
pub struct StreamConfigBuilder;

impl StreamConfigBuilder {
    /// Delivery that lets slow subscribers lag behind, not providing them with all possibly
    /// observable data.
    #[must_use]
    pub fn best_effort_delivery(self) -> (r: StreamConfigReplayBuilder<LossyWithoutBackpressure>)
        ensures
            r@ == LossyWithoutBackpressure,
    {
        StreamConfigReplayBuilder { delivery: LossyWithoutBackpressure }
    }

    /// Delivery that waits for active subscribers when they lag behind.
    ///
    /// This does not guarantee full reliability in the terms of "definitely receiving all events".
    /// That is controlled by the upcoming "replay" settings. This setting here only guarantees
    /// that registered and listening consumers will see all events.
    #[must_use]
    pub fn reliable_for_active_subscribers(self) -> (r: StreamConfigReplayBuilder<
        ReliableWithBackpressure,
    >)
        ensures
            r@ == ReliableWithBackpressure,
    {
        StreamConfigReplayBuilder { delivery: ReliableWithBackpressure }
    }
}

/// Builder stage that requires selecting replay behavior.
#[derive(Debug, PartialEq, Eq)]
pub struct StreamConfigReplayBuilder<D> where D: Delivery {
    delivery: D,
}

impl<D: Delivery> Clone for StreamConfigReplayBuilder<D> {
    fn clone(&self) -> (r: Self)
        ensures
            r == *self,
    {
        *self
    }
}

impl<D: Delivery> Copy for StreamConfigReplayBuilder<D> {

}

impl<D: Delivery> View for StreamConfigReplayBuilder<D> {
    type V = D;

    closed spec fn view(&self) -> D {
        self.delivery
    }
}

impl<D> StreamConfigReplayBuilder<D> where D: Delivery {
    /// Disables replay for future subscribers.
    ///
    /// Consumers that attach after output has already arrived start at live output.
    #[must_use]
    pub fn no_replay(self) -> (r: StreamConfigReadChunkSizeBuilder<D, NoReplay>)
        ensures
            r@ == (self@, NoReplay),
    {
        StreamConfigReadChunkSizeBuilder { delivery: self.delivery, replay: NoReplay }
    }

    /// Keeps the latest number of chunks for future subscribers.
    #[must_use]
    pub fn replay_last_chunks(self, chunks: usize) -> (r: StreamConfigSealedReplayBehaviorBuilder<
        D,
    >)
        requires
            chunks > 0,
        ensures
            r@ == (self@, ReplayRetention::LastChunks(chunks)),
    {
        StreamConfigSealedReplayBehaviorBuilder {
            delivery: self.delivery,
            replay_retention: ReplayRetention::LastChunks(chunks),
        }
    }

    /// Keeps whole chunks covering at least the latest number of bytes.
    #[must_use]
    pub fn replay_last_bytes(self, bytes: NumBytes) -> (r: StreamConfigSealedReplayBehaviorBuilder<
        D,
    >)
        requires
            bytes@ > 0,
        ensures
            r@ == (self@, ReplayRetention::LastBytes(bytes)),
    {
        StreamConfigSealedReplayBehaviorBuilder {
            delivery: self.delivery,
            replay_retention: ReplayRetention::LastBytes(bytes),
        }
    }

    /// Retains all output of the stream.
    ///
    /// This can potentially grow massively and could require a lot of memory.
    #[must_use]
    pub fn replay_all(self) -> (r: StreamConfigSealedReplayBehaviorBuilder<D>)
        ensures
            r@ == (self@, ReplayRetention::All),
    {
        StreamConfigSealedReplayBehaviorBuilder {
            delivery: self.delivery,
            replay_retention: ReplayRetention::All,
        }
    }
}

/// Builder stage that requires selecting sealed-replay behavior.
#[derive(Debug, PartialEq, Eq)]
pub struct StreamConfigSealedReplayBehaviorBuilder<D> where D: Delivery {
    delivery: D,
    replay_retention: ReplayRetention,
}

impl<D: Delivery> Clone for StreamConfigSealedReplayBehaviorBuilder<D> {
    fn clone(&self) -> (r: Self)
        ensures
            r == *self,
    {
        *self
    }
}

impl<D: Delivery> Copy for StreamConfigSealedReplayBehaviorBuilder<D> {

}

impl<D: Delivery> View for StreamConfigSealedReplayBehaviorBuilder<D> {
    type V = (D, ReplayRetention);

    closed spec fn view(&self) -> (D, ReplayRetention) {
        (self.delivery, self.replay_retention)
    }
}

impl<D> StreamConfigSealedReplayBehaviorBuilder<D> where D: Delivery {
    #[verifier::type_invariant]
    spec fn retains_something(self) -> bool {
        self.replay_retention.is_non_zero()
    }

    /// Selects how explicit replay-from-start subscriptions behave after replay has been sealed.
    #[must_use]
    pub fn sealed_replay_behavior(self, sealed_replay_behavior: SealedReplayBehavior) -> (r:
        StreamConfigReadChunkSizeBuilder<D, ReplayEnabled>)
        ensures
            r@ == (self@.0, (ReplayEnabled {
                replay_retention: self@.1,
                sealed_replay_behavior,
            })),
    {
        proof {
            use_type_invariant(&self);
        }
        StreamConfigReadChunkSizeBuilder {
            delivery: self.delivery,
            replay: ReplayEnabled::new(self.replay_retention, sealed_replay_behavior),
        }
    }
}

/// Builder stage that requires selecting the read chunk size.
#[derive(Debug, PartialEq, Eq)]
pub struct StreamConfigReadChunkSizeBuilder<D, R> where D: Delivery, R: Replay {
    delivery: D,
    replay: R,
}

impl<D: Delivery, R: Replay> Clone for StreamConfigReadChunkSizeBuilder<D, R> {
    fn clone(&self) -> (r: Self)
        ensures
            r == *self,
    {
        *self
    }
}

impl<D: Delivery, R: Replay> Copy for StreamConfigReadChunkSizeBuilder<D, R> {

}

impl<D: Delivery, R: Replay> View for StreamConfigReadChunkSizeBuilder<D, R> {
    type V = (D, R);

    closed spec fn view(&self) -> (D, R) {
        (self.delivery, self.replay)
    }
}

impl<D, R> StreamConfigReadChunkSizeBuilder<D, R> where D: Delivery, R: Replay {
    #[verifier::type_invariant]
    spec fn replay_is_set(self) -> bool {
        replay_is_valid(self.replay)
    }

    /// Selects the size of chunks read from the underlying process stream.
    #[must_use]
    pub fn read_chunk_size(self, read_chunk_size: NumBytes) -> (r:
        StreamConfigMaxBufferedChunksBuilder<D, R>)
        requires
            read_chunk_size@ > 0,
        ensures
            r@ == (self@.0, self@.1, read_chunk_size),
    {
        proof {
            use_type_invariant(&self);
        }
        StreamConfigMaxBufferedChunksBuilder {
            delivery: self.delivery,
            replay: self.replay,
            read_chunk_size,
        }
    }
}

/// Builder stage that requires selecting the maximum number of buffered chunks.
#[derive(Debug, PartialEq, Eq)]
pub struct StreamConfigMaxBufferedChunksBuilder<D, R> where D: Delivery, R: Replay {
    delivery: D,
    replay: R,
    read_chunk_size: NumBytes,
}

impl<D: Delivery, R: Replay> Clone for StreamConfigMaxBufferedChunksBuilder<D, R> {
    fn clone(&self) -> (r: Self)
        ensures
            r == *self,
    {
        *self
    }
}

impl<D: Delivery, R: Replay> Copy for StreamConfigMaxBufferedChunksBuilder<D, R> {

}

impl<D: Delivery, R: Replay> View for StreamConfigMaxBufferedChunksBuilder<D, R> {
    type V = (D, R, NumBytes);

    closed spec fn view(&self) -> (D, R, NumBytes) {
        (self.delivery, self.replay, self.read_chunk_size)
    }
}

impl<D, R> StreamConfigMaxBufferedChunksBuilder<D, R> where D: Delivery, R: Replay {
    #[verifier::type_invariant]
    spec fn chunk_size_is_set(self) -> bool {
        replay_is_valid(self.replay) && self.read_chunk_size@ > 0
    }

    /// Selects the number of chunks held by the underlying async channel.
    #[must_use]
    pub fn max_buffered_chunks(self, max_buffered_chunks: usize) -> (r: StreamConfigReadyBuilder<
        D,
        R,
    >)
        requires
            max_buffered_chunks > 0,
        ensures
            r@ == (StreamConfig {
                read_chunk_size: self@.2,
                max_buffered_chunks,
                delivery: self@.0,
                replay: self@.1,
            }),
    {
        proof {
            use_type_invariant(&self);
        }
        StreamConfigReadyBuilder {
            config: StreamConfig {
                read_chunk_size: self.read_chunk_size,
                max_buffered_chunks,
                delivery: self.delivery,
                replay: self.replay,
            },
        }
    }
}

/// Final builder stage for [`StreamConfig`].
#[derive(Debug, PartialEq, Eq)]
pub struct StreamConfigReadyBuilder<D, R> where D: Delivery, R: Replay {
    config: StreamConfig<D, R>,
}

impl<D: Delivery, R: Replay> Clone for StreamConfigReadyBuilder<D, R> {
    fn clone(&self) -> (r: Self)
        ensures
            r == *self,
    {
        *self
    }
}

impl<D: Delivery, R: Replay> Copy for StreamConfigReadyBuilder<D, R> {

}

impl<D: Delivery, R: Replay> View for StreamConfigReadyBuilder<D, R> {
    type V = StreamConfig<D, R>;

    closed spec fn view(&self) -> StreamConfig<D, R> {
        self.config
    }
}

impl<D, R> StreamConfigReadyBuilder<D, R> where D: Delivery, R: Replay {
    #[verifier::type_invariant]
    spec fn config_is_valid(self) -> bool {
        self.config.is_valid()
    }

    /// Builds the configured stream mode. What comes out of the builder is always valid.
    #[must_use]
    pub fn build(self) -> (r: StreamConfig<D, R>)
        ensures
            r == self@,
            r.is_valid(),
    {
        proof {
            use_type_invariant(&self);
        }
        self.config
    }
}

impl<D, R> StreamConfig<D, R> where D: Delivery, R: Replay {
    /// Whether no setting is zero that must not be.
    pub open spec fn is_valid(self) -> bool {
        &&& self.read_chunk_size@ > 0
        &&& self.max_buffered_chunks > 0
        &&& replay_is_valid(self.replay)
    }

    /// Returns the runtime delivery guarantee represented by this configuration.
    #[must_use]
    pub fn delivery_guarantee(self) -> (r: DeliveryGuarantee)
        ensures
            r == self.delivery.guaranteed(),
    {
        self.delivery.guarantee()
    }

    /// Returns the replay retention represented by this configuration.
    #[must_use]
    pub fn replay_retention(self) -> (r: Option<ReplayRetention>)
        ensures
            r == self.replay.retained(),
    {
        self.replay.replay_retention()
    }

    /// Returns the sealed-replay behavior represented by this configuration.
    #[must_use]
    pub fn sealed_replay_behavior(self) -> (r: Option<SealedReplayBehavior>)
        ensures
            r == self.replay.when_sealed(),
    {
        self.replay.sealed_replay_behavior()
    }

    /// Returns whether this configuration enables replay-specific APIs.
    #[must_use]
    pub fn replay_enabled(self) -> (r: bool)
        ensures
            r == self.replay.retained() is Some,
            r == self.replay.when_sealed() is Some,
    {
        self.replay.replay_enabled()
    }

    /// Checks all settings of a configuration that was not made by the builder. The error names the
    /// first setting that is zero, as a part of the named parameter.
    pub fn check_valid(self, parameter_name: &str) -> (r: Result<(), String>)
        ensures
            match r {
                Ok(_) => self.is_valid(),
                Err(message) => message@ == parameter_name@ + if self.read_chunk_size@ == 0 {
                    ".read_chunk_size"@ + " must be greater than zero bytes"@
                } else if self.max_buffered_chunks == 0 {
                    ".max_buffered_chunks"@ + " must be greater than zero"@
                } else {
                    ".replay_retention"@ + self.replay.retained()->Some_0.complaint()
                } && !self.is_valid(),
            },
    {
        let name = parameter_name.to_owned().concat(".read_chunk_size");
        match check_bytes_non_zero(self.read_chunk_size, name.as_str()) {
            Ok(()) => {},
            Err(message) => {
                assert(message@ =~= parameter_name@ + (".read_chunk_size"@
                    + " must be greater than zero bytes"@));
                return Err(message);
            },
        }
        let name = parameter_name.to_owned().concat(".max_buffered_chunks");
        match check_max_buffered_chunks_non_zero(self.max_buffered_chunks, name.as_str()) {
            Ok(()) => {},
            Err(message) => {
                assert(message@ =~= parameter_name@ + (".max_buffered_chunks"@
                    + " must be greater than zero"@));
                return Err(message);
            },
        }
        if let Some(replay_retention) = self.replay_retention() {
            let name = parameter_name.to_owned().concat(".replay_retention");
            match replay_retention.check_non_zero(name.as_str()) {
                Ok(()) => {},
                Err(message) => {
                    assert(message@ =~= parameter_name@ + (".replay_retention"@
                        + replay_retention.complaint()));
                    return Err(message);
                },
            }
        }
        Ok(())
    }
}

impl<D> StreamConfig<D, ReplayEnabled> where D: Delivery {
    /// Returns this replay-enabled configuration with custom replay retention.
    #[must_use]
    pub fn with_replay_retention(self, replay_retention: ReplayRetention) -> (r: Self)
        requires
            replay_retention.is_non_zero(),
        ensures
            r == (StreamConfig {
                replay: ReplayEnabled { replay_retention, ..self.replay },
                ..self
            }),
    {
        StreamConfig { replay: ReplayEnabled { replay_retention, ..self.replay }, ..self }
    }

    /// Returns this replay-enabled configuration with custom sealed-replay behavior.
    #[must_use]
    pub fn with_sealed_replay_behavior(self, sealed_replay_behavior: SealedReplayBehavior) -> (r:
        Self)
        ensures
            r == (StreamConfig {
                replay: ReplayEnabled { sealed_replay_behavior, ..self.replay },
                ..self
            }),
    {
        StreamConfig { replay: ReplayEnabled { sealed_replay_behavior, ..self.replay }, ..self }
    }
}

/// The replay settings come together: a configuration has a behavior for sealed replay exactly if it
/// retains something, and that is when replay is enabled.
pub proof fn replay_settings_come_together<D: Delivery, R: Replay>(config: StreamConfig<D, R>)
    ensures
        config.replay.when_sealed() is Some == config.replay.retained() is Some,
{
    config.replay.sealed_exactly_if_retained();
}

/// Replay is disabled by [`StreamConfigReplayBuilder::no_replay`], and by no other choice.
pub proof fn only_no_replay_disables_replay<D: Delivery>(
    without: StreamConfig<D, NoReplay>,
    with: StreamConfig<D, ReplayEnabled>,
)
    ensures
        without.replay.retained() is None,
        without.replay.when_sealed() is None,
        with.replay.retained() is Some,
        with.replay.when_sealed() is Some,
{
}

/// A configuration is valid exactly if a chunk holds a byte, the channel holds a chunk, and replay
/// retains something if there is replay.
pub proof fn valid_exactly_if_nothing_is_zero<D: Delivery>(
    without: StreamConfig<D, NoReplay>,
    with: StreamConfig<D, ReplayEnabled>,
)
    ensures
        without.is_valid() == (without.read_chunk_size@ > 0 && without.max_buffered_chunks > 0),
        with.is_valid() == (with.read_chunk_size@ > 0 && with.max_buffered_chunks > 0 && (
        match with.replay.replay_retention {
            ReplayRetention::LastChunks(chunks) => chunks > 0,
            ReplayRetention::LastBytes(bytes) => bytes@ > 0,
            ReplayRetention::All => true,
        })),
{
}

} // verus!
