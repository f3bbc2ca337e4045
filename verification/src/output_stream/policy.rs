//! Delivery and replay policy types shared by output stream backends.

use crate::output_stream::num_bytes::NumBytes;
use crate::output_stream::sealed::{DeliverySealed, ReplaySealed};
use vstd::prelude::*;

verus! {

/// Marker trait implemented by supported stream delivery marker types.
pub trait Delivery:
    DeliverySealed + Clone + Copy + std::fmt::Debug + PartialEq + Eq + Send + Sync + 'static {
    /// The delivery guarantee that this marker stands for.
    spec fn guaranteed(self) -> DeliveryGuarantee;

    /// Returns the runtime delivery guarantee represented by this marker.
    fn guarantee(self) -> (r: DeliveryGuarantee)
        ensures
            r == self.guaranteed(),
    ;
}

/// Lossy stream delivery marker that never applies backpressure to the child.
///
/// **Mechanism:** The reader task keeps draining the child's pipe regardless of consumer pace. When
/// a subscriber's buffer fills, the chunk is dropped for that subscriber rather than pausing the
/// child.
///
/// **Cost:** Slow active consumers may observe gaps or dropped output. Line-aware consumers
/// discard the in-progress partial line and resync at the next newline rather than splicing across
/// the gap.
#[derive(Debug, Clone, Copy, PartialEq, Eq, Structural)]
pub struct LossyWithoutBackpressure;

impl DeliverySealed for LossyWithoutBackpressure {

}

impl Delivery for LossyWithoutBackpressure {
    open spec fn guaranteed(self) -> DeliveryGuarantee {
        DeliveryGuarantee::LossyWithoutBackpressure
    }

    fn guarantee(self) -> (r: DeliveryGuarantee)
        ensures
            r == DeliveryGuarantee::LossyWithoutBackpressure,
    {
        DeliveryGuarantee::LossyWithoutBackpressure
    }
}

/// Reliable stream delivery marker that applies backpressure to the child to keep active
/// subscribers gap-free.
///
/// **Mechanism:** When an active subscriber's buffer is full, the reader task waits before reading
/// more from the child's pipe. The kernel pipe then fills and the child's next write blocks. This
/// is the cost paid for reliability.
///
/// **Scope:** The guarantee applies only to subscribers that are *currently attached* when each
/// chunk is produced. Subscribers that attach later do not retroactively receive earlier chunks
/// from this delivery policy; that is what the replay axis is for.
#[derive(Debug, Clone, Copy, PartialEq, Eq, Structural)]
pub struct ReliableWithBackpressure;

impl DeliverySealed for ReliableWithBackpressure {

}

impl Delivery for ReliableWithBackpressure {
    open spec fn guaranteed(self) -> DeliveryGuarantee {
        DeliveryGuarantee::ReliableWithBackpressure
    }

    fn guarantee(self) -> (r: DeliveryGuarantee)
        ensures
            r == DeliveryGuarantee::ReliableWithBackpressure,
    {
        DeliveryGuarantee::ReliableWithBackpressure
    }
}

/// Marker trait implemented by supported stream replay marker types.
pub trait Replay:
    ReplaySealed + Clone + Copy + std::fmt::Debug + PartialEq + Eq + Send + Sync + 'static {
    /// What is retained for replay, if anything.
    spec fn retained(self) -> Option<ReplayRetention>;

    /// What happens to replay subscriptions once replay is sealed, if there is replay.
    spec fn when_sealed(self) -> Option<SealedReplayBehavior>;

    /// There is a behavior for sealed replay exactly if something is retained.
    proof fn sealed_exactly_if_retained(self)
        ensures
            self.when_sealed() is Some == self.retained() is Some,
    ;

    /// Returns the replay retention represented by this marker.
    fn replay_retention(self) -> (r: Option<ReplayRetention>)
        ensures
            r == self.retained(),
    ;

    /// Returns the sealed-replay behavior represented by this marker.
    fn sealed_replay_behavior(self) -> (r: Option<SealedReplayBehavior>)
        ensures
            r == self.when_sealed(),
    ;

    /// Returns whether replay-specific APIs are enabled for this marker.
    fn replay_enabled(self) -> (r: bool)
        ensures
            r == self.retained() is Some,
            r == self.when_sealed() is Some,
    ;
}

/// Marker for streams without replay support.
#[derive(Debug, Clone, Copy, PartialEq, Eq, Structural)]
pub struct NoReplay;

impl ReplaySealed for NoReplay {

}

impl Replay for NoReplay {
    open spec fn retained(self) -> Option<ReplayRetention> {
        None
    }

    open spec fn when_sealed(self) -> Option<SealedReplayBehavior> {
        None
    }

    proof fn sealed_exactly_if_retained(self) {
    }

    fn replay_retention(self) -> (r: Option<ReplayRetention>)
        ensures
            r is None,
    {
        None
    }

    fn sealed_replay_behavior(self) -> (r: Option<SealedReplayBehavior>)
        ensures
            r is None,
    {
        None
    }

    fn replay_enabled(self) -> (r: bool)
        ensures
            !r,
    {
        false
    }
}

/// Marker for streams with replay support.
#[derive(Debug, Clone, Copy, PartialEq, Eq, Structural)]
pub struct ReplayEnabled {
    /// Replay history retained for subscribers created after output has already arrived.
    pub replay_retention: ReplayRetention,
    /// How replay subscriptions behave after replay has been sealed.
    pub sealed_replay_behavior: SealedReplayBehavior,
}

impl ReplayEnabled {
    /// Creates a replay-enabled marker with the given retention.
    #[must_use]
    pub fn new(
        replay_retention: ReplayRetention,
        sealed_replay_behavior: SealedReplayBehavior,
    ) -> (r: Self)
        requires
            replay_retention.is_non_zero(),
        ensures
            r == (ReplayEnabled { replay_retention, sealed_replay_behavior }),
    {
        Self { replay_retention, sealed_replay_behavior }
    }
}

impl ReplaySealed for ReplayEnabled {

}

impl Replay for ReplayEnabled {
    open spec fn retained(self) -> Option<ReplayRetention> {
        Some(self.replay_retention)
    }

    open spec fn when_sealed(self) -> Option<SealedReplayBehavior> {
        Some(self.sealed_replay_behavior)
    }

    proof fn sealed_exactly_if_retained(self) {
    }

    fn replay_retention(self) -> (r: Option<ReplayRetention>)
        ensures
            r == Some(self.replay_retention),
    {
        Some(self.replay_retention)
    }

    fn sealed_replay_behavior(self) -> (r: Option<SealedReplayBehavior>)
        ensures
            r == Some(self.sealed_replay_behavior),
    {
        Some(self.sealed_replay_behavior)
    }

    fn replay_enabled(self) -> (r: bool)
        ensures
            r,
    {
        true
    }
}

/// Runtime delivery behavior used by typed stream modes.
///
/// The two variants describe the same trade-off as the typed [`LossyWithoutBackpressure`] and
/// [`ReliableWithBackpressure`] markers. Active subscribers either get every chunk at the cost of
/// pausing the child when their buffer is full, or they tolerate dropped chunks so the child is
/// never blocked.
#[derive(Debug, Clone, Copy, PartialEq, Eq, Structural)]
pub enum DeliveryGuarantee {
    /// Keep reading output and drop chunks for slow subscribers when bounded buffers overflow.
    /// The child is never blocked by consumer pace.
    LossyWithoutBackpressure,
    /// Wait for active subscribers before reading more output when bounded buffers are full. The
    /// child's next write blocks once the kernel pipe fills. The reliability scope is limited to
    /// subscribers attached at the time each chunk is produced; late attachers depend on the
    /// replay axis for earlier output.
    ReliableWithBackpressure,
}

/// What happens to a subscription that asks for replay after replay has been sealed.
#[derive(Debug, Clone, Copy, PartialEq, Eq, Structural)]
pub enum SealedReplayBehavior {
    /// The subscription starts at live output.
    StartAtLiveOutput,
    /// The subscription is refused.
    RejectReplaySubscribers,
}

impl Default for SealedReplayBehavior {
    fn default() -> (r: Self)
        ensures
            r == SealedReplayBehavior::StartAtLiveOutput,
    {
        SealedReplayBehavior::StartAtLiveOutput
    }
}

/// Replay history retained by replay-enabled streams.
#[derive(Debug, Clone, Copy, PartialEq, Eq, Structural)]
pub enum ReplayRetention {
    /// Keep the latest number of chunks for future subscribers.
    LastChunks(usize),
    /// Keep whole chunks covering at least the latest number of bytes.
    ///
    /// Trimming happens at chunk boundaries: chunks are removed from the front of the retained
    /// log only while doing so leaves the remaining size at or above the requested limit. Chunks
    /// are never split, so the actual retained size is "rounded up to whole chunks." A single
    /// chunk that is itself larger than the configured limit is retained in full until a newer
    /// chunk arrives that can replace it; the limit is therefore a soft floor on retention, not
    /// a hard upper bound on memory.
    ///
    /// To make the practical bound predictable, pair this with a `read_chunk_size` smaller than
    /// the retention limit so a single chunk cannot exceed the configured budget.
    LastBytes(NumBytes),
    /// Keep all output for the stream lifetime.
    ///
    /// This can retain unbounded memory. Use it only when the child process and its output volume
    /// are trusted.
    All,
}

impl ReplayRetention {
    /// Whether anything is retained at all.
    pub open spec fn is_non_zero(self) -> bool {
        match self {
            ReplayRetention::LastChunks(chunks) => chunks > 0,
            ReplayRetention::LastBytes(bytes) => bytes@ > 0,
            ReplayRetention::All => true,
        }
    }

    /// The complaint about a retention that retains nothing.
    pub open spec fn complaint(self) -> Seq<char> {
        match self {
            ReplayRetention::LastChunks(_) => " must retain at least one chunk"@,
            _ => " must retain at least one byte"@,
        }
    }

    /// Checks that anything is retained at all. The error names the parameter.
    pub fn check_non_zero(self, parameter_name: &str) -> (r: Result<(), String>)
        ensures
            match r {
                Ok(_) => self.is_non_zero(),
                Err(message) => !self.is_non_zero() && message@ == parameter_name@
                    + self.complaint(),
            },
            match self {
                ReplayRetention::LastChunks(chunks) => {
                    &&& r is Ok == (chunks > 0)
                    &&& r matches Err(message) ==> message@ == parameter_name@
                        + " must retain at least one chunk"@
                },
                ReplayRetention::LastBytes(bytes) => {
                    &&& r is Ok == (bytes@ > 0)
                    &&& r matches Err(message) ==> message@ == parameter_name@
                        + " must retain at least one byte"@
                },
                ReplayRetention::All => r is Ok,
            },
    {
        match self {
            ReplayRetention::LastChunks(0) => Err(
                parameter_name.to_owned().concat(" must retain at least one chunk"),
            ),
            ReplayRetention::LastBytes(bytes) => if bytes.bytes() == 0 {
                Err(parameter_name.to_owned().concat(" must retain at least one byte"))
            } else {
                Ok(())
            },
            _ => Ok(()),
        }
    }
}

/// The two delivery markers stand for the two guarantees.
pub proof fn markers_stand_for_guarantees()
    ensures
        LossyWithoutBackpressure.guaranteed() == DeliveryGuarantee::LossyWithoutBackpressure,
        ReliableWithBackpressure.guaranteed() == DeliveryGuarantee::ReliableWithBackpressure,
{
}

/// A marker with replay gives back the settings that it was made of.
pub proof fn replay_marker_gives_its_settings_back(
    replay_retention: ReplayRetention,
    sealed_replay_behavior: SealedReplayBehavior,
)
    ensures
        ({
            let marker = ReplayEnabled { replay_retention, sealed_replay_behavior };
            &&& marker.retained() == Some(replay_retention)
            &&& marker.when_sealed() == Some(sealed_replay_behavior)
        }),
        NoReplay.retained() is None,
        NoReplay.when_sealed() is None,
{
}

/// Only a retention of no chunk or of no byte retains nothing.
pub proof fn only_zero_retains_nothing(retention: ReplayRetention)
    ensures
        !retention.is_non_zero() == (retention == ReplayRetention::LastChunks(0) || (
        retention matches ReplayRetention::LastBytes(bytes) && bytes@ == 0)),
{
}

} // verus!
