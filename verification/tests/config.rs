use tokio_process_tools::output_stream::options::{
    check_bytes_non_zero, check_max_buffered_chunks_non_zero, DEFAULT_READ_CHUNK_BYTES,
};
use tokio_process_tools::{
    default_read_chunk_size, ChildStdio, Delivery, DeliveryGuarantee, LossyWithoutBackpressure,
    NoReplay, NumBytes, NumBytesExt, ProcessStreamBuilder, ProcessStreamConfig,
    ReliableWithBackpressure, Replay, ReplayEnabled, ReplayRetention, SealedReplayBehavior,
    StreamConfig, StreamConfigReadChunkSizeBuilder, DEFAULT_MAX_BUFFERED_CHUNKS,
};

fn default_builder<D, R>(builder: StreamConfigReadChunkSizeBuilder<D, R>) -> StreamConfig<D, R>
where
    D: Delivery,
    R: Replay,
{
    builder
        .read_chunk_size(default_read_chunk_size())
        .max_buffered_chunks(DEFAULT_MAX_BUFFERED_CHUNKS)
        .build()
}

#[test]
fn builder_creates_best_effort_no_replay_config() {
    let config: StreamConfig<LossyWithoutBackpressure, NoReplay> =
        default_builder(StreamConfig::builder().best_effort_delivery().no_replay());

    assert_eq!(
        config.delivery_guarantee(),
        DeliveryGuarantee::LossyWithoutBackpressure
    );
    assert!(!config.replay_enabled());
    assert!(config.replay_retention().is_none());
    assert!(config.sealed_replay_behavior().is_none());
    assert_eq!(config.read_chunk_size, default_read_chunk_size());
    assert_eq!(config.max_buffered_chunks, DEFAULT_MAX_BUFFERED_CHUNKS);
}

#[test]
fn builder_creates_reliable_no_replay_config() {
    let config: StreamConfig<ReliableWithBackpressure, NoReplay> = default_builder(
        StreamConfig::builder()
            .reliable_for_active_subscribers()
            .no_replay(),
    );

    assert_eq!(
        config.delivery_guarantee(),
        DeliveryGuarantee::ReliableWithBackpressure
    );
    assert!(!config.replay_enabled());
    assert!(config.replay_retention().is_none());
    assert!(config.sealed_replay_behavior().is_none());
}

#[test]
fn builder_creates_best_effort_replay_config() {
    let config: StreamConfig<LossyWithoutBackpressure, ReplayEnabled> = default_builder(
        StreamConfig::builder()
            .best_effort_delivery()
            .replay_last_chunks(2)
            .sealed_replay_behavior(SealedReplayBehavior::RejectReplaySubscribers),
    );

    assert_eq!(
        config.delivery_guarantee(),
        DeliveryGuarantee::LossyWithoutBackpressure
    );
    assert_eq!(
        config.replay_retention(),
        Some(ReplayRetention::LastChunks(2))
    );
    assert_eq!(
        config.sealed_replay_behavior(),
        Some(SealedReplayBehavior::RejectReplaySubscribers)
    );
}

#[test]
fn builder_creates_reliable_replay_config() {
    let config: StreamConfig<ReliableWithBackpressure, ReplayEnabled> = default_builder(
        StreamConfig::builder()
            .reliable_for_active_subscribers()
            .replay_last_bytes(16.bytes())
            .sealed_replay_behavior(SealedReplayBehavior::StartAtLiveOutput),
    );

    assert_eq!(
        config.delivery_guarantee(),
        DeliveryGuarantee::ReliableWithBackpressure
    );
    assert_eq!(
        config.replay_retention(),
        Some(ReplayRetention::LastBytes(16.bytes()))
    );
}

fn assert_replay_settings_come_together<D, R>(config: StreamConfig<D, R>, enabled: bool)
where
    D: Delivery,
    R: Replay,
{
    assert_eq!(config.replay_enabled(), enabled);
    assert_eq!(config.replay_retention().is_some(), enabled);
    assert_eq!(config.sealed_replay_behavior().is_some(), enabled);
}

#[test]
fn only_no_replay_disables_replay() {
    let builder = StreamConfig::builder().best_effort_delivery();
    let sealed = SealedReplayBehavior::StartAtLiveOutput;
    assert_replay_settings_come_together(default_builder(builder.no_replay()), false);
    for replay in [
        builder.replay_all(),
        builder.replay_last_chunks(1),
        builder.replay_last_bytes(1.bytes()),
    ] {
        let config = default_builder(replay.sealed_replay_behavior(sealed));
        assert_replay_settings_come_together(config, true);
    }
    let reliable = StreamConfig::builder().reliable_for_active_subscribers();
    assert_replay_settings_come_together(default_builder(reliable.no_replay()), false);
}

#[test]
fn replay_settings_can_be_replaced() {
    let config = default_builder(
        StreamConfig::builder()
            .best_effort_delivery()
            .replay_all()
            .sealed_replay_behavior(SealedReplayBehavior::StartAtLiveOutput),
    );
    assert!(config.replay_enabled());
    assert_eq!(config.replay_retention(), Some(ReplayRetention::All));

    let config = config
        .with_replay_retention(ReplayRetention::LastBytes(5.bytes()))
        .with_sealed_replay_behavior(SealedReplayBehavior::RejectReplaySubscribers);
    assert_eq!(
        config.replay,
        ReplayEnabled::new(
            ReplayRetention::LastBytes(5.bytes()),
            SealedReplayBehavior::RejectReplaySubscribers,
        )
    );
    assert_eq!(config.read_chunk_size, default_read_chunk_size());
}

#[test]
fn panics_on_zero_value() {
    assert_eq!(
        check_bytes_non_zero(NumBytes::zero(), "read_chunk_size"),
        Err("read_chunk_size must be greater than zero bytes".to_string())
    );
    assert_eq!(check_bytes_non_zero(1.bytes(), "read_chunk_size"), Ok(()));
}

#[test]
fn panics_on_zero_for_single_subscriber() {
    assert_eq!(
        check_max_buffered_chunks_non_zero(0, "max_buffered_chunks"),
        Err("max_buffered_chunks must be greater than zero".to_string())
    );
    let config = ProcessStreamBuilder
        .single_subscriber()
        .best_effort_delivery()
        .no_replay()
        .read_chunk_size(8.bytes())
        .max_buffered_chunks(1);
    assert_eq!(config.child_stdio(), ChildStdio::Piped);
    assert_eq!(config.build().check_valid("options"), Ok(()));
}

#[test]
fn panics_on_zero_for_broadcast() {
    assert_eq!(
        check_max_buffered_chunks_non_zero(0, "max_buffered_chunks"),
        Err("max_buffered_chunks must be greater than zero".to_string())
    );
    let config = ProcessStreamBuilder
        .broadcast()
        .best_effort_delivery()
        .no_replay()
        .read_chunk_size(8.bytes())
        .max_buffered_chunks(1);
    assert_eq!(config.child_stdio(), ChildStdio::Piped);
    assert_eq!(config.build().check_valid("options"), Ok(()));
}

#[test]
fn replay_retention_must_retain_something() {
    assert_eq!(
        ReplayRetention::LastChunks(0).check_non_zero("chunks"),
        Err("chunks must retain at least one chunk".to_string())
    );
    assert_eq!(
        ReplayRetention::LastBytes(NumBytes::zero()).check_non_zero("bytes"),
        Err("bytes must retain at least one byte".to_string())
    );
    assert_eq!(ReplayRetention::LastChunks(1).check_non_zero("x"), Ok(()));
    assert_eq!(
        ReplayRetention::LastBytes(1.bytes()).check_non_zero("x"),
        Ok(())
    );
    assert_eq!(ReplayRetention::All.check_non_zero("x"), Ok(()));
}

#[test]
fn validation_names_the_first_invalid_setting() {
    let config = |chunk_size: usize, chunks: usize, retention: ReplayRetention| StreamConfig {
        read_chunk_size: chunk_size.bytes(),
        max_buffered_chunks: chunks,
        delivery: LossyWithoutBackpressure,
        replay: ReplayEnabled {
            replay_retention: retention,
            sealed_replay_behavior: SealedReplayBehavior::StartAtLiveOutput,
        },
    };
    let zero = ReplayRetention::LastBytes(NumBytes::zero());

    assert_eq!(
        config(8, 2, zero).check_valid("options"),
        Err("options.replay_retention must retain at least one byte".to_string())
    );
    assert_eq!(
        config(8, 0, zero).check_valid("options"),
        Err("options.max_buffered_chunks must be greater than zero".to_string())
    );
    assert_eq!(
        config(0, 0, zero).check_valid("options"),
        Err("options.read_chunk_size must be greater than zero bytes".to_string())
    );
    assert_eq!(config(8, 2, ReplayRetention::All).check_valid("options"), Ok(()));
}

#[test]
fn piped_replay_starts_at_live_output_once_sealed() {
    let config = ProcessStreamBuilder
        .broadcast()
        .reliable_for_active_subscribers()
        .replay_last_chunks(3)
        .read_chunk_size(8.bytes())
        .max_buffered_chunks(1)
        .build();
    assert_eq!(
        config.replay_retention(),
        Some(ReplayRetention::LastChunks(3))
    );
    assert_eq!(
        config.sealed_replay_behavior(),
        Some(SealedReplayBehavior::StartAtLiveOutput)
    );
    assert_eq!(
        SealedReplayBehavior::default(),
        SealedReplayBehavior::StartAtLiveOutput
    );
}

#[test]
fn discarded_streams_need_no_pipe() {
    assert_eq!(
        ProcessStreamBuilder.discard().child_stdio(),
        ChildStdio::Null
    );
}

#[test]
fn byte_counts_use_binary_units() {
    assert_eq!(3.bytes().bytes(), 3);
    assert_eq!(3.kilobytes().bytes(), 3 * 1024);
    assert_eq!(3.megabytes().bytes(), 3 * 1024 * 1024);
    assert_eq!(NumBytes::zero().bytes(), 0);
    assert_eq!(NumBytes::max_value().bytes(), usize::MAX);
    assert_eq!(default_read_chunk_size().bytes(), 16 * 1024);
    assert_eq!(DEFAULT_READ_CHUNK_BYTES, 16 * 1024);
    assert_eq!(DEFAULT_MAX_BUFFERED_CHUNKS, 128);
}
