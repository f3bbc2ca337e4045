//! Verified core of a toolkit for consuming the output of child processes.
//!
//! The crate holds what decides: how a byte stream is cut into chunks and lines, which output is
//! retained, written or waited for, and how processes are named and configured. It does no I/O of
//! its own. Where the outside world has to act, a type here says what to do next and is told how it
//! went.
//!
//! - [`output_stream::line`] parses lines, [`output_stream::line::laws`] states what holds of them,
//!   and [`output_stream::line::splitting`] what the lines of a whole stream are.
//! - [`output_stream::single_subscriber`] reads a stream in chunks, [`output_stream::delivery`]
//!   states what a consumer can conclude from the chunks it gets.
//! - [`output_stream::collection`] retains output in memory, [`output_stream::retention`] states
//!   what is retained of a whole stream.
//! - [`output_stream::visitors`] observe a stream, [`output_stream::consumption`] states what they
//!   make of it.
//! - [`process`] names and configures processes.

pub mod buffers;
pub mod error;
pub mod output_stream;
pub mod panic_on_drop;
pub mod process;

pub use error::StreamReadError;
pub use output_stream::collection::{
    CollectedBytes, CollectedLines, CollectionOverflowBehavior, LineCollectionOptions,
    LineCollectionOptionsBuilder, RawCollectionOptions,
};
pub use output_stream::config::{
    StreamConfig, StreamConfigBuilder, StreamConfigMaxBufferedChunksBuilder,
    StreamConfigReadChunkSizeBuilder, StreamConfigReadyBuilder, StreamConfigReplayBuilder,
    StreamConfigSealedReplayBehaviorBuilder,
};
pub use output_stream::consumer::{
    CollectorCancelOutcome, CollectorError, CollectorTaskError, ConsumerCancelOutcome,
    ConsumerError, InspectorCancelOutcome, InspectorError, TaskGuard,
};
pub use output_stream::event::{Chunk, StreamEvent};
pub use output_stream::line::adapter::{LineVisitor, ParseLines};
pub use output_stream::line::dispatch::{DispatchPhase, LineAction, LineDispatch};
pub use output_stream::line::options::{
    LineOverflowBehavior, LineParsingOptions, LineParsingOptionsBuilder, NotSet,
};
pub use output_stream::line::parser::LineParser;
pub use output_stream::num_bytes::{NumBytes, NumBytesExt};
pub use output_stream::options::{default_read_chunk_size, DEFAULT_MAX_BUFFERED_CHUNKS};
pub use output_stream::policy::{
    Delivery, DeliveryGuarantee, LossyWithoutBackpressure, NoReplay, ReliableWithBackpressure,
    Replay, ReplayEnabled, ReplayRetention, SealedReplayBehavior,
};
pub use output_stream::single_subscriber::{
    claim_receiver, BackpressureControl, ChunkReader, ReaderAction, ReceiverSlot, SendOutcome,
    TrySendOutcome,
};
pub use output_stream::visitor::{
    consume_event, event_step, EventStep, Progress, StreamVisitor,
};
pub use output_stream::visitors::collect::{
    CollectChunks, CollectChunksIntoVec, CollectLines, CollectLinesIntoVec, Sink,
};
pub use output_stream::visitors::inspect::{InspectChunks, InspectLineSink, InspectLineSinkAsync};
pub use output_stream::visitors::wait::{WaitForLineResult, WaitForLineSink};
pub use output_stream::visitors::write::{
    FailOnSinkWriteError, LineWriteAction, LineWriteMode, LogAndContinueSinkWriteErrors,
    SinkWriteError, SinkWriteErrorAction, SinkWriteErrorHandler, SinkWriteOperation, WriteChunks,
    WriteCollectionOptions, WriteLines,
};
pub use output_stream::Next;
pub use panic_on_drop::{DropAction, PanicOnDrop};
pub use process::builder::Process;
pub use process::command::{CommandLine, EnvVar};
pub use process::name::{generate_name, AutoName, AutoNameSettings, ProcessName};
pub use process::stream_config::{
    BroadcastBackend, ChildStdio, DiscardedStreamConfig, PipedStreamConfig, ProcessStreamBuilder,
    ProcessStreamConfig, SingleSubscriberBackend,
};
