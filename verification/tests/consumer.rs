use std::io;

use tokio::task::JoinError;
use tokio_process_tools::{
    CollectorCancelOutcome, CollectorError, CollectorTaskError, ConsumerCancelOutcome,
    ConsumerError, InspectorCancelOutcome, InspectorError, StreamReadError, TaskGuard,
};

fn read_error(stream_name: &'static str) -> StreamReadError {
    let source = io::Error::from(io::ErrorKind::BrokenPipe);
    StreamReadError::new(stream_name, source.kind(), source.to_string())
}

fn join_error() -> JoinError {
    let runtime = tokio::runtime::Builder::new_current_thread()
        .build()
        .expect("runtime starts");
    runtime.block_on(async {
        let task = tokio::spawn(std::future::pending::<()>());
        task.abort();
        task.await.expect_err("task was aborted")
    })
}

#[test]
fn mod_stream_read_display_uses_source_context() {
    let source = read_error("stdout");
    let expected = source.message();
    assert_eq!(expected, "Failed to read from stream 'stdout': broken pipe");
    let err = ConsumerError::from_task::<()>("stdout", Ok(Err(source)))
        .expect_err("the task failed to read");

    assert!(matches!(err, ConsumerError::StreamRead { .. }));
    assert_eq!(err.message(), expected);
}

#[test]
fn collect_stream_read_display_uses_source_context() {
    let source = read_error("stdout");
    let expected = source.message();
    let joined = Ok(Err(CollectorTaskError::StreamRead(source)));
    let err =
        CollectorError::from_task::<()>("stdout", joined).expect_err("the task failed to read");

    assert!(matches!(err, CollectorError::StreamRead { .. }));
    assert_eq!(err.message(), expected);
}

#[test]
fn inspect_stream_read_display_uses_source_context() {
    let source = read_error("stderr");
    let expected = source.message();
    let err = InspectorError::from_task("stderr", Ok(Err(source)))
        .expect_err("the task failed to read");

    assert!(matches!(err, InspectorError::StreamRead { .. }));
    assert_eq!(err.message(), expected);
}

#[test]
fn read_error_tells_stream_and_kind() {
    let error = read_error("stderr");
    assert_eq!(error.stream_name(), "stderr");
    assert_eq!(error.kind(), io::ErrorKind::BrokenPipe);
    assert_eq!(error.clone(), error);
    assert_ne!(error, read_error("stdout"));
}

#[test]
fn join_failures_name_the_task() {
    let text = join_error().to_string();

    let err = ConsumerError::from_task::<()>("stdout", Err(join_error())).unwrap_err();
    assert!(matches!(err, ConsumerError::TaskJoin { stream_name: "stdout", .. }));
    assert!(err
        .message()
        .starts_with("Failed to join/terminate the consumer task over stream 'stdout': task "));
    assert!(text.starts_with("task "));

    let err = InspectorError::from_task("stdout", Err(join_error())).unwrap_err();
    assert!(err
        .message()
        .starts_with("Failed to join/terminate the inspector task over stream 'stdout': task "));

    let err = CollectorError::from_task::<()>("stderr", Err(join_error())).unwrap_err();
    assert!(err
        .message()
        .starts_with("Failed to join/terminate the collector task over stream 'stderr': task "));
}

#[test]
fn sink_failures_name_the_stream() {
    let source = io::Error::from(io::ErrorKind::StorageFull);
    let text = source.to_string();
    let joined = Ok(Err(CollectorTaskError::SinkWrite(source)));
    let err = CollectorError::from_task::<()>("stdout", joined).unwrap_err();
    assert_eq!(
        err.message(),
        format!("Failed to write collected output from stream 'stdout' to sink: {text}")
    );
}

#[test]
fn successful_tasks_hand_back_their_sink() {
    assert!(matches!(ConsumerError::from_task("stdout", Ok(Ok(7))), Ok(7)));
    assert!(matches!(CollectorError::from_task("stdout", Ok(Ok(8))), Ok(8)));
    assert!(InspectorError::from_task("stdout", Ok(Ok(()))).is_ok());
}

#[test]
fn cancellation_is_told_apart_from_abortion() {
    assert!(matches!(
        ConsumerCancelOutcome::from_sink(Some(1)),
        ConsumerCancelOutcome::Cancelled(1)
    ));
    assert!(matches!(
        ConsumerCancelOutcome::<u8>::from_sink(None),
        ConsumerCancelOutcome::Aborted
    ));
    assert!(matches!(
        CollectorCancelOutcome::from_sink(Some(1)),
        CollectorCancelOutcome::Cancelled(1)
    ));
    assert!(matches!(
        CollectorCancelOutcome::<u8>::from_sink(None),
        CollectorCancelOutcome::Aborted
    ));
    assert_eq!(
        InspectorCancelOutcome::from_stopped(true),
        InspectorCancelOutcome::Cancelled
    );
    assert_eq!(
        InspectorCancelOutcome::from_stopped(false),
        InspectorCancelOutcome::Aborted
    );
}

#[test]
fn guard_hands_out_each_part_once() {
    let mut guard = TaskGuard::new(1u8, 'x');
    assert_eq!(guard.task(), Some(&1));
    if let Some(task) = guard.task_mut() {
        *task = 2;
    }
    assert_eq!(guard.take_sender(), Some('x'));
    assert_eq!(guard.take_sender(), None);
    assert_eq!(guard.take_task(), Some(2));
    assert_eq!(guard.take_task(), None);
    assert_eq!(guard.task(), None);

    let mut guard = TaskGuard::new(1u8, 'x');
    guard.finish();
    assert_eq!(guard.take_task(), None);
    assert_eq!(guard.take_sender(), None);
}
