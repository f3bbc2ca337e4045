use std::io;
use std::sync::{Arc, Mutex};

use tokio_process_tools::{
    LineParsingOptions, LineWriteAction, LineWriteMode, Next, SinkWriteError, SinkWriteErrorAction,
    SinkWriteErrorHandler, SinkWriteOperation, StreamEvent, StreamReadError, WriteChunks,
    WriteCollectionOptions, WriteLines,
};

/// A writer that fails once it has succeeded a number of times.
#[derive(Debug)]
struct FailingWrite {
    fail_after_successful_writes: usize,
    error_kind: io::ErrorKind,
    write_calls: usize,
    bytes: Vec<u8>,
}

impl FailingWrite {
    fn new(fail_after_successful_writes: usize, error_kind: io::ErrorKind) -> Self {
        Self {
            fail_after_successful_writes,
            error_kind,
            write_calls: 0,
            bytes: Vec::new(),
        }
    }

    fn never() -> Self {
        Self::new(usize::MAX, io::ErrorKind::Other)
    }

    fn write(&mut self, bytes: &[u8]) -> io::Result<()> {
        self.write_calls += 1;
        if self.write_calls > self.fail_after_successful_writes {
            return Err(io::Error::new(self.error_kind, "injected write failure"));
        }
        self.bytes.extend_from_slice(bytes);
        Ok(())
    }
}

fn write_chunks<H: SinkWriteErrorHandler>(
    chunks: &[&[u8]],
    mut writer: FailingWrite,
    options: WriteCollectionOptions<H>,
) -> Result<FailingWrite, SinkWriteError> {
    let mut visitor = WriteChunks::new("custom", options);
    for chunk in chunks {
        let result = writer.write(chunk);
        if visitor.on_chunk_written(chunk.len(), result) == Next::Break {
            break;
        }
    }
    visitor.into_output(writer)
}

fn write_lines<H: SinkWriteErrorHandler>(
    events: Vec<StreamEvent>,
    mut writer: FailingWrite,
    mode: LineWriteMode,
    options: WriteCollectionOptions<H>,
) -> Result<FailingWrite, SinkWriteError> {
    let mut events = events.into_iter();
    let mut visitor = WriteLines::new("custom", options, LineParsingOptions::default(), mode);
    let mut action = LineWriteAction::NextEvent;
    loop {
        action = match action {
            LineWriteAction::NextEvent => {
                let event = events.next();
                assert!(visitor.has_room(&event));
                visitor.on_event(event)
            }
            LineWriteAction::WriteLine(line) => {
                let result = writer.write(line.as_bytes());
                visitor.on_line_written(line.len(), result)
            }
            LineWriteAction::WriteDelimiter => {
                let result = writer.write(b"\n");
                visitor.on_delimiter_written(result)
            }
            LineWriteAction::Finished => return visitor.into_output(writer),
            LineWriteAction::Failed(error) => panic!("{}", error.message()),
        };
    }
}

#[test]
fn write_chunk_writer_reports_and_can_handle_sink_write_errors() {
    let err = write_chunks(
        &[b"abc"],
        FailingWrite::new(0, io::ErrorKind::BrokenPipe),
        WriteCollectionOptions::fail_fast(),
    )
    .expect_err("the write fails");
    assert_eq!(err.stream_name(), "custom");
    assert_eq!(err.source().kind(), io::ErrorKind::BrokenPipe);
    assert_eq!(err.operation(), SinkWriteOperation::Chunk);
    assert_eq!(err.attempted_len(), 3);
    assert_eq!(
        err.message(),
        "Failed to write consumed output from stream 'custom' to sink: injected write failure"
    );
    assert_eq!(err.into_source().kind(), io::ErrorKind::BrokenPipe);

    let handled_count = Arc::new(Mutex::new(0_usize));
    let count_for_handler = Arc::clone(&handled_count);
    let write = write_chunks(
        &[b"abc"],
        FailingWrite::new(0, io::ErrorKind::BrokenPipe),
        WriteCollectionOptions::with_error_handler(move |err| {
            assert_eq!(err.stream_name(), "custom");
            assert_eq!(err.source().kind(), io::ErrorKind::BrokenPipe);
            *count_for_handler.lock().unwrap() += 1;
            SinkWriteErrorAction::Continue
        }),
    )
    .expect("the handler continues");
    assert_eq!(write.bytes.len(), 0);
    assert_eq!(*handled_count.lock().unwrap(), 1);
}

#[test]
fn write_line_writer_reports_line_and_delimiter_write_errors() {
    let err = write_lines(
        vec![StreamEvent::chunk(b"line\n"), StreamEvent::Eof],
        FailingWrite::new(0, io::ErrorKind::BrokenPipe),
        LineWriteMode::AppendLf,
        WriteCollectionOptions::fail_fast(),
    )
    .expect_err("writing the line fails");
    assert_eq!(err.source().kind(), io::ErrorKind::BrokenPipe);
    assert_eq!(err.operation(), SinkWriteOperation::Line);
    assert_eq!(err.attempted_len(), 4);

    let err = write_lines(
        vec![StreamEvent::chunk(b"line\n"), StreamEvent::Eof],
        FailingWrite::new(1, io::ErrorKind::WriteZero),
        LineWriteMode::AppendLf,
        WriteCollectionOptions::fail_fast(),
    )
    .expect_err("writing the delimiter fails");
    assert_eq!(err.source().kind(), io::ErrorKind::WriteZero);
    assert_eq!(err.operation(), SinkWriteOperation::LineDelimiter);
    assert_eq!(err.attempted_len(), 1);
}

#[test]
fn write_line_writer_respects_requested_delimiter_mode() {
    let stream: &'static [u8] = b"Cargo.lock\nCargo.toml\nREADME.md\nsrc\ntarget\n";
    let writer = write_lines(
        vec![StreamEvent::chunk(stream), StreamEvent::Eof],
        FailingWrite::never(),
        LineWriteMode::AsIs,
        WriteCollectionOptions::fail_fast(),
    )
    .expect("all is written");
    assert_eq!(
        writer.bytes,
        b"Cargo.lockCargo.tomlREADME.mdsrctarget".to_vec()
    );

    let writer = write_lines(
        vec![StreamEvent::chunk(stream), StreamEvent::Eof],
        FailingWrite::never(),
        LineWriteMode::AppendLf,
        WriteCollectionOptions::fail_fast(),
    )
    .expect("all is written");
    assert_eq!(writer.bytes, stream);
}

#[test]
fn unterminated_final_line_is_written_too() {
    let writer = write_lines(
        vec![StreamEvent::chunk(b"one\ntw"), StreamEvent::chunk(b"o")],
        FailingWrite::never(),
        LineWriteMode::AppendLf,
        WriteCollectionOptions::fail_fast(),
    )
    .expect("all is written");
    assert_eq!(writer.bytes, b"one\ntwo\n");
}

#[test]
fn gap_drops_the_line_in_progress() {
    let writer = write_lines(
        vec![
            StreamEvent::chunk(b"one\npar"),
            StreamEvent::Gap,
            StreamEvent::chunk(b"tial\nnext\n"),
            StreamEvent::Eof,
        ],
        FailingWrite::never(),
        LineWriteMode::AppendLf,
        WriteCollectionOptions::fail_fast(),
    )
    .expect("all is written");
    assert_eq!(writer.bytes, b"one\nnext\n");
}

#[test]
fn line_writer_stops_at_the_first_failure() {
    let err = write_lines(
        vec![StreamEvent::chunk(b"a\nb\nc\n"), StreamEvent::Eof],
        FailingWrite::new(1, io::ErrorKind::BrokenPipe),
        LineWriteMode::AsIs,
        WriteCollectionOptions::fail_fast(),
    )
    .expect_err("the second write fails");
    assert_eq!(err.operation(), SinkWriteOperation::Line);
}

#[test]
fn line_writer_reports_a_failing_stream() {
    let mut visitor = WriteLines::new(
        "custom",
        WriteCollectionOptions::fail_fast(),
        LineParsingOptions::default(),
        LineWriteMode::AsIs,
    );
    let error = StreamReadError::new("custom", io::ErrorKind::BrokenPipe, "gone".to_string());
    assert_eq!(
        visitor.on_event(Some(StreamEvent::ReadError(error.clone()))),
        LineWriteAction::Failed(error)
    );
}

#[test]
fn write_chunk_writer_accepts_send_only_writer() {
    let writer = write_chunks(
        &[b"abc", b"def"],
        FailingWrite::never(),
        WriteCollectionOptions::fail_fast(),
    )
    .expect("all is written");
    assert_eq!(writer.bytes, b"abcdef".to_vec());
    assert!(writer.write_calls > 0);
}

#[test]
fn write_line_write_error_handler_can_continue_after_sink_write_errors() {
    let events = Arc::new(Mutex::new(Vec::new()));
    let handled_events = Arc::clone(&events);
    let write = write_lines(
        vec![StreamEvent::chunk(b"a\nb\n"), StreamEvent::Eof],
        FailingWrite::new(0, io::ErrorKind::BrokenPipe),
        LineWriteMode::AppendLf,
        WriteCollectionOptions::with_error_handler(move |err| {
            handled_events.lock().unwrap().push((
                err.stream_name(),
                err.operation(),
                err.attempted_len(),
                err.source().kind(),
            ));
            SinkWriteErrorAction::Continue
        }),
    )
    .expect("the handler continues");
    assert_eq!(write.bytes.len(), 0);
    assert_eq!(
        events.lock().unwrap().as_slice(),
        [
            (
                "custom",
                SinkWriteOperation::Line,
                1,
                io::ErrorKind::BrokenPipe,
            ),
            (
                "custom",
                SinkWriteOperation::Line,
                1,
                io::ErrorKind::BrokenPipe,
            ),
        ]
    );
}

#[test]
fn write_chunk_write_error_handler_can_continue_then_stop() {
    let handled_count = Arc::new(Mutex::new(0_usize));
    let count_for_handler = Arc::clone(&handled_count);
    let err = write_chunks(
        &[b"a", b"b"],
        FailingWrite::new(0, io::ErrorKind::BrokenPipe),
        WriteCollectionOptions::with_error_handler(move |err| {
            assert_eq!(err.operation(), SinkWriteOperation::Chunk);
            let mut count = count_for_handler.lock().unwrap();
            *count += 1;
            if *count == 1 {
                SinkWriteErrorAction::Continue
            } else {
                SinkWriteErrorAction::Stop
            }
        }),
    )
    .expect_err("the handler stops");
    assert_eq!(err.source().kind(), io::ErrorKind::BrokenPipe);
    assert_eq!(*handled_count.lock().unwrap(), 2);
}

#[test]
fn log_and_continue_survives_every_failure() {
    let write = write_chunks(
        &[b"a", b"b"],
        FailingWrite::new(1, io::ErrorKind::BrokenPipe),
        WriteCollectionOptions::log_and_continue(),
    )
    .expect("failures are survived");
    assert_eq!(write.bytes, b"a");
    assert_eq!(write.write_calls, 2);
}
