use std::borrow::Cow;
use std::io;
use std::sync::{Arc, Mutex};

use tokio_process_tools::output_stream::line::options::check_max_line_length_non_zero;
use tokio_process_tools::output_stream::visitors::collect::check_lines_bounded;
use tokio_process_tools::{
    consume_event, Chunk, CollectChunks, CollectChunksIntoVec, CollectLinesIntoVec,
    CollectionOverflowBehavior, InspectChunks, InspectLineSink, LineCollectionOptions,
    LineOverflowBehavior, LineParsingOptions, LineVisitor, Next, NumBytes, NumBytesExt, ParseLines,
    Progress, RawCollectionOptions, StreamEvent, StreamReadError, StreamVisitor, WaitForLineResult,
    WaitForLineSink,
};

/// Drives a visitor over the events, as if the stream were closed behind the last one.
fn drive<V: StreamVisitor>(
    events: Vec<StreamEvent>,
    mut visitor: V,
) -> Result<V::Output, StreamReadError> {
    let mut events = events.into_iter();
    loop {
        let event = events.next();
        if let Some(StreamEvent::Chunk(chunk)) = &event {
            assert!(visitor.has_room(chunk));
        }
        match consume_event(&mut visitor, event) {
            Progress::Continue => {}
            Progress::Finished => return Ok(visitor.into_output()),
            Progress::Failed(error) => return Err(error),
        }
    }
}

fn read_error() -> StreamReadError {
    let source = io::Error::from(io::ErrorKind::BrokenPipe);
    StreamReadError::new("custom", source.kind(), source.to_string())
}

struct CollectingSink {
    seen: Arc<Mutex<Vec<String>>>,
}

impl LineVisitor for CollectingSink {
    type Output = usize;

    fn on_line(&mut self, line: Cow<'_, str>) -> Next {
        self.seen.lock().unwrap().push(line.into_owned());
        Next::Continue
    }

    fn on_gap(&mut self) {
        self.seen.lock().unwrap().push("<gap>".to_string());
    }

    fn on_eof(&mut self) {
        self.seen.lock().unwrap().push("<eof>".to_string());
    }

    fn into_output(self) -> Self::Output {
        self.seen.lock().unwrap().len()
    }
}

#[test]
fn custom_line_visitor_sees_lines_gaps_and_eof() {
    let seen = Arc::new(Mutex::new(Vec::new()));
    let count = drive(
        vec![
            StreamEvent::chunk(b"one\npar"),
            StreamEvent::Gap,
            StreamEvent::chunk(b"tial\nclean\nrest"),
            StreamEvent::Eof,
        ],
        ParseLines::new(
            LineParsingOptions::default(),
            CollectingSink {
                seen: Arc::clone(&seen),
            },
        ),
    );
    assert_eq!(count, Ok(5));
    assert_eq!(
        *seen.lock().unwrap(),
        ["one", "<gap>", "clean", "rest", "<eof>"]
    );
}

/// The lines that a visitor observes until it breaks at the line, if there is one.
fn inspected_lines(events: Vec<StreamEvent>, break_at: Option<&'static str>) -> Vec<String> {
    let seen = Arc::new(Mutex::new(Vec::new()));
    let seen_by_visitor = Arc::clone(&seen);
    let visitor = ParseLines::inspect(LineParsingOptions::default(), move |line: Cow<'_, str>| {
        let next = if break_at == Some(line.as_ref()) {
            Next::Break
        } else {
            Next::Continue
        };
        seen_by_visitor.lock().unwrap().push(line.into_owned());
        next
    });
    drive(events, visitor).expect("the stream can be read");
    let seen = seen.lock().unwrap().clone();
    seen
}

#[test]
fn adapter_new_panics_when_max_line_length_is_zero() {
    let zero = LineParsingOptions {
        max_line_length: NumBytes::zero(),
        overflow_behavior: LineOverflowBehavior::default(),
        buffer_compaction_threshold: None,
    };
    let message = check_max_line_length_non_zero(&zero).expect_err("zero is rejected");
    assert!(message.contains("LineParsingOptions::max_line_length must be greater than zero"));
    assert_eq!(
        check_max_line_length_non_zero(&LineParsingOptions::default()),
        Ok(())
    );
}

#[test]
fn adapter_flushes_trailing_unterminated_line_at_eof() {
    let seen = inspected_lines(
        vec![
            StreamEvent::chunk(b"first\nsec"),
            StreamEvent::chunk(b"ond\nthird"),
            StreamEvent::Eof,
        ],
        None,
    );
    assert_eq!(seen, ["first", "second", "third"]);
}

#[test]
fn gap_discards_partial_line() {
    let seen = inspected_lines(
        vec![
            StreamEvent::chunk(b"par"),
            StreamEvent::Gap,
            StreamEvent::chunk(b"tial\nclean\n"),
            StreamEvent::Eof,
        ],
        None,
    );
    assert_eq!(seen, ["clean"]);
}

#[test]
fn break_from_inner_stops_parsing_immediately() {
    let seen = inspected_lines(
        vec![StreamEvent::chunk(b"a\nb\nc\nd\n"), StreamEvent::Eof],
        Some("b"),
    );
    assert_eq!(seen, ["a", "b"]);
}

#[test]
fn inspect_inspectors_skip_gaps_and_visit_final_unterminated_line() {
    let seen = inspected_lines(
        vec![
            StreamEvent::chunk(b"one\npar"),
            StreamEvent::Gap,
            StreamEvent::chunk(b"\ntwo\nfinal"),
            StreamEvent::Eof,
        ],
        None,
    );
    assert_eq!(seen, ["one", "two", "final"]);
}

#[test]
fn inspect_preserves_unterminated_final_line() {
    let seen = inspected_lines(vec![StreamEvent::chunk(b"tail"), StreamEvent::Eof], None);
    assert_eq!(seen, ["tail"]);
    // A stream that closes without saying so ends in the same way.
    assert_eq!(inspected_lines(vec![StreamEvent::chunk(b"tail")], None), ["tail"]);
}

#[test]
fn inspect_inspectors_return_stream_read_error() {
    let result = drive(
        vec![
            StreamEvent::chunk(b"complete\npartial"),
            StreamEvent::ReadError(read_error()),
        ],
        ParseLines::new(
            LineParsingOptions::default(),
            InspectLineSink::new(|_line: Cow<'_, str>| Next::Continue),
        ),
    );
    let source = result.expect_err("the stream fails");
    assert_eq!(source.stream_name(), "custom");
    assert_eq!(source.kind(), io::ErrorKind::BrokenPipe);
}

#[test]
fn inspect_accepts_stateful_callback() {
    let seen = Arc::new(Mutex::new(Vec::new()));
    let seen_by_visitor = Arc::clone(&seen);
    let mut chunk_count = 0;
    drive(
        vec![
            StreamEvent::chunk(b"ab"),
            StreamEvent::chunk(b"cd"),
            StreamEvent::chunk(b"ef"),
            StreamEvent::chunk(b"gh"),
            StreamEvent::Eof,
        ],
        InspectChunks::new(move |chunk: Chunk| {
            chunk_count += 1;
            seen_by_visitor.lock().unwrap().push(chunk.as_ref().to_vec());
            if chunk_count == 3 {
                Next::Break
            } else {
                Next::Continue
            }
        }),
    )
    .expect("the stream can be read");
    assert_eq!(
        *seen.lock().unwrap(),
        [b"ab".to_vec(), b"cd".to_vec(), b"ef".to_vec()]
    );
}

#[test]
fn collect_collectors_return_stream_read_error() {
    let result = drive(
        vec![
            StreamEvent::chunk(b"complete\npartial"),
            StreamEvent::ReadError(read_error()),
        ],
        ParseLines::collect(
            LineParsingOptions::default(),
            Vec::<String>::new(),
            |line: Cow<'_, str>, lines: &mut Vec<String>| {
                lines.push(line.into_owned());
                Next::Continue
            },
        ),
    );
    let source = result.expect_err("the stream fails");
    assert_eq!(source.stream_name(), "custom");
    assert_eq!(source.kind(), io::ErrorKind::BrokenPipe);
}

#[test]
fn collect_collectors_skip_gaps_and_keep_final_unterminated_line() {
    let lines = drive(
        vec![
            StreamEvent::chunk(b"one\npar"),
            StreamEvent::Gap,
            StreamEvent::chunk(b"\ntwo\nfinal"),
            StreamEvent::Eof,
        ],
        ParseLines::collect(
            LineParsingOptions::default(),
            Vec::<String>::new(),
            |line: Cow<'_, str>, lines: &mut Vec<String>| {
                lines.push(line.into_owned());
                Next::Continue
            },
        ),
    );
    assert_eq!(lines.unwrap(), ["one", "two", "final"]);
}

#[test]
fn collect_chunk_collector_accepts_stateful_callback() {
    let mut chunk_index = 0;
    let indexed_chunks = drive(
        vec![
            StreamEvent::chunk(b"ab"),
            StreamEvent::chunk(b"cd"),
            StreamEvent::chunk(b"ef"),
            StreamEvent::Eof,
        ],
        CollectChunks::new(
            Vec::new(),
            move |chunk: Chunk, indexed_chunks: &mut Vec<(i32, Vec<u8>)>| {
                chunk_index += 1;
                indexed_chunks.push((chunk_index, chunk.as_ref().to_vec()));
            },
        ),
    );
    assert_eq!(
        indexed_chunks.unwrap(),
        vec![
            (1, b"ab".to_vec()),
            (2, b"cd".to_vec()),
            (3, b"ef".to_vec()),
        ]
    );
}

#[test]
fn collect_line_collector_accepts_stateful_callback() {
    let mut line_index = 0;
    let indexed_lines = drive(
        vec![
            StreamEvent::chunk(b"alpha\nbeta\ngamma\n"),
            StreamEvent::Eof,
        ],
        ParseLines::collect(
            LineParsingOptions::default(),
            Vec::new(),
            move |line: Cow<'_, str>, indexed_lines: &mut Vec<String>| {
                line_index += 1;
                indexed_lines.push(format!("{line_index}:{line}"));
                Next::Continue
            },
        ),
    );
    assert_eq!(
        indexed_lines.unwrap(),
        vec![
            "1:alpha".to_string(),
            "2:beta".to_string(),
            "3:gamma".to_string(),
        ]
    );
}

#[test]
fn line_collector_break_stops_after_requested_line() {
    let seen = drive(
        vec![StreamEvent::chunk(b"start\nbreak\nend\n"), StreamEvent::Eof],
        ParseLines::collect(
            LineParsingOptions::default(),
            Vec::new(),
            |line: Cow<'_, str>, seen: &mut Vec<String>| {
                let next = if line == "break" {
                    Next::Break
                } else {
                    Next::Continue
                };
                seen.push(line.into_owned());
                next
            },
        ),
    );
    assert_eq!(seen.unwrap(), ["start", "break"]);
}

/// Keeps every line and stops behind the line `stop`.
fn push_until_stop(line: Cow<'_, str>, lines: &mut Vec<String>) -> Next {
    lines.push(line.into_owned());
    if lines.last().is_some_and(|line| line == "stop") {
        Next::Break
    } else {
        Next::Continue
    }
}

#[test]
fn collecting_closure_folds_lines_of_stream() {
    let collect = |events| {
        drive(
            events,
            ParseLines::collect(
                LineParsingOptions::default(),
                vec!["before".to_string()],
                push_until_stop,
            ),
        )
        .unwrap()
    };
    assert_eq!(
        collect(vec![
            StreamEvent::chunk(b"a\nlost"),
            StreamEvent::Gap,
            StreamEvent::chunk(b"lost\nb"),
            StreamEvent::chunk(b"c\nstop\nnot seen\n"),
            StreamEvent::chunk(b"not seen"),
            StreamEvent::Eof,
        ]),
        ["before", "a", "bc", "stop"]
    );
    // The answer to an unterminated last line changes nothing.
    assert_eq!(
        collect(vec![StreamEvent::chunk(b"a\nstop"), StreamEvent::Eof]),
        ["before", "a", "stop"]
    );
    assert_eq!(collect(vec![StreamEvent::Gap]), ["before"]);
}

#[test]
fn collecting_closure_folds_chunks_of_stream() {
    let collected = drive(
        vec![
            StreamEvent::chunk(b"ab"),
            StreamEvent::Gap,
            StreamEvent::chunk(b"c"),
        ],
        CollectChunks::new(
            b"start:".to_vec(),
            |chunk: Chunk, bytes: &mut Vec<u8>| bytes.extend_from_slice(chunk.as_ref()),
        ),
    );
    assert_eq!(collected.unwrap(), b"start:abc");
}

#[test]
fn chunks_are_collected_into_bytes() {
    let collected = drive(
        vec![
            StreamEvent::chunk(b"abc"),
            StreamEvent::Gap,
            StreamEvent::chunk(b"def"),
            StreamEvent::Eof,
        ],
        CollectChunksIntoVec::new(RawCollectionOptions::new(4.bytes())),
    )
    .unwrap();
    assert_eq!(collected.bytes, b"abcd");
    assert!(collected.truncated);

    let collected = drive(
        vec![StreamEvent::chunk(b"abc"), StreamEvent::chunk(b"def")],
        CollectChunksIntoVec::new(RawCollectionOptions::TrustedUnbounded),
    )
    .unwrap();
    assert_eq!(collected.bytes, b"abcdef");
    assert!(!collected.truncated);
}

#[test]
fn bounded_line_collection_drains_until_eof_after_limit_is_reached() {
    let collected = drive(
        vec![
            StreamEvent::chunk(b"one\ntwo\n"),
            StreamEvent::chunk(b"three\nfour\n"),
            StreamEvent::Eof,
        ],
        ParseLines::collect_into_vec(
            LineParsingOptions::default(),
            LineCollectionOptions::Bounded {
                max_bytes: 100.bytes(),
                max_lines: 1,
                overflow_behavior: CollectionOverflowBehavior::DropAdditionalData,
            },
        ),
    )
    .unwrap();
    assert_eq!(*collected.lines(), ["one"]);
    assert!(collected.truncated());
}

#[test]
#[should_panic(
    expected = "parsing_options.max_line_length must be greater than zero unless line collection is trusted-unbounded"
)]
fn bounded_line_collection_rejects_unbounded_line_parser() {
    let parsing_options = LineParsingOptions::builder()
        .max_line_length(0.bytes())
        .overflow_behavior(LineOverflowBehavior::default())
        .build();
    let collection_options = LineCollectionOptions::Bounded {
        max_bytes: 3.bytes(),
        max_lines: 1,
        overflow_behavior: CollectionOverflowBehavior::DropAdditionalData,
    };
    if let Err(message) = check_lines_bounded(&parsing_options, &collection_options) {
        panic!("{message}");
    }
}

#[test]
fn only_bounded_line_collection_needs_a_line_length_limit() {
    let unlimited = LineParsingOptions::builder()
        .max_line_length(NumBytes::zero())
        .overflow_behavior(LineOverflowBehavior::default())
        .build();
    let bounded = LineCollectionOptions::Bounded {
        max_bytes: 3.bytes(),
        max_lines: 1,
        overflow_behavior: CollectionOverflowBehavior::DropAdditionalData,
    };
    let trusted = LineCollectionOptions::TrustedUnbounded;
    assert_eq!(check_lines_bounded(&unlimited, &trusted), Ok(()));
    assert_eq!(
        check_lines_bounded(&LineParsingOptions::default(), &bounded),
        Ok(())
    );
    assert!(check_lines_bounded(&unlimited, &bounded).is_err());
}

#[test]
fn trusted_unbounded_line_collection_allows_unbounded_line_parser() {
    let collected = drive(
        vec![
            StreamEvent::chunk(b"unterminated long line"),
            StreamEvent::Eof,
        ],
        ParseLines::collect_into_vec(
            LineParsingOptions::builder()
                .max_line_length(0.bytes())
                .overflow_behavior(LineOverflowBehavior::default())
                .build(),
            LineCollectionOptions::TrustedUnbounded,
        ),
    )
    .unwrap();
    assert_eq!(*collected.lines(), ["unterminated long line"]);
    assert!(!collected.truncated());
}

#[test]
fn line_collecting_sink_continues_past_its_limits() {
    let mut sink = CollectLinesIntoVec::new(LineCollectionOptions::Bounded {
        max_bytes: 3.bytes(),
        max_lines: 9,
        overflow_behavior: CollectionOverflowBehavior::DropAdditionalData,
    });
    assert_eq!(sink.on_line(Cow::Borrowed("abc")), Next::Continue);
    assert_eq!(sink.on_line(Cow::Borrowed("d")), Next::Continue);
    sink.on_gap();
    sink.on_eof();
    let collected = sink.into_output();
    assert_eq!(*collected.lines(), ["abc"]);
    assert!(collected.truncated());
}

fn wait_for(
    events: Vec<StreamEvent>,
    expected: &'static str,
    options: LineParsingOptions,
) -> Result<WaitForLineResult, StreamReadError> {
    let sink = WaitForLineSink::new(move |line: Cow<'_, str>| line == expected);
    WaitForLineResult::from_outcome(Some(drive(events, ParseLines::new(options, sink))))
}

fn wait_for_ready(events: Vec<StreamEvent>) -> Result<WaitForLineResult, StreamReadError> {
    wait_for(events, "ready", LineParsingOptions::default())
}

#[test]
fn wait_matches_intermediary_line() {
    let result = wait_for_ready(vec![
        StreamEvent::chunk(b"booting\nready\n"),
        StreamEvent::Eof,
    ]);
    assert_eq!(result, Ok(WaitForLineResult::Matched));
}

#[test]
fn wait_matches_final_line() {
    let result = wait_for_ready(vec![
        StreamEvent::chunk(b"booting\nready"),
        StreamEvent::Eof,
    ]);
    assert_eq!(result, Ok(WaitForLineResult::Matched));
}

#[test]
fn wait_returns_stream_closed_when_expected_is_not_matched_before_eof() {
    let result = wait_for_ready(vec![
        StreamEvent::chunk(b"booting\nstill starting\n"),
        StreamEvent::Eof,
    ]);
    assert_eq!(result, Ok(WaitForLineResult::StreamClosed));
}

#[test]
fn waiting_matches_exactly_if_a_line_of_the_stream_is_accepted() {
    // A line before a gap, one behind it, and one that no newline ends.
    for events in [
        vec![StreamEvent::chunk(b"ready\n"), StreamEvent::Gap],
        vec![StreamEvent::Gap, StreamEvent::chunk(b"lost\nrea"), StreamEvent::chunk(b"dy\nx")],
        vec![StreamEvent::chunk(b"x\nready"), StreamEvent::Eof],
    ] {
        assert_eq!(wait_for_ready(events), Ok(WaitForLineResult::Matched));
    }
    for events in [
        vec![StreamEvent::Gap, StreamEvent::chunk(b"ready\nx")],
        vec![StreamEvent::chunk(b"ready"), StreamEvent::Gap, StreamEvent::Eof],
        vec![],
    ] {
        assert_eq!(wait_for_ready(events), Ok(WaitForLineResult::StreamClosed));
    }
}

#[test]
fn wait_gap_does_not_join_lines() {
    let result = wait_for_ready(vec![
        StreamEvent::chunk(b"rea"),
        StreamEvent::Gap,
        StreamEvent::chunk(b"dy\n"),
        StreamEvent::Eof,
    ]);
    assert_eq!(result, Ok(WaitForLineResult::StreamClosed));
}

#[test]
fn wait_reports_read_error() {
    let result = wait_for_ready(vec![
        StreamEvent::chunk(b"booting\npartial"),
        StreamEvent::ReadError(read_error()),
    ]);

    let err = result.expect_err("read failure should be surfaced");
    assert_eq!(err.stream_name(), "custom");
    assert_eq!(err.kind(), io::ErrorKind::BrokenPipe);
}

#[test]
fn wait_honors_line_parsing_options() {
    let result = wait_for(
        vec![StreamEvent::chunk(b"readiness\n"), StreamEvent::Eof],
        "read",
        LineParsingOptions {
            max_line_length: 4.bytes(),
            overflow_behavior: LineOverflowBehavior::DropAdditionalData,
            buffer_compaction_threshold: None,
        },
    );
    assert_eq!(result, Ok(WaitForLineResult::Matched));
}

#[test]
fn wait_times_out_with_timeout_error() {
    assert_eq!(
        WaitForLineResult::from_outcome(None),
        Ok(WaitForLineResult::Timeout)
    );
}

#[test]
fn chunks_compare_by_their_bytes() {
    let chunk = Chunk::from(b"abc");
    assert!(chunk == b"abc");
    assert!(chunk == b"abc".as_slice());
    assert!(chunk == *b"abc".as_slice());
    assert!(chunk != b"abd");
    assert!(chunk != b"ab");
    assert!(chunk.clone() == b"abc");
    assert_eq!(Chunk::from(bytes::Bytes::from_static(b"xy")).as_ref(), b"xy");
}
