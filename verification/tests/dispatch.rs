use std::io;

use tokio_process_tools::{
    event_step, EventStep, LineAction, LineDispatch, LineParsingOptions, Next, StreamEvent,
    StreamReadError,
};

/// Runs a dispatch over the events, answering with a stop at the given line, if there is one.
/// Returns the lines it handed out and what it ended with.
fn dispatch(events: Vec<StreamEvent>, stop_at: Option<&str>) -> (Vec<String>, LineAction) {
    let mut events = events.into_iter();
    let mut dispatch = LineDispatch::new(LineParsingOptions::default());
    let mut visited = Vec::new();
    let mut action = LineAction::NextEvent;
    loop {
        action = match action {
            LineAction::NextEvent => {
                let event = events.next();
                assert!(dispatch.has_room(&event));
                dispatch.on_event(event)
            }
            LineAction::Visit(line) => {
                let next = if stop_at == Some(line.as_str()) {
                    Next::Break
                } else {
                    Next::Continue
                };
                visited.push(line);
                dispatch.on_visited(next)
            }
            ended => return (visited, ended),
        };
    }
}

fn read_error() -> StreamReadError {
    StreamReadError::new("custom", io::ErrorKind::BrokenPipe, "gone".to_string())
}

#[test]
fn every_line_is_visited_up_to_the_end() {
    let (visited, ended) = dispatch(
        vec![
            StreamEvent::chunk(b"one\ntw"),
            StreamEvent::chunk(b"o\n\nthree\nre"),
            StreamEvent::chunk(b"st"),
            StreamEvent::Eof,
        ],
        None,
    );
    assert_eq!(visited, ["one", "two", "", "three", "rest"]);
    assert_eq!(ended, LineAction::Ended);
}

#[test]
fn closed_stream_ends_like_one_that_says_so() {
    let (visited, ended) = dispatch(vec![StreamEvent::chunk(b"one\nrest")], None);
    assert_eq!(visited, ["one", "rest"]);
    assert_eq!(ended, LineAction::Ended);
}

#[test]
fn line_collector_async_break_stops_after_requested_line() {
    let (visited, ended) = dispatch(
        vec![StreamEvent::chunk(b"start\nbreak\nend\n"), StreamEvent::Eof],
        Some("break"),
    );
    assert_eq!(visited, ["start", "break"]);
    assert_eq!(ended, LineAction::Stopped);
}

#[test]
fn stop_at_the_final_line_still_ends() {
    let (visited, ended) = dispatch(
        vec![StreamEvent::chunk(b"one\nlast"), StreamEvent::Eof],
        Some("last"),
    );
    assert_eq!(visited, ["one", "last"]);
    assert_eq!(ended, LineAction::Ended);
}

#[test]
fn gap_discards_the_line_in_progress() {
    let (visited, _) = dispatch(
        vec![
            StreamEvent::chunk(b"one\npar"),
            StreamEvent::Gap,
            StreamEvent::chunk(b"tial\nclean\n"),
            StreamEvent::Eof,
        ],
        None,
    );
    assert_eq!(visited, ["one", "clean"]);
}

#[test]
fn failing_stream_is_reported() {
    let (visited, ended) = dispatch(
        vec![
            StreamEvent::chunk(b"complete\npartial"),
            StreamEvent::ReadError(read_error()),
        ],
        None,
    );
    assert_eq!(visited, ["complete"]);
    assert_eq!(ended, LineAction::Failed(read_error()));
}

#[test]
fn nothing_is_visited_behind_a_stop() {
    let mut dispatch = LineDispatch::new(LineParsingOptions::default());
    let action = dispatch.on_event(Some(StreamEvent::chunk(b"a\nb\n")));
    assert_eq!(action, LineAction::Visit("a".to_string()));
    assert_eq!(dispatch.on_visited(Next::Break), LineAction::Stopped);
    let action = dispatch.on_event(Some(StreamEvent::chunk(b"c\n")));
    assert_eq!(action, LineAction::Stopped);
    let action = dispatch.on_event(Some(StreamEvent::ReadError(read_error())));
    assert_eq!(action, LineAction::Stopped);
}

#[test]
fn events_ask_for_one_step_each() {
    assert!(matches!(
        event_step(Some(StreamEvent::chunk(b"ab"))),
        EventStep::Visit(chunk) if chunk == b"ab"
    ));
    assert_eq!(event_step(Some(StreamEvent::Gap)), EventStep::NoteGap);
    assert_eq!(event_step(Some(StreamEvent::Eof)), EventStep::End);
    assert_eq!(event_step(None), EventStep::End);
    assert_eq!(
        event_step(Some(StreamEvent::ReadError(read_error()))),
        EventStep::Fail(read_error())
    );
}
