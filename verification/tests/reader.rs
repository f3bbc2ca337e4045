use bytes::BytesMut;
use tokio_process_tools::{
    claim_receiver, BackpressureControl, ChunkReader, NumBytesExt, ReaderAction, ReceiverSlot,
    SendOutcome, StreamEvent, TrySendOutcome,
};

/// Fills the buffer from the data, as far as it has room.
fn read(mut buffer: BytesMut, chunk_size: usize, data: &mut &[u8]) -> (BytesMut, usize) {
    let len = chunk_size.min(data.len());
    buffer.extend_from_slice(&data[..len]);
    *data = &data[len..];
    (buffer, len)
}

/// Drives a reader over the data. An offered event is delivered if `accepts` says so of the number of
/// offers made so far. Returns what was delivered, and the number of lost chunks after each offer.
fn drive(
    data: &[u8],
    chunk_size: usize,
    backpressure: BackpressureControl,
    mut accepts: impl FnMut(usize) -> bool,
) -> (Vec<StreamEvent>, Vec<usize>) {
    let mut data = data;
    let mut delivered = Vec::new();
    let mut lags = Vec::new();
    let mut offers = 0;
    let (mut reader, mut action) = ChunkReader::new(chunk_size.bytes(), backpressure);
    loop {
        action = match action {
            ReaderAction::Read(buffer) => {
                let (buffer, len) = read(buffer, chunk_size, &mut data);
                reader.on_read(buffer, len)
            }
            ReaderAction::TrySend(event) => {
                offers += 1;
                let outcome = if accepts(offers) {
                    delivered.push(event);
                    TrySendOutcome::Sent
                } else {
                    TrySendOutcome::Full
                };
                let action = reader.on_try_sent(outcome);
                lags.push(reader.lagged());
                action
            }
            ReaderAction::Send(event) => {
                delivered.push(event);
                reader.on_sent(SendOutcome::Sent)
            }
            ReaderAction::Stop => return (delivered, lags),
        };
    }
}

fn texts(events: &[StreamEvent]) -> Vec<String> {
    events
        .iter()
        .map(|event| match event {
            StreamEvent::Chunk(chunk) => String::from_utf8_lossy(chunk.as_ref()).into_owned(),
            StreamEvent::Gap => "<gap>".to_string(),
            StreamEvent::Eof => "<eof>".to_string(),
            StreamEvent::ReadError(error) => error.message(),
        })
        .collect()
}

#[test]
fn read_chunked_does_not_terminate_when_first_read_can_fill_the_entire_bytes_mut_buffer() {
    for backpressure in [
        BackpressureControl::DropLatestIncomingIfBufferFull,
        BackpressureControl::BlockUntilBufferHasSpace,
    ] {
        let (events, _) = drive(b"hello world", 2, backpressure, |_| true);
        assert_eq!(
            texts(&events),
            ["he", "ll", "o ", "wo", "rl", "d", "<eof>"]
        );
    }
}

#[test]
fn lost_chunks_are_announced_by_one_gap() {
    // The second and third chunk are refused. The gap comes before the next chunk that is taken.
    let (events, lags) = drive(
        b"aabbccddee",
        2,
        BackpressureControl::DropLatestIncomingIfBufferFull,
        |offer| offer != 2 && offer != 3,
    );
    assert_eq!(texts(&events), ["aa", "<gap>", "dd", "ee", "<eof>"]);
    assert_eq!(lags.iter().max(), Some(&2));
    assert_eq!(lags.last(), Some(&0));
}

#[test]
fn every_loss_behind_a_gap_is_announced_by_another() {
    // The second chunk is refused, and so is the third right behind the gap that announces it.
    let (events, _) = drive(
        b"aabbccdd",
        2,
        BackpressureControl::DropLatestIncomingIfBufferFull,
        |offer| offer != 2 && offer != 4,
    );
    assert_eq!(texts(&events), ["aa", "<gap>", "<gap>", "dd", "<eof>"]);
}

#[test]
fn gap_is_announced_before_the_end() {
    let (events, _) = drive(
        b"aabb",
        2,
        BackpressureControl::DropLatestIncomingIfBufferFull,
        |offer| offer != 2,
    );
    assert_eq!(texts(&events), ["aa", "<gap>", "<eof>"]);
}

#[test]
fn empty_stream_only_ends() {
    let (events, _) = drive(
        b"",
        2,
        BackpressureControl::BlockUntilBufferHasSpace,
        |_| true,
    );
    assert_eq!(texts(&events), ["<eof>"]);
}

#[test]
fn reader_stops_once_nobody_listens() {
    let (mut reader, action) = ChunkReader::new(
        4.bytes(),
        BackpressureControl::DropLatestIncomingIfBufferFull,
    );
    let ReaderAction::Read(mut buffer) = action else {
        panic!("the reader reads first");
    };
    buffer.extend_from_slice(b"data");
    let ReaderAction::TrySend(StreamEvent::Chunk(chunk)) = reader.on_read(buffer, 4) else {
        panic!("what was read is sent");
    };
    assert!(chunk == b"data");
    assert!(matches!(
        reader.on_try_sent(TrySendOutcome::Closed),
        ReaderAction::Stop
    ));

    let (mut reader, action) =
        ChunkReader::new(4.bytes(), BackpressureControl::BlockUntilBufferHasSpace);
    let ReaderAction::Read(mut buffer) = action else {
        panic!("the reader reads first");
    };
    buffer.extend_from_slice(b"data");
    assert!(matches!(reader.on_read(buffer, 4), ReaderAction::Send(_)));
    assert!(matches!(
        reader.on_sent(SendOutcome::Closed),
        ReaderAction::Stop
    ));
}

#[test]
fn multiple_subscribers_are_not_possible() {
    let slot = ReceiverSlot::new(7, "custom");
    assert_eq!(slot.take(), Ok(7));
    let complaint = "Cannot create multiple consumers on SingleSubscriberOutputStream (stream: 'custom'). \
        Only one inspector or collector can be active at a time. \
        Use .spawn_broadcast() instead of .spawn_single_subscriber() to support multiple consumers.";
    assert_eq!(slot.take(), Err(complaint.to_string()));
    assert_eq!(claim_receiver(None::<u8>, "custom"), Err(complaint.to_string()));
    assert_eq!(claim_receiver(Some(1), "custom"), Ok(1));
}
