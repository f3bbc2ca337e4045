use std::borrow::Cow;

use tokio_process_tools::{
    LineOverflowBehavior, LineParser, LineParsingOptions, NumBytes, NumBytesExt,
};

/// Drives the parser over all chunks, with a gap before the given chunk, and collects every line it
/// emits, the one flushed at the end of the stream among them.
fn drive_parser(
    chunks: &[&[u8]],
    gap_before_chunk: Option<usize>,
    options: LineParsingOptions,
) -> Vec<String> {
    let mut parser = LineParser::new();
    let mut lines = Vec::new();
    for (index, chunk) in chunks.iter().enumerate() {
        if gap_before_chunk == Some(index) {
            parser.on_gap();
        }
        let mut bytes: &[u8] = chunk;
        while let Some(line) = parser.next_line(&mut bytes, options) {
            lines.push(line.into_owned());
        }
    }
    if let Some(line) = parser.finish() {
        lines.push(line.into_owned());
    }
    lines
}

fn run_test_case(
    chunks: &[&[u8]],
    gap_before_chunk: Option<usize>,
    expected_lines: &[&str],
    options: LineParsingOptions,
) {
    assert_eq!(drive_parser(chunks, gap_before_chunk, options), expected_lines);
}

fn emit_additional_options() -> LineParsingOptions {
    LineParsingOptions {
        max_line_length: 4.bytes(),
        overflow_behavior: LineOverflowBehavior::EmitAdditionalAsNewLines,
        buffer_compaction_threshold: None,
    }
}

fn as_single_byte_chunks(data: &str) -> Vec<&[u8]> {
    data.as_bytes().iter().map(std::slice::from_ref).collect()
}

#[test]
fn basic_line_parsing_cases() {
    let default_options = LineParsingOptions::default();
    let drop_additional_options = LineParsingOptions {
        max_line_length: 4.bytes(),
        overflow_behavior: LineOverflowBehavior::DropAdditionalData,
        buffer_compaction_threshold: None,
    };

    run_test_case(&[b""], None, &[], default_options);
    run_test_case(
        &[b"no newlines here"],
        None,
        &["no newlines here"],
        default_options,
    );
    run_test_case(&[b"one line\n"], None, &["one line"], default_options);
    run_test_case(
        &[b"first line\nsecond line\nthird line\n"],
        None,
        &["first line", "second line", "third line"],
        default_options,
    );
    run_test_case(
        &[b"complete line\npartial"],
        None,
        &["complete line", "partial"],
        default_options,
    );
    run_test_case(
        &[b"previous: continuation\nmore lines\n"],
        None,
        &["previous: continuation", "more lines"],
        default_options,
    );
    run_test_case(&[b"1234\n\n"], None, &["1234", ""], drop_additional_options);
    run_test_case(
        &[b"ok\n123456789\nnext\n"],
        None,
        &["ok", "1234", "next"],
        drop_additional_options,
    );
}

#[test]
fn invalid_utf8_data() {
    run_test_case(
        &[b"valid utf8\xF0\x28\x8C\xBC invalid utf8\n"],
        None,
        &["valid utf8\u{FFFD}(\u{FFFD}\u{FFFD} invalid utf8"],
        LineParsingOptions::default(),
    );
}

#[test]
fn rest_of_too_long_line_is_dropped() {
    run_test_case(
        &[b"123456789\nabcdefghi\n"],
        None,
        &["1234", "abcd"],
        LineParsingOptions {
            max_line_length: 4.bytes(),
            overflow_behavior: LineOverflowBehavior::DropAdditionalData,
            buffer_compaction_threshold: None,
        },
    );
}

#[test]
fn rest_of_too_long_line_is_returned_as_additional_lines() {
    run_test_case(
        &[b"123456789\nabcdefghi\n"],
        None,
        &["1234", "5678", "9", "abcd", "efgh", "i"],
        emit_additional_options(),
    );
}

#[test]
fn emit_additional_as_new_lines_does_not_emit_synthetic_empty_lines() {
    let options = emit_additional_options();

    run_test_case(&[b"1234\n"], None, &["1234"], options);
    run_test_case(&[b"1234", b"\n"], None, &["1234"], options);
    run_test_case(&[b"12345678\n"], None, &["1234", "5678"], options);
    run_test_case(&[b"1234\n\n"], None, &["1234", ""], options);
}

#[test]
fn max_line_length_of_0_disables_line_length_checks() {
    run_test_case(
        &[b"123456789\nabcdefghi\n"],
        None,
        &["123456789", "abcdefghi"],
        LineParsingOptions {
            max_line_length: NumBytes::zero(),
            overflow_behavior: LineOverflowBehavior::DropAdditionalData,
            buffer_compaction_threshold: None,
        },
    );
    run_test_case(
        &[b"123456789\nabcdefghi\n"],
        None,
        &["123456789", "abcdefghi"],
        LineParsingOptions {
            max_line_length: NumBytes::zero(),
            overflow_behavior: LineOverflowBehavior::EmitAdditionalAsNewLines,
            buffer_compaction_threshold: None,
        },
    );
}

#[test]
fn leading_and_trailing_whitespace_is_preserved() {
    run_test_case(
        &[b"   123456789     \n    abcdefghi        \n"],
        None,
        &["   123456789     ", "    abcdefghi        "],
        LineParsingOptions {
            max_line_length: NumBytes::zero(),
            overflow_behavior: LineOverflowBehavior::EmitAdditionalAsNewLines,
            buffer_compaction_threshold: None,
        },
    );
}

#[test]
fn multi_byte_utf_8_characters_are_preserved_even_when_parsing_multiple_one_byte_chunks() {
    let chunks =
        as_single_byte_chunks("\u{2764}\u{FE0F}\u{2764}\u{FE0F}\u{2764}\u{FE0F}\n\u{1F44D}\n");
    run_test_case(
        &chunks,
        None,
        &[
            "\u{2764}\u{FE0F}\u{2764}\u{FE0F}\u{2764}\u{FE0F}",
            "\u{1F44D}",
        ],
        LineParsingOptions::default(),
    );
}

#[test]
fn overflow_drop_additional_data_persists_across_chunks() {
    run_test_case(
        &[b"1234", b"5678", b"9\nok\n"],
        None,
        &["1234", "ok"],
        LineParsingOptions {
            max_line_length: 4.bytes(),
            overflow_behavior: LineOverflowBehavior::DropAdditionalData,
            buffer_compaction_threshold: None,
        },
    );
}

#[test]
fn gap_discards_partial_line_until_next_newline() {
    run_test_case(
        &[b"rea", b"dy\nnext\n"],
        Some(1),
        &["next"],
        LineParsingOptions::default(),
    );
}

#[test]
fn fast_path_borrows_when_line_fits_in_chunk_with_empty_buffer() {
    let mut parser = LineParser::new();
    let chunk: &[u8] = b"hello\nworld\n";
    let mut bytes = chunk;
    let line = parser
        .next_line(&mut bytes, LineParsingOptions::default())
        .expect("first line is yielded");
    assert!(matches!(line, Cow::Borrowed(_)));
    drop(line);
    let line = parser
        .next_line(&mut bytes, LineParsingOptions::default())
        .expect("second line is yielded");
    assert!(matches!(line, Cow::Borrowed(_)));
}

/// Splits the line over two chunks, so that it goes through the buffer.
fn run_split_line(parser: &mut LineParser, line: &[u8], options: LineParsingOptions) {
    let mid = line.len() / 2;
    let first: &[u8] = &line[..mid];
    let mut second = Vec::with_capacity(line.len() - mid + 1);
    second.extend_from_slice(&line[mid..]);
    second.push(b'\n');

    let mut bytes = first;
    assert!(parser.next_line(&mut bytes, options).is_none());
    let mut bytes: &[u8] = &second;
    let emitted = parser
        .next_line(&mut bytes, options)
        .expect("line emits when newline arrives");
    assert_eq!(emitted.len(), line.len());
    drop(emitted);
}

fn unbounded_options(threshold: Option<NumBytes>) -> LineParsingOptions {
    LineParsingOptions {
        max_line_length: NumBytes::zero(),
        overflow_behavior: LineOverflowBehavior::EmitAdditionalAsNewLines,
        buffer_compaction_threshold: threshold,
    }
}

#[test]
fn no_compaction_keeps_high_water_mark_when_threshold_is_none() {
    let mut parser = LineParser::new();
    let options = unbounded_options(None);

    run_split_line(&mut parser, &b"a".repeat(200), options);
    let (buffered, emitted) = parser.capacities();
    let larger = buffered.max(emitted);
    assert!(larger >= 200);

    run_split_line(&mut parser, &b"b".repeat(8), options);

    // The storage moves between the two buffers, so the larger one keeps the high-water mark.
    let (buffered, emitted) = parser.capacities();
    let after = buffered.max(emitted);
    assert!(after >= 200);
}

#[test]
fn compaction_releases_emitted_capacity_when_over_threshold() {
    let mut parser = LineParser::new();
    let options = unbounded_options(Some(16.bytes()));

    run_split_line(&mut parser, &b"a".repeat(200), options);
    assert!(parser.capacities().1 >= 200);

    run_split_line(&mut parser, &b"b".repeat(8), options);
    assert!(parser.capacities().1 <= 200);
    assert!(parser.capacities().1 < 64);
}

#[test]
fn compaction_does_not_drop_mid_line_partial_buffer() {
    let mut parser = LineParser::new();
    let options = unbounded_options(Some(4.bytes()));

    let mut bytes: &[u8] = b"abcdefgh";
    assert!(parser.next_line(&mut bytes, options).is_none());
    assert_eq!(parser.buffered_len(), 8);

    let mut bytes: &[u8] = b"ij\n";
    let emitted = parser
        .next_line(&mut bytes, options)
        .expect("full line emitted once newline arrives");
    assert_eq!(emitted.as_ref(), "abcdefghij");
}

#[test]
fn rechunking_preserves_lines() {
    let stream = "\u{2764}\u{FE0F}hello\n\u{1F44D}world\n\nplain\0\ntail";
    let bytes = stream.as_bytes();
    let drop_additional = LineParsingOptions {
        max_line_length: 6.bytes(),
        overflow_behavior: LineOverflowBehavior::DropAdditionalData,
        buffer_compaction_threshold: Some(2.bytes()),
    };
    for options in [
        LineParsingOptions::default(),
        emit_additional_options(),
        drop_additional,
    ] {
        let whole = drive_parser(&[bytes], None, options);
        for first in 0..=bytes.len() {
            for second in first..=bytes.len() {
                let chunks = [&bytes[..first], &bytes[first..second], &bytes[second..]];
                assert_eq!(drive_parser(&chunks, None, options), whole);
            }
        }
        assert_eq!(drive_parser(&as_single_byte_chunks(stream), None, options), whole);
    }
}

#[test]
fn embedded_nuls_are_treated_as_content() {
    run_test_case(
        &[b"a\0b\n\0\n"],
        None,
        &["a\0b", "\0"],
        LineParsingOptions::default(),
    );
}

#[test]
fn drop_additional_caps_emitted_line_length() {
    let stream = b"abcdefgh\nij\nklmnopqrst\nuvw";
    for max in 1..=8usize {
        let options = LineParsingOptions {
            max_line_length: max.bytes(),
            overflow_behavior: LineOverflowBehavior::DropAdditionalData,
            buffer_compaction_threshold: None,
        };
        let lines = drive_parser(&[stream], None, options);
        let expected: Vec<String> = ["abcdefgh", "ij", "klmnopqrst", "uvw"]
            .iter()
            .map(|line| line.chars().take(max).collect())
            .collect();
        assert_eq!(lines, expected);
    }
}

#[test]
fn emit_additional_preserves_all_bytes() {
    let stream = b"abcdefgh\nij\n\nklmnopqrst\nuvw";
    for max in 1..=8usize {
        let options = LineParsingOptions {
            max_line_length: max.bytes(),
            overflow_behavior: LineOverflowBehavior::EmitAdditionalAsNewLines,
            buffer_compaction_threshold: None,
        };
        let lines = drive_parser(&[stream], None, options);
        assert!(lines.iter().all(|line| line.len() <= max));
        assert_eq!(lines.concat(), "abcdefghijklmnopqrstuvw");
    }
}

#[test]
fn gap_emits_subset_of_no_gap_run() {
    let chunks: [&[u8]; 2] = [b"one\ntwo\n", b"three\nfour\n"];
    let options = LineParsingOptions::default();
    assert_eq!(
        drive_parser(&chunks, None, options),
        ["one", "two", "three", "four"]
    );
    assert_eq!(drive_parser(&chunks, Some(1), options), ["one", "two", "four"]);
}

#[test]
fn owned_lines_are_those_of_next_line() {
    let mut parser = LineParser::new();
    let options = LineParsingOptions::default();
    assert!(parser.has_room(11, options));
    assert_eq!(parser.owned_lines(b"one\ntwo\nth", options), ["one", "two"]);
    assert_eq!(parser.buffered_len(), 2);
    assert_eq!(parser.owned_lines(b"ree\nrest", options), ["three"]);
    assert_eq!(parser.finish_owned(), Some("rest".to_string()));
    assert_eq!(parser.finish_owned(), None);
}

#[test]
fn limited_parser_has_room_for_chunks_of_any_size() {
    let parser = LineParser::new();
    assert!(parser.has_room(usize::MAX, LineParsingOptions::default()));
    assert!(!parser.has_room(usize::MAX, unbounded_options(None)));
    assert!(parser.has_room(1024, unbounded_options(None)));
}

#[test]
fn replacement_characters_can_exceed_the_limit() {
    let options = LineParsingOptions {
        max_line_length: 1.bytes(),
        overflow_behavior: LineOverflowBehavior::DropAdditionalData,
        buffer_compaction_threshold: None,
    };
    run_test_case(&[b"ab\n\xFFb\n"], None, &["a", "\u{FFFD}"], options);
}

fn limited_options(max: usize, overflow_behavior: LineOverflowBehavior) -> LineParsingOptions {
    LineParsingOptions::builder()
        .max_line_length(max.bytes())
        .overflow_behavior(overflow_behavior)
        .build()
}

/// The pieces between the newlines, without an empty one at the very end.
fn pieces_of(stream: &str) -> Vec<&str> {
    let mut pieces: Vec<&str> = stream.split('\n').collect();
    if pieces.last() == Some(&"") {
        pieces.pop();
    }
    pieces
}

#[test]
fn lines_within_the_limit_are_the_pieces_between_newlines() {
    for stream in ["", "\n", "a", "a\n", "\n\na", "one\r\n\ntwo\0\nlast", "x\ny\n\n"] {
        for options in [
            limited_options(16, LineOverflowBehavior::DropAdditionalData),
            limited_options(5, LineOverflowBehavior::EmitAdditionalAsNewLines),
            unbounded_options(None),
        ] {
            assert_eq!(
                drive_parser(&[stream.as_bytes()], None, options),
                pieces_of(stream)
            );
        }
    }
}

#[test]
fn unterminated_last_line_is_read_back() {
    let options = limited_options(4, LineOverflowBehavior::DropAdditionalData);
    run_test_case(&[b"ab\n\nabc", b"d"], None, &["ab", "", "abcd"], options);
    let options = limited_options(4, LineOverflowBehavior::EmitAdditionalAsNewLines);
    run_test_case(&[b"ab\n\nabc", b"d"], None, &["ab", "", "abcd"], options);
}

#[test]
fn drop_additional_truncates_each_piece() {
    let stream = "abcdefgh\n\nabcd\nabc\nabcde";
    let options = limited_options(4, LineOverflowBehavior::DropAdditionalData);
    let expected: Vec<&str> = pieces_of(stream)
        .iter()
        .map(|piece| &piece[..piece.len().min(4)])
        .collect();
    assert_eq!(expected, ["abcd", "", "abcd", "abc", "abcd"]);
    run_test_case(&[stream.as_bytes()], None, &expected, options);
    run_test_case(&as_single_byte_chunks(stream), None, &expected, options);
}

#[test]
fn emit_additional_fills_lines() {
    let options = limited_options(4, LineOverflowBehavior::EmitAdditionalAsNewLines);
    for len in 0..20usize {
        let piece = "abcdefghijklmnopqrstuvwxyz"[..len].to_string();
        let terminated = drive_parser(&[format!("{piece}\n").as_bytes()], None, options);
        assert_eq!(terminated.len(), if len == 0 { 1 } else { len.div_ceil(4) });
        assert_eq!(terminated.concat(), piece);
        let (last, before) = terminated.split_last().expect("there is a line");
        assert!(before.iter().all(|line| line.len() == 4));
        assert!(last.len() <= 4);
        if len > 0 {
            assert_eq!(drive_parser(&[piece.as_bytes()], None, options), terminated);
        }
    }
}

#[test]
fn emit_additional_preserves_the_text() {
    // Every character takes two bytes, so a limit of four cuts none of them.
    let stream = "\u{e4}\u{f6}\u{fc}\n\u{df}\n\n\u{e9}\u{e8}\u{ea}\u{eb}\u{ef}";
    let options = emit_additional_options();
    let lines = drive_parser(&[stream.as_bytes()], None, options);
    assert_eq!(lines.len(), 2 + 1 + 1 + 3);
    assert_eq!(lines.concat(), stream.replace('\n', ""));
    // A limit of three cuts the second one in half.
    let options = limited_options(3, LineOverflowBehavior::EmitAdditionalAsNewLines);
    assert_ne!(
        drive_parser(&[stream.as_bytes()], None, options).concat(),
        stream.replace('\n', "")
    );
}

#[test]
fn compaction_threshold_shows_in_no_line() {
    let chunks: [&[u8]; 3] = [b"abcdefg", b"hij\nkl", b"\n\nmnopq"];
    let expected = drive_parser(&chunks, None, emit_additional_options());
    assert_eq!(expected, ["abcd", "efgh", "ij", "kl", "", "mnop", "q"]);
    for threshold in 0..12usize {
        let options = LineParsingOptions::builder()
            .buffer_compaction_threshold(Some(threshold.bytes()))
            .overflow_behavior(LineOverflowBehavior::EmitAdditionalAsNewLines)
            .max_line_length(4.bytes())
            .build();
        assert_eq!(drive_parser(&chunks, None, options), expected);
    }
}

#[test]
fn gap_restarts_after_newline() {
    let options = LineParsingOptions::default();
    let fresh = drive_parser(&[b"two\nthree"], None, options);
    assert_eq!(fresh, ["two", "three"]);
    for state in [b"".as_slice(), b"partial", b"one line\n"] {
        let mut parser = LineParser::new();
        let mut bytes = state;
        while parser.next_line(&mut bytes, options).is_some() {}
        parser.on_gap();
        let mut lines = Vec::new();
        let mut bytes: &[u8] = b"skipped\ntwo\nthree";
        while let Some(line) = parser.next_line(&mut bytes, options) {
            lines.push(line.into_owned());
        }
        lines.extend(parser.finish().map(Cow::into_owned));
        assert_eq!(lines, fresh);

        parser.on_gap();
        let mut bytes: &[u8] = b"no newline";
        assert!(parser.next_line(&mut bytes, options).is_none());
        assert!(parser.finish().is_none());
    }
}

#[test]
fn parsing_options_builder_takes_settings_in_any_order() {
    let expected = LineParsingOptions {
        max_line_length: 7.bytes(),
        overflow_behavior: LineOverflowBehavior::EmitAdditionalAsNewLines,
        buffer_compaction_threshold: None,
    };
    assert_eq!(
        LineParsingOptions::builder()
            .max_line_length(7.bytes())
            .overflow_behavior(LineOverflowBehavior::EmitAdditionalAsNewLines)
            .build(),
        expected
    );
    assert_eq!(
        LineParsingOptions::builder()
            .overflow_behavior(LineOverflowBehavior::EmitAdditionalAsNewLines)
            .max_line_length(7.bytes())
            .buffer_compaction_threshold(Some(9.bytes()))
            .build(),
        LineParsingOptions {
            buffer_compaction_threshold: Some(9.bytes()),
            ..expected
        }
    );
}
