use std::collections::VecDeque;

use tokio_process_tools::{
    CollectedBytes, CollectedLines, CollectionOverflowBehavior, LineCollectionOptions, NumBytesExt,
    RawCollectionOptions,
};

fn drop_oldest_options(max_bytes: usize, max_lines: usize) -> LineCollectionOptions {
    LineCollectionOptions::Bounded {
        max_bytes: max_bytes.bytes(),
        max_lines,
        overflow_behavior: CollectionOverflowBehavior::DropOldestData,
    }
}

fn total_len(collected: &CollectedLines) -> u128 {
    collected.lines().iter().map(|line| line.len() as u128).sum()
}

fn assert_retained_bytes_match_lines(collected: &CollectedLines) {
    assert_eq!(collected.retained_bytes(), total_len(collected));
}

#[test]
fn raw_collection_keeps_prefix_when_dropping_additional_data() {
    let mut collected = CollectedBytes::new();
    let options = RawCollectionOptions::new(5.bytes());

    collected.push_chunk(b"abc", options);
    collected.push_chunk(b"def", options);

    assert_eq!(collected.bytes.as_slice(), b"abcde".as_slice());
    assert!(collected.truncated);
}

#[test]
fn raw_collection_keeps_suffix_when_dropping_oldest_data() {
    let mut collected = CollectedBytes::new();
    let options = RawCollectionOptions::new(5.bytes())
        .with_overflow_behavior(CollectionOverflowBehavior::DropOldestData);

    collected.push_chunk(b"abc", options);
    collected.push_chunk(b"def", options);

    assert_eq!(collected.bytes.as_slice(), b"bcdef".as_slice());
    assert!(collected.truncated);
}

#[test]
fn line_collection_enforces_line_and_byte_limits() {
    let mut collected = CollectedLines::new();
    let options = LineCollectionOptions::Bounded {
        max_bytes: 7.bytes(),
        max_lines: 2,
        overflow_behavior: CollectionOverflowBehavior::DropAdditionalData,
    };

    collected.push_line("one".to_string(), options);
    collected.push_line("two".to_string(), options);
    collected.push_line("three".to_string(), options);

    assert_eq!(collected.lines().iter().map(String::as_str).collect::<Vec<_>>(), vec!["one", "two"]);
    assert!(collected.truncated());
}

#[test]
fn line_collection_can_keep_latest_lines() {
    let mut collected = CollectedLines::new();
    let options = LineCollectionOptions::Bounded {
        max_bytes: 6.bytes(),
        max_lines: 2,
        overflow_behavior: CollectionOverflowBehavior::DropOldestData,
    };

    collected.push_line("one".to_string(), options);
    collected.push_line("two".to_string(), options);
    collected.push_line("six".to_string(), options);

    assert_eq!(collected.lines().iter().map(String::as_str).collect::<Vec<_>>(), vec!["two", "six"]);
    assert!(collected.truncated());
}

#[test]
fn collection_retained_bytes_tracks_appended_lines() {
    let options = LineCollectionOptions::Bounded {
        max_bytes: 100.bytes(),
        max_lines: 100,
        overflow_behavior: CollectionOverflowBehavior::DropAdditionalData,
    };
    let mut collected = CollectedLines::new();

    collected.push_line("aaa".to_string(), options);
    collected.push_line("bbbb".to_string(), options);

    assert_eq!(collected.retained_bytes(), 7);
    assert_retained_bytes_match_lines(&collected);
}

#[test]
fn collection_drop_oldest_preserves_retained_lines_when_oversized_line_arrives() {
    let options = drop_oldest_options(10, 100);
    let mut collected = CollectedLines::new();

    collected.push_line("aaa".to_string(), options);
    collected.push_line("bbb".to_string(), options);
    collected.push_line("x".repeat(13), options);

    assert_eq!(*collected.lines(), VecDeque::from(["aaa".to_string(), "bbb".to_string()]), "previously-retained lines must survive an oversized incoming line");
    assert_eq!(collected.retained_bytes(), 6);
    assert_retained_bytes_match_lines(&collected);
    assert!(collected.truncated());
}

#[test]
fn collection_drop_oldest_evicts_old_lines_when_new_line_fits_but_budget_is_exceeded() {
    let options = drop_oldest_options(10, 100);
    let mut collected = CollectedLines::new();

    collected.push_line("aaaa".to_string(), options);
    collected.push_line("bbbb".to_string(), options);
    collected.push_line("cccc".to_string(), options);

    assert_eq!(*collected.lines(), VecDeque::from(["bbbb".to_string(), "cccc".to_string()]));
    assert_eq!(collected.retained_bytes(), 8);
    assert_retained_bytes_match_lines(&collected);
    assert!(collected.truncated());
}

#[test]
fn collection_drop_oldest_updates_retained_bytes_when_evicting_by_line_count() {
    let options = drop_oldest_options(100, 2);
    let mut collected = CollectedLines::new();

    collected.push_line("a".to_string(), options);
    collected.push_line("bb".to_string(), options);
    collected.push_line("ccc".to_string(), options);

    assert_eq!(*collected.lines(), VecDeque::from(["bb".to_string(), "ccc".to_string()]));
    assert_eq!(collected.retained_bytes(), 5);
    assert_retained_bytes_match_lines(&collected);
    assert!(collected.truncated());
}

#[test]
fn collection_drop_oldest_with_zero_max_lines_retains_nothing() {
    let options = drop_oldest_options(100, 0);
    let mut collected = CollectedLines::new();

    collected.push_line("aaa".to_string(), options);

    assert!(collected.lines().is_empty());
    assert_eq!(collected.retained_bytes(), 0);
    assert_retained_bytes_match_lines(&collected);
    assert!(collected.truncated());
}

#[test]
fn collection_drop_additional_preserves_retained_lines_when_oversized_line_arrives() {
    let options = LineCollectionOptions::Bounded {
        max_bytes: 10.bytes(),
        max_lines: 100,
        overflow_behavior: CollectionOverflowBehavior::DropAdditionalData,
    };
    let mut collected = CollectedLines::new();

    collected.push_line("aaa".to_string(), options);
    collected.push_line("x".repeat(13), options);

    assert_eq!(*collected.lines(), VecDeque::from(["aaa".to_string()]));
    assert_eq!(collected.retained_bytes(), 3);
    assert_retained_bytes_match_lines(&collected);
    assert!(collected.truncated());
}

#[test]
fn collection_drop_additional_preserves_retained_bytes_when_limit_rejects_line() {
    let options = LineCollectionOptions::Bounded {
        max_bytes: 6.bytes(),
        max_lines: 100,
        overflow_behavior: CollectionOverflowBehavior::DropAdditionalData,
    };
    let mut collected = CollectedLines::new();

    collected.push_line("aaa".to_string(), options);
    collected.push_line("bbbb".to_string(), options);

    assert_eq!(*collected.lines(), VecDeque::from(["aaa".to_string()]));
    assert_eq!(collected.retained_bytes(), 3);
    assert_retained_bytes_match_lines(&collected);
    assert!(collected.truncated());
}

struct ChunkCase {
    name: &'static str,
    overflow: CollectionOverflowBehavior,
    max_bytes: usize,
    chunks: &'static [&'static [u8]],
    expected_bytes: &'static [u8],
    expected_truncated: bool,
}

const CHUNK_BOUNDARY_CASES: &[ChunkCase] = &[
    ChunkCase {
        name: "drop_additional/empty_chunk_is_no_op",
        overflow: CollectionOverflowBehavior::DropAdditionalData,
        max_bytes: 5,
        chunks: &[b""],
        expected_bytes: b"",
        expected_truncated: false,
    },
    ChunkCase {
        name: "drop_additional/single_chunk_exactly_fills_buffer",
        overflow: CollectionOverflowBehavior::DropAdditionalData,
        max_bytes: 5,
        chunks: &[b"abcde"],
        expected_bytes: b"abcde",
        expected_truncated: false,
    },
    ChunkCase {
        name: "drop_additional/single_chunk_overshoots_by_one_byte",
        overflow: CollectionOverflowBehavior::DropAdditionalData,
        max_bytes: 5,
        chunks: &[b"abcdef"],
        expected_bytes: b"abcde",
        expected_truncated: true,
    },
    ChunkCase {
        name: "drop_additional/second_chunk_straddles_limit",
        overflow: CollectionOverflowBehavior::DropAdditionalData,
        max_bytes: 5,
        chunks: &[b"abc", b"def"],
        expected_bytes: b"abcde",
        expected_truncated: true,
    },
    ChunkCase {
        name: "drop_additional/first_chunk_exactly_fills_then_second_chunk_rejected",
        overflow: CollectionOverflowBehavior::DropAdditionalData,
        max_bytes: 5,
        chunks: &[b"abcde", b"f"],
        expected_bytes: b"abcde",
        expected_truncated: true,
    },
    ChunkCase {
        name: "drop_oldest/empty_chunk_is_no_op",
        overflow: CollectionOverflowBehavior::DropOldestData,
        max_bytes: 5,
        chunks: &[b""],
        expected_bytes: b"",
        expected_truncated: false,
    },
    ChunkCase {
        name: "drop_oldest/single_chunk_exactly_fills_buffer",
        overflow: CollectionOverflowBehavior::DropOldestData,
        max_bytes: 5,
        chunks: &[b"abcde"],
        expected_bytes: b"abcde",
        expected_truncated: false,
    },
    ChunkCase {
        name: "drop_oldest/single_chunk_overshoots_by_one_byte_into_empty",
        overflow: CollectionOverflowBehavior::DropOldestData,
        max_bytes: 5,
        chunks: &[b"abcdef"],
        expected_bytes: b"bcdef",
        expected_truncated: true,
    },
    ChunkCase {
        name: "drop_oldest/second_chunk_straddles_limit_evicts_front",
        overflow: CollectionOverflowBehavior::DropOldestData,
        max_bytes: 5,
        chunks: &[b"abc", b"def"],
        expected_bytes: b"bcdef",
        expected_truncated: true,
    },
    ChunkCase {
        name: "drop_oldest/oversized_chunk_into_empty_clears_and_keeps_tail",
        overflow: CollectionOverflowBehavior::DropOldestData,
        max_bytes: 5,
        chunks: &[b"abcdefgh"],
        expected_bytes: b"defgh",
        expected_truncated: true,
    },
    ChunkCase {
        name: "drop_oldest/oversized_chunk_into_partial_clears_existing",
        overflow: CollectionOverflowBehavior::DropOldestData,
        max_bytes: 5,
        chunks: &[b"ab", b"cdefgh"],
        expected_bytes: b"defgh",
        expected_truncated: true,
    },
    ChunkCase {
        name: "drop_oldest/first_chunk_exactly_fills_then_second_evicts_front",
        overflow: CollectionOverflowBehavior::DropOldestData,
        max_bytes: 5,
        chunks: &[b"abcde", b"f"],
        expected_bytes: b"bcdef",
        expected_truncated: true,
    },
];

#[test]
fn collect_push_chunk_boundary_matrix() {
    for case in CHUNK_BOUNDARY_CASES {
        let mut collected = CollectedBytes::new();
        let options = RawCollectionOptions::Bounded {
            max_bytes: case.max_bytes.bytes(),
            overflow_behavior: case.overflow,
        };
        for chunk in case.chunks {
            collected.push_chunk(chunk, options);
        }

        assert_eq!(collected.bytes.as_slice(), case.expected_bytes, "{}", format!("case: {}", case.name));
        assert_eq!(collected.truncated, case.expected_truncated, "{}", format!("case: {}", case.name));
    }
}

struct LineCase {
    name: &'static str,
    overflow: CollectionOverflowBehavior,
    max_bytes: usize,
    max_lines: usize,
    push: &'static [&'static str],
    expected_lines: &'static [&'static str],
    expected_truncated: bool,
}

const LINE_BOUNDARY_CASES: &[LineCase] = &[
    LineCase {
        name: "drop_additional/line_exactly_fills_byte_budget_with_slot_left",
        overflow: CollectionOverflowBehavior::DropAdditionalData,
        max_bytes: 5,
        max_lines: 2,
        push: &["abcde"],
        expected_lines: &["abcde"],
        expected_truncated: false,
    },
    LineCase {
        name: "drop_additional/max_lines_reached_before_max_bytes",
        overflow: CollectionOverflowBehavior::DropAdditionalData,
        max_bytes: 100,
        max_lines: 2,
        push: &["a", "b", "c"],
        expected_lines: &["a", "b"],
        expected_truncated: true,
    },
    LineCase {
        name: "drop_additional/max_bytes_reached_before_max_lines",
        overflow: CollectionOverflowBehavior::DropAdditionalData,
        max_bytes: 4,
        max_lines: 10,
        push: &["aa", "bb", "cc"],
        expected_lines: &["aa", "bb"],
        expected_truncated: true,
    },
    LineCase {
        name: "drop_additional/line_equal_to_remaining_budget_accepted",
        overflow: CollectionOverflowBehavior::DropAdditionalData,
        max_bytes: 6,
        max_lines: 10,
        push: &["abc", "def"],
        expected_lines: &["abc", "def"],
        expected_truncated: false,
    },
    LineCase {
        name: "drop_additional/line_one_byte_over_remaining_rejected",
        overflow: CollectionOverflowBehavior::DropAdditionalData,
        max_bytes: 6,
        max_lines: 10,
        push: &["abc", "defg"],
        expected_lines: &["abc"],
        expected_truncated: true,
    },
    LineCase {
        name: "drop_additional/line_strictly_larger_than_max_bytes_rejected",
        overflow: CollectionOverflowBehavior::DropAdditionalData,
        max_bytes: 5,
        max_lines: 10,
        push: &["abc", "xxxxxxxxx"],
        expected_lines: &["abc"],
        expected_truncated: true,
    },
    LineCase {
        name: "drop_oldest/line_exactly_fills_byte_budget_with_slot_left",
        overflow: CollectionOverflowBehavior::DropOldestData,
        max_bytes: 5,
        max_lines: 2,
        push: &["abcde"],
        expected_lines: &["abcde"],
        expected_truncated: false,
    },
    LineCase {
        name: "drop_oldest/max_lines_reached_before_max_bytes_evicts_one",
        overflow: CollectionOverflowBehavior::DropOldestData,
        max_bytes: 100,
        max_lines: 2,
        push: &["a", "b", "c"],
        expected_lines: &["b", "c"],
        expected_truncated: true,
    },
    LineCase {
        name: "drop_oldest/max_bytes_reached_before_max_lines_evicts_one",
        overflow: CollectionOverflowBehavior::DropOldestData,
        max_bytes: 6,
        max_lines: 10,
        push: &["aaa", "bbb", "ccc"],
        expected_lines: &["bbb", "ccc"],
        expected_truncated: true,
    },
    LineCase {
        name: "drop_oldest/incoming_line_requires_evicting_multiple_lines",
        overflow: CollectionOverflowBehavior::DropOldestData,
        max_bytes: 8,
        max_lines: 100,
        push: &["a", "b", "cc", "dddd", "eeeeee"],
        expected_lines: &["eeeeee"],
        expected_truncated: true,
    },
    LineCase {
        name: "drop_oldest/line_strictly_larger_than_max_bytes_rejected",
        overflow: CollectionOverflowBehavior::DropOldestData,
        max_bytes: 5,
        max_lines: 10,
        push: &["abc", "xxxxxxxxx"],
        expected_lines: &["abc"],
        expected_truncated: true,
    },
];

#[test]
fn collect_push_line_boundary_matrix() {
    for case in LINE_BOUNDARY_CASES {
        let mut collected = CollectedLines::new();
        let options = LineCollectionOptions::Bounded {
            max_bytes: case.max_bytes.bytes(),
            max_lines: case.max_lines,
            overflow_behavior: case.overflow,
        };
        for line in case.push {
            collected.push_line((*line).to_string(), options);
        }

        let actual_lines: Vec<&str> = collected.lines().iter().map(String::as_str).collect();
        assert_eq!(actual_lines, case.expected_lines.to_vec(), "{}", format!("case: {}", case.name));
        assert_eq!(collected.truncated(), case.expected_truncated, "{}", format!("case: {}", case.name));
        assert_eq!(collected.retained_bytes(), case.expected_lines.iter() .map(|line| line.len()).sum::<usize>() as u128, "{}", format!("case: {} (retained_bytes)", case.name));
    }
}

#[test]
fn collect_raw_collection_keeps_expected_bytes_when_truncated() {
    let mut collected = CollectedBytes::new();
    let options = RawCollectionOptions::Bounded {
        max_bytes: 5.bytes(),
        overflow_behavior: CollectionOverflowBehavior::DropAdditionalData,
    };

    collected.push_chunk(b"abc", options);
    collected.push_chunk(b"def", options);

    assert_eq!(collected.bytes.as_slice(), b"abcde".as_slice());
    assert!(collected.truncated);

    let mut collected = CollectedBytes::new();
    let options = RawCollectionOptions::Bounded {
        max_bytes: 5.bytes(),
        overflow_behavior: CollectionOverflowBehavior::DropOldestData,
    };

    collected.push_chunk(b"abc", options);
    collected.push_chunk(b"def", options);

    assert_eq!(collected.bytes.as_slice(), b"bcdef".as_slice());
    assert!(collected.truncated);
}

#[test]
fn collect_basic_line_collection_limit_modes() {
    let mut collected = CollectedLines::new();
    let options = LineCollectionOptions::Bounded {
        max_bytes: 7.bytes(),
        max_lines: 2,
        overflow_behavior: CollectionOverflowBehavior::DropAdditionalData,
    };

    collected.push_line("one".to_string(), options);
    collected.push_line("two".to_string(), options);
    collected.push_line("three".to_string(), options);

    assert_eq!(collected.lines().iter().map(String::as_str).collect::<Vec<_>>(), vec!["one", "two"]);
    assert!(collected.truncated());

    let mut collected = CollectedLines::new();
    let options = LineCollectionOptions::Bounded {
        max_bytes: 6.bytes(),
        max_lines: 2,
        overflow_behavior: CollectionOverflowBehavior::DropOldestData,
    };

    collected.push_line("one".to_string(), options);
    collected.push_line("two".to_string(), options);
    collected.push_line("six".to_string(), options);

    assert_eq!(collected.lines().iter().map(String::as_str).collect::<Vec<_>>(), vec!["two", "six"]);
    assert!(collected.truncated());
}

#[test]
fn collect_retained_bytes_tracks_appended_lines() {
    let options = LineCollectionOptions::Bounded {
        max_bytes: 100.bytes(),
        max_lines: 100,
        overflow_behavior: CollectionOverflowBehavior::DropAdditionalData,
    };
    let mut collected = CollectedLines::new();

    collected.push_line("aaa".to_string(), options);
    collected.push_line("bbbb".to_string(), options);

    assert_eq!(collected.retained_bytes(), 7);
    assert_retained_bytes_match_lines(&collected);
}

#[test]
fn collect_drop_oldest_preserves_retained_lines_when_oversized_line_arrives() {
    let options = drop_oldest_options(10, 100);
    let mut collected = CollectedLines::new();

    collected.push_line("aaa".to_string(), options);
    collected.push_line("bbb".to_string(), options);
    collected.push_line("x".repeat(13), options);

    assert_eq!(*collected.lines(), VecDeque::from(["aaa".to_string(), "bbb".to_string()]), "previously-retained lines must survive an oversized incoming line");
    assert_eq!(collected.retained_bytes(), 6);
    assert_retained_bytes_match_lines(&collected);
    assert!(collected.truncated());
}

#[test]
fn collect_drop_oldest_evicts_old_lines_when_new_line_fits_but_budget_is_exceeded() {
    let options = drop_oldest_options(10, 100);
    let mut collected = CollectedLines::new();

    collected.push_line("aaaa".to_string(), options);
    collected.push_line("bbbb".to_string(), options);
    collected.push_line("cccc".to_string(), options);

    assert_eq!(*collected.lines(), VecDeque::from(["bbbb".to_string(), "cccc".to_string()]));
    assert_eq!(collected.retained_bytes(), 8);
    assert_retained_bytes_match_lines(&collected);
    assert!(collected.truncated());
}

#[test]
fn collect_drop_oldest_updates_retained_bytes_when_evicting_by_line_count() {
    let options = drop_oldest_options(100, 2);
    let mut collected = CollectedLines::new();

    collected.push_line("a".to_string(), options);
    collected.push_line("bb".to_string(), options);
    collected.push_line("ccc".to_string(), options);

    assert_eq!(*collected.lines(), VecDeque::from(["bb".to_string(), "ccc".to_string()]));
    assert_eq!(collected.retained_bytes(), 5);
    assert_retained_bytes_match_lines(&collected);
    assert!(collected.truncated());
}

#[test]
fn collect_drop_oldest_with_zero_max_lines_retains_nothing() {
    let options = drop_oldest_options(100, 0);
    let mut collected = CollectedLines::new();

    collected.push_line("aaa".to_string(), options);

    assert!(collected.lines().is_empty());
    assert_eq!(collected.retained_bytes(), 0);
    assert_retained_bytes_match_lines(&collected);
    assert!(collected.truncated());
}

#[test]
fn collect_drop_additional_preserves_retained_lines_when_oversized_line_arrives() {
    let options = LineCollectionOptions::Bounded {
        max_bytes: 10.bytes(),
        max_lines: 100,
        overflow_behavior: CollectionOverflowBehavior::DropAdditionalData,
    };
    let mut collected = CollectedLines::new();

    collected.push_line("aaa".to_string(), options);
    collected.push_line("x".repeat(13), options);

    assert_eq!(*collected.lines(), VecDeque::from(["aaa".to_string()]));
    assert_eq!(collected.retained_bytes(), 3);
    assert_retained_bytes_match_lines(&collected);
    assert!(collected.truncated());
}

#[test]
fn collect_drop_additional_preserves_retained_bytes_when_limit_rejects_line() {
    let options = LineCollectionOptions::Bounded {
        max_bytes: 6.bytes(),
        max_lines: 100,
        overflow_behavior: CollectionOverflowBehavior::DropAdditionalData,
    };
    let mut collected = CollectedLines::new();

    collected.push_line("aaa".to_string(), options);
    collected.push_line("bbbb".to_string(), options);

    assert_eq!(*collected.lines(), VecDeque::from(["aaa".to_string()]));
    assert_eq!(collected.retained_bytes(), 3);
    assert_retained_bytes_match_lines(&collected);
    assert!(collected.truncated());
}

#[test]
fn trusted_unbounded_collections_keep_everything() {
    let mut bytes = CollectedBytes::new();
    bytes.push_chunk(b"abc", RawCollectionOptions::TrustedUnbounded);
    bytes.push_chunk(b"", RawCollectionOptions::TrustedUnbounded);
    bytes.push_chunk(b"def", RawCollectionOptions::TrustedUnbounded);
    assert_eq!(bytes.bytes, b"abcdef");
    assert!(!bytes.truncated);

    let mut lines = CollectedLines::new();
    lines.push_line("one".to_string(), LineCollectionOptions::TrustedUnbounded);
    lines.push_line("two".to_string(), LineCollectionOptions::TrustedUnbounded);
    assert!(!lines.truncated());
    assert_eq!(lines.len(), 2);
    let (lines, truncated) = lines.into_parts();
    assert_eq!(lines, ["one", "two"]);
    assert!(!truncated);
}

#[test]
fn collected_values_start_empty() {
    let bytes = CollectedBytes::default();
    assert!(bytes.is_empty());
    assert_eq!(bytes.clone(), CollectedBytes::new());
    let lines = CollectedLines::default();
    assert!(lines.lines().is_empty());
    assert_eq!(lines.retained_bytes(), 0);
    assert!(lines.into_lines().is_empty());
}

#[test]
fn raw_collection_stays_truncated() {
    let options = RawCollectionOptions::new(2.bytes())
        .with_overflow_behavior(CollectionOverflowBehavior::DropOldestData);
    let mut collected = CollectedBytes::new();
    assert!(collected.has_room(3, options));
    collected.push_chunk(b"abc", options);
    assert!(collected.truncated);
    collected.push_chunk(b"", options);
    assert_eq!(collected.bytes, b"bc");
    assert!(collected.truncated);
}

#[test]
fn retained_lines_respect_both_limits_at_every_step() {
    for behavior in [
        CollectionOverflowBehavior::DropAdditionalData,
        CollectionOverflowBehavior::DropOldestData,
    ] {
        let options = LineCollectionOptions::Bounded {
            max_bytes: 7.bytes(),
            max_lines: 3,
            overflow_behavior: behavior,
        };
        let mut collected = CollectedLines::new();
        for line in ["a", "", "bcd", "efghijkl", "mno", "pqrstuv", "w"] {
            collected.push_line(line.to_string(), options);
            assert!(total_len(&collected) <= 7);
            assert!(collected.lines().len() <= 3);
        }
        assert!(collected.truncated());
    }
}

#[test]
fn cloned_lines_are_collected_further_on_their_own() {
    let mut collected = CollectedLines::new();
    collected.push_line("aaaa".to_string(), drop_oldest_options(10, 2));
    let copy = collected.clone();
    collected.push_line("bbbb".to_string(), drop_oldest_options(10, 2));
    assert_eq!(*copy.lines(), ["aaaa"]);
    assert_eq!(copy.retained_bytes(), 4);
    assert_eq!(*collected.lines(), ["aaaa", "bbbb"]);
}

#[test]
fn line_collection_options_builder_takes_settings_in_any_order() {
    let expected = LineCollectionOptions::Bounded {
        max_bytes: 10.bytes(),
        max_lines: 3,
        overflow_behavior: CollectionOverflowBehavior::DropOldestData,
    };
    assert_eq!(
        LineCollectionOptions::builder()
            .max_bytes(10.bytes())
            .max_lines(3)
            .overflow_behavior(CollectionOverflowBehavior::DropOldestData)
            .build(),
        expected
    );
    assert_eq!(
        LineCollectionOptions::builder()
            .overflow_behavior(CollectionOverflowBehavior::DropOldestData)
            .max_lines(3)
            .max_bytes(10.bytes())
            .build(),
        expected
    );
}
