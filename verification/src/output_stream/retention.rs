//! Laws of in-memory collection: what is retained of a whole stream.

use crate::output_stream::collection::{
    self, Collection, CollectionOverflowBehavior, LineCollectionOptions, RawCollection,
    RawCollectionOptions,
};
use crate::output_stream::line::laws;
use crate::output_stream::line::splitting;
use crate::output_stream::num_bytes::NumBytes;
use vstd::prelude::*;
use vstd::utf8::*;

verus! {

/// What is collected of a stream that arrives in chunks.
pub open spec fn collect_chunks(
    chunks: Seq<Seq<u8>>,
    options: RawCollectionOptions,
) -> RawCollection
    decreases chunks.len(),
{
    if chunks.len() == 0 {
        RawCollection::empty()
    } else {
        collect_chunks(chunks.drop_last(), options).with_chunk(chunks.last(), options)
    }
}

/// The bytes of all chunks, and those of one more.
proof fn joined_push(chunks: Seq<Seq<u8>>, chunk: Seq<u8>)
    ensures
        laws::joined(chunks.push(chunk)) == laws::joined(chunks) + chunk,
    decreases chunks.len(),
{
    if chunks.len() == 0 {
        assert(chunks.push(chunk).skip(1) =~= Seq::<Seq<u8>>::empty());
        assert(laws::joined(chunks.push(chunk).skip(1)) =~= Seq::<u8>::empty());
        assert(laws::joined(chunks.push(chunk)) =~= chunk);
        assert(laws::joined(chunks) + chunk =~= chunk);
    } else {
        joined_push(chunks.skip(1), chunk);
        assert(chunks.push(chunk).skip(1) =~= chunks.skip(1).push(chunk));
        assert(chunks[0] + (laws::joined(chunks.skip(1)) + chunk) =~= (chunks[0] + laws::joined(
            chunks.skip(1),
        )) + chunk);
    }
}

/// Without a limit everything is retained, and nothing is reported as discarded.
pub proof fn unbounded_keeps_everything(chunks: Seq<Seq<u8>>)
    ensures
        collect_chunks(chunks, RawCollectionOptions::TrustedUnbounded) == (RawCollection {
            bytes: laws::joined(chunks),
            truncated: false,
        }),
    decreases chunks.len(),
{
    if chunks.len() > 0 {
        unbounded_keeps_everything(chunks.drop_last());
        joined_push(chunks.drop_last(), chunks.last());
        assert(chunks.drop_last().push(chunks.last()) =~= chunks);
    }
}

/// A bounded collection that drops additional data retains the first bytes of the stream, however
/// it is cut into chunks, and reports truncation exactly if the stream is longer than the limit.
pub proof fn drop_additional_keeps_first_bytes(chunks: Seq<Seq<u8>>, options: RawCollectionOptions)
    requires
        options matches RawCollectionOptions::Bounded { max_bytes, overflow_behavior }
            && overflow_behavior == CollectionOverflowBehavior::DropAdditionalData,
    ensures
        ({
            let max_bytes = options->max_bytes@;
            let stream = laws::joined(chunks);
            collect_chunks(chunks, options) == (RawCollection {
                bytes: collection::first_bytes(stream, max_bytes),
                truncated: stream.len() > max_bytes,
            })
        }),
    decreases chunks.len(),
{
    if chunks.len() > 0 {
        let max_bytes = options->max_bytes@;
        let before = laws::joined(chunks.drop_last());
        let chunk = chunks.last();
        drop_additional_keeps_first_bytes(chunks.drop_last(), options);
        joined_push(chunks.drop_last(), chunk);
        assert(chunks.drop_last().push(chunk) =~= chunks);
        assert(collection::first_bytes(
            collection::first_bytes(before, max_bytes) + chunk,
            max_bytes,
        ) =~= collection::first_bytes(before + chunk, max_bytes));
    }
}

/// A bounded collection that drops the oldest data retains the last bytes of the stream, however it
/// is cut into chunks, and reports truncation exactly if the stream is longer than the limit.
pub proof fn drop_oldest_keeps_last_bytes(chunks: Seq<Seq<u8>>, options: RawCollectionOptions)
    requires
        options matches RawCollectionOptions::Bounded { max_bytes, overflow_behavior }
            && overflow_behavior == CollectionOverflowBehavior::DropOldestData,
    ensures
        ({
            let max_bytes = options->max_bytes@;
            let stream = laws::joined(chunks);
            collect_chunks(chunks, options) == (RawCollection {
                bytes: collection::last_bytes(stream, max_bytes),
                truncated: stream.len() > max_bytes,
            })
        }),
    decreases chunks.len(),
{
    if chunks.len() > 0 {
        let max_bytes = options->max_bytes@;
        let before = laws::joined(chunks.drop_last());
        let chunk = chunks.last();
        drop_oldest_keeps_last_bytes(chunks.drop_last(), options);
        joined_push(chunks.drop_last(), chunk);
        assert(chunks.drop_last().push(chunk) =~= chunks);
        assert(collection::last_bytes(
            collection::last_bytes(before, max_bytes) + chunk,
            max_bytes,
        ) =~= collection::last_bytes(before + chunk, max_bytes));
    }
}

/// The bytes of all chunks, one after the other.
pub proof fn joined_is_flatten(chunks: Seq<Seq<u8>>)
    ensures
        laws::joined(chunks) == chunks.flatten(),
    decreases chunks.len(),
{
    if chunks.len() > 0 {
        joined_is_flatten(chunks.skip(1));
        assert(chunks.drop_first() =~= chunks.skip(1));
    }
}

/// What is collected of chunks is all of their bytes if they fit. If not, it is as many as the limit
/// allows, from the end of the stream or from its start, and truncation is reported.
pub proof fn collected_bytes_are_one_end_of_the_stream(
    chunks: Seq<Seq<u8>>,
    options: RawCollectionOptions,
)
    ensures
        ({
            let stream = chunks.flatten();
            let collected = collect_chunks(chunks, options);
            match options {
                RawCollectionOptions::TrustedUnbounded => {
                    &&& collected.bytes == stream
                    &&& !collected.truncated
                },
                RawCollectionOptions::Bounded { max_bytes, overflow_behavior } => {
                    let max = max_bytes@ as int;
                    let all = stream.len() <= max;
                    &&& collected.truncated == !all
                    &&& all ==> collected.bytes == stream
                    &&& !all && overflow_behavior == CollectionOverflowBehavior::DropOldestData
                        ==> collected.bytes == stream.subrange(stream.len() - max, stream.len() as int)
                    &&& !all && overflow_behavior == CollectionOverflowBehavior::DropAdditionalData
                        ==> collected.bytes == stream.subrange(0, max)
                },
            }
        }),
{
    let stream = chunks.flatten();
    joined_is_flatten(chunks);
    match options {
        RawCollectionOptions::TrustedUnbounded => unbounded_keeps_everything(chunks),
        RawCollectionOptions::Bounded { max_bytes, overflow_behavior } => {
            let max = max_bytes@ as int;
            match overflow_behavior {
                CollectionOverflowBehavior::DropAdditionalData => {
                    drop_additional_keeps_first_bytes(chunks, options);
                    assert(stream.len() > max ==> stream.take(max) =~= stream.subrange(0, max));
                },
                CollectionOverflowBehavior::DropOldestData => {
                    drop_oldest_keeps_last_bytes(chunks, options);
                    assert(stream.len() > max ==> stream.skip(stream.len() - max)
                        =~= stream.subrange(stream.len() - max, stream.len() as int));
                },
            }
        },
    }
}

/// A chunk is taken in behind the bytes that are retained already, whatever they are. Only bytes
/// beyond the limit are missing afterwards: of the chunk if additional data is dropped, and the
/// oldest ones if those make way. A collection that is beyond the limit already only grows no
/// further if additional data is dropped.
pub proof fn chunk_follows_what_is_retained(
    collected: RawCollection,
    chunk: Seq<u8>,
    options: RawCollectionOptions,
)
    ensures
        ({
            let after = collected.with_chunk(chunk, options);
            let both = collected.bytes + chunk;
            match options {
                RawCollectionOptions::TrustedUnbounded => {
                    &&& after.bytes == both
                    &&& after.truncated == collected.truncated
                },
                RawCollectionOptions::Bounded { max_bytes, overflow_behavior } => {
                    let max = max_bytes@ as int;
                    let grown = collected.bytes.len() > max;
                    &&& both.len() <= max ==> after.bytes == both && after.truncated
                        == collected.truncated
                    &&& both.len() > max && overflow_behavior
                        == CollectionOverflowBehavior::DropOldestData ==> {
                        &&& after.truncated
                        &&& after.bytes == both.subrange(both.len() - max, both.len() as int)
                    }
                    &&& both.len() > max && overflow_behavior
                        == CollectionOverflowBehavior::DropAdditionalData ==> {
                        &&& after.truncated == (collected.truncated || chunk.len() > 0)
                        &&& after.bytes == if grown {
                            collected.bytes
                        } else {
                            both.subrange(0, max)
                        }
                    }
                },
            }
        }),
{
    let both = collected.bytes + chunk;
    if let RawCollectionOptions::Bounded { max_bytes, overflow_behavior } = options {
        let max = max_bytes@ as int;
        if both.len() > max {
            assert(both.skip(both.len() - max) =~= both.subrange(
                both.len() - max,
                both.len() as int,
            ));
            assert(both.take(max) =~= both.subrange(0, max));
        }
    }
}

/// What is collected of lines that arrive one by one.
pub open spec fn collect_lines(lines: Seq<Seq<char>>, options: LineCollectionOptions) -> Collection
    decreases lines.len(),
{
    if lines.len() == 0 {
        Collection::empty()
    } else {
        collect_lines(lines.drop_last(), options).with_line(lines.last(), options)
    }
}

/// Whether lines respect the limits.
pub open spec fn within_limits(lines: Seq<Seq<char>>, options: LineCollectionOptions) -> bool {
    match options {
        LineCollectionOptions::TrustedUnbounded => true,
        LineCollectionOptions::Bounded { max_bytes, max_lines, .. } => {
            &&& lines.len() <= max_lines
            &&& collection::total_len(lines) <= max_bytes@
        },
    }
}

/// Making room evicts the oldest lines only, and no more of them than needed.
pub proof fn make_room_evicts_only_what_is_needed(
    lines: Seq<Seq<char>>,
    len: nat,
    max_bytes: nat,
    max_lines: nat,
)
    requires
        max_lines > 0,
        len <= max_bytes,
    ensures
        ({
            let kept = collection::make_room(lines, len, max_bytes, max_lines);
            &&& kept.is_suffix_of(lines)
            &&& kept.len() < max_lines
            &&& !collection::exceeds(len, kept, max_bytes)
            &&& forall|n: int|
                #![trigger lines.skip(n)]
                0 <= n < lines.len() - kept.len() ==> lines.skip(n).len() >= max_lines
                    || collection::exceeds(len, lines.skip(n), max_bytes)
        }),
    decreases lines.len(),
{
    let kept = collection::make_room(lines, len, max_bytes, max_lines);
    if lines.len() > 0 && (lines.len() >= max_lines || collection::exceeds(len, lines, max_bytes)) {
        let rest = lines.skip(1);
        make_room_evicts_only_what_is_needed(rest, len, max_bytes, max_lines);
        assert(lines.skip(0) =~= lines);
        assert forall|n: int|
            #![trigger lines.skip(n)]
            0 <= n < lines.len() - kept.len() implies lines.skip(n).len() >= max_lines
            || collection::exceeds(len, lines.skip(n), max_bytes) by {
            if n > 0 {
                assert(rest.skip(n - 1) =~= lines.skip(n));
            }
        }
        assert(kept.is_suffix_of(lines)) by {
            assert(rest.skip(rest.len() - kept.len()) =~= lines.skip(lines.len() - kept.len()));
        }
    }
}

/// Making room never adds bytes.
proof fn make_room_shrinks(lines: Seq<Seq<char>>, len: nat, max_bytes: nat, max_lines: nat)
    ensures
        collection::total_len(collection::make_room(lines, len, max_bytes, max_lines))
            <= collection::total_len(lines),
    decreases lines.len(),
{
    if lines.len() > 0 && (lines.len() >= max_lines || collection::exceeds(len, lines, max_bytes)) {
        make_room_shrinks(lines.skip(1), len, max_bytes, max_lines);
    }
}

/// A collection never holds more lines or bytes than its limits allow.
pub proof fn collection_stays_within_limits(
    lines: Seq<Seq<char>>,
    options: LineCollectionOptions,
)
    ensures
        within_limits(collect_lines(lines, options).lines, options),
    decreases lines.len(),
{
    if lines.len() > 0 {
        let before = collect_lines(lines.drop_last(), options).lines;
        let line = lines.last();
        collection_stays_within_limits(lines.drop_last(), options);
        collection::total_len_push(before, line);
        if let LineCollectionOptions::Bounded { max_bytes, max_lines, overflow_behavior } =
            options {
            let len = collection::text_len(line);
            let kept = collection::make_room(before, len, max_bytes@, max_lines as nat);
            make_room_shrinks(before, len, max_bytes@, max_lines as nat);
            collection::total_len_push(kept, line);
            if max_lines > 0 && len <= max_bytes@ {
                make_room_evicts_only_what_is_needed(before, len, max_bytes@, max_lines as nat);
            }
        }
    }
}

/// If no truncation is reported, every line was retained.
pub proof fn untruncated_collection_is_complete(
    lines: Seq<Seq<char>>,
    options: LineCollectionOptions,
)
    requires
        !collect_lines(lines, options).truncated,
    ensures
        collect_lines(lines, options).lines == lines,
    decreases lines.len(),
{
    if lines.len() > 0 {
        let before = collect_lines(lines.drop_last(), options).lines;
        let line = lines.last();
        untruncated_collection_is_complete(lines.drop_last(), options);
        assert(lines.drop_last().push(line) =~= lines);
        if let LineCollectionOptions::Bounded { max_bytes, max_lines, overflow_behavior } =
            options {
            let len = collection::text_len(line);
            if max_lines > 0 && len <= max_bytes@ {
                make_room_evicts_only_what_is_needed(before, len, max_bytes@, max_lines as nat);
                let kept = collection::make_room(before, len, max_bytes@, max_lines as nat);
                assert(kept.len() == before.len() ==> kept =~= before);
            }
        }
    }
}

/// Dropping additional data never touches a line that was retained before.
pub proof fn drop_additional_keeps_earlier_lines(
    collected: Collection,
    line: Seq<char>,
    options: LineCollectionOptions,
)
    requires
        options matches LineCollectionOptions::Bounded { overflow_behavior, .. }
            && overflow_behavior == CollectionOverflowBehavior::DropAdditionalData,
    ensures
        collected.lines.is_prefix_of(collected.with_line(line, options).lines),
{
}

/// Dropping the oldest data retains every line that can fit at all, as the newest one. Only older
/// lines make way for it. A line too large for the limit evicts nothing.
pub proof fn drop_oldest_keeps_newest_line(
    collected: Collection,
    line: Seq<char>,
    options: LineCollectionOptions,
)
    requires
        options matches LineCollectionOptions::Bounded { overflow_behavior, .. }
            && overflow_behavior == CollectionOverflowBehavior::DropOldestData,
    ensures
        ({
            let after = collected.with_line(line, options).lines;
            if options->max_lines == 0 || collection::text_len(line)
                > options->Bounded_max_bytes@ {
                after == collected.lines
            } else {
                after.len() > 0 && after.last() == line && after.drop_last().is_suffix_of(
                    collected.lines,
                )
            }
        }),
{
    let len = collection::text_len(line);
    let max_bytes = options->Bounded_max_bytes@;
    let max_lines = options->max_lines as nat;
    if max_lines > 0 && len <= max_bytes {
        make_room_evicts_only_what_is_needed(collected.lines, len, max_bytes, max_lines);
        let kept = collection::make_room(collected.lines, len, max_bytes, max_lines);
        assert(kept.push(line).drop_last() =~= kept);
    }
}

/// The length of lines together is that of their UTF-8 bytes, one line after the other.
pub proof fn total_len_is_encoded_len(lines: Seq<Seq<char>>)
    ensures
        collection::total_len(lines) == encode_utf8(lines.flatten()).len(),
    decreases lines.len(),
{
    if lines.len() > 0 {
        total_len_is_encoded_len(lines.skip(1));
        assert(lines.drop_first() =~= lines.skip(1));
        splitting::encode_concat(lines[0], lines.skip(1).flatten());
    }
}

/// Whether one line more fits beside others: there is a slot for it, and its UTF-8 bytes together with
/// theirs stay within the limit. A line without any byte only needs the slot.
pub open spec fn fits_beside(
    lines: Seq<Seq<char>>,
    line: Seq<char>,
    max_bytes: nat,
    max_lines: nat,
) -> bool {
    &&& lines.len() < max_lines
    &&& encode_utf8(line).len() == 0 || encode_utf8(lines.flatten()).len() + encode_utf8(line).len()
        <= max_bytes
}

/// A line that fits beside those retained is retained behind them, whatever the overflow behavior is,
/// and no truncation is reported for it.
pub proof fn fitting_line_is_retained(
    collected: Collection,
    line: Seq<char>,
    max_bytes: NumBytes,
    max_lines: usize,
    overflow_behavior: CollectionOverflowBehavior,
)
    requires
        collected.lines.len() < max_lines,
        encode_utf8(collected.lines.flatten()).len() + encode_utf8(line).len() <= max_bytes@,
    ensures
        collected.with_line(
            line,
            LineCollectionOptions::Bounded { max_bytes, max_lines, overflow_behavior },
        ) == (Collection {
            lines: collected.lines.push(line),
            truncated: collected.truncated,
        }),
{
    total_len_is_encoded_len(collected.lines);
}

/// Without limits every line is retained.
pub proof fn unbounded_collection_retains_every_line(collected: Collection, line: Seq<char>)
    ensures
        collected.with_line(line, LineCollectionOptions::TrustedUnbounded) == (Collection {
            lines: collected.lines.push(line),
            truncated: collected.truncated,
        }),
{
}

/// Dropping additional data discards a line exactly if it does not fit beside those retained, and
/// reports that.
pub proof fn drop_additional_discards_only_what_does_not_fit(
    collected: Collection,
    line: Seq<char>,
    max_bytes: NumBytes,
    max_lines: usize,
)
    ensures
        collected.with_line(
            line,
            LineCollectionOptions::Bounded {
                max_bytes,
                max_lines,
                overflow_behavior: CollectionOverflowBehavior::DropAdditionalData,
            },
        ) == if fits_beside(collected.lines, line, max_bytes@, max_lines as nat) {
            Collection { lines: collected.lines.push(line), truncated: collected.truncated }
        } else {
            Collection { lines: collected.lines, truncated: true }
        },
{
    total_len_is_encoded_len(collected.lines);
}

/// Dropping the oldest data retains a new line that can fit at all, behind as many of the lines
/// retained before as leave room for it, and those are the newest ones. Truncation is reported exactly
/// if a line had to go. A line that cannot fit at all is discarded, which is reported too.
pub proof fn drop_oldest_evicts_only_what_makes_room(
    collected: Collection,
    line: Seq<char>,
    max_bytes: NumBytes,
    max_lines: usize,
)
    ensures
        ({
            let after = collected.with_line(
                line,
                LineCollectionOptions::Bounded {
                    max_bytes,
                    max_lines,
                    overflow_behavior: CollectionOverflowBehavior::DropOldestData,
                },
            );
            if max_lines == 0 || encode_utf8(line).len() > max_bytes@ {
                after == (Collection { lines: collected.lines, truncated: true })
            } else {
                let evicted = collected.lines.len() + 1 - after.lines.len();
                &&& 0 <= evicted <= collected.lines.len()
                &&& after.lines == collected.lines.skip(evicted).push(line)
                &&& fits_beside(
                    collected.lines.skip(evicted),
                    line,
                    max_bytes@,
                    max_lines as nat,
                )
                &&& forall|n: int|
                    #![trigger collected.lines.skip(n)]
                    0 <= n < evicted ==> !fits_beside(
                        collected.lines.skip(n),
                        line,
                        max_bytes@,
                        max_lines as nat,
                    )
                &&& after.truncated == (collected.truncated || evicted > 0)
            }
        }),
{
    let lines = collected.lines;
    let len = collection::text_len(line);
    if max_lines > 0 && len <= max_bytes@ {
        make_room_evicts_only_what_is_needed(lines, len, max_bytes@, max_lines as nat);
        let kept = collection::make_room(lines, len, max_bytes@, max_lines as nat);
        let evicted = lines.len() - kept.len();
        assert(kept =~= lines.skip(evicted));
        total_len_is_encoded_len(kept);
        assert forall|n: int|
            #![trigger lines.skip(n)]
            0 <= n < evicted implies !fits_beside(
            lines.skip(n),
            line,
            max_bytes@,
            max_lines as nat,
        ) by {
            total_len_is_encoded_len(lines.skip(n));
        }
    }
}

/// Lines that respect both limits all together are all retained, and no truncation is reported.
pub proof fn lines_within_limits_are_all_retained(
    lines: Seq<Seq<char>>,
    max_bytes: NumBytes,
    max_lines: usize,
    overflow_behavior: CollectionOverflowBehavior,
)
    requires
        lines.len() <= max_lines,
        encode_utf8(lines.flatten()).len() <= max_bytes@,
    ensures
        collect_lines(
            lines,
            LineCollectionOptions::Bounded { max_bytes, max_lines, overflow_behavior },
        ) == (Collection { lines, truncated: false }),
    decreases lines.len(),
{
    if lines.len() > 0 {
        let earlier = lines.drop_last();
        total_len_is_encoded_len(lines);
        total_len_is_encoded_len(earlier);
        collection::total_len_push(earlier, lines.last());
        assert(earlier.push(lines.last()) =~= lines);
        lines_within_limits_are_all_retained(earlier, max_bytes, max_lines, overflow_behavior);
        fitting_line_is_retained(
            Collection { lines: earlier, truncated: false },
            lines.last(),
            max_bytes,
            max_lines,
            overflow_behavior,
        );
    } else {
        assert(lines =~= Seq::<Seq<char>>::empty());
    }
}

/// Without limits all lines are retained, and no truncation is reported.
pub proof fn unbounded_collection_is_complete(lines: Seq<Seq<char>>)
    ensures
        collect_lines(lines, LineCollectionOptions::TrustedUnbounded) == (Collection {
            lines,
            truncated: false,
        }),
    decreases lines.len(),
{
    if lines.len() > 0 {
        unbounded_collection_is_complete(lines.drop_last());
        assert(lines.drop_last().push(lines.last()) =~= lines);
    } else {
        assert(lines =~= Seq::<Seq<char>>::empty());
    }
}

} // verus!
