//! Defaults and checks of stream settings.

use crate::output_stream::num_bytes::{NumBytes, NumBytesExt};
use vstd::prelude::*;

verus! {

/// Default chunk size read from the source stream. 16 kilobytes.
pub const DEFAULT_READ_CHUNK_BYTES: usize = 16 * 1024;

/// Default maximum buffered chunks for stdout and stderr streams. 128 slots.
pub const DEFAULT_MAX_BUFFERED_CHUNKS: usize = 128;

/// Default chunk size read from the source stream. 16 kilobytes.
#[must_use]
pub fn default_read_chunk_size() -> (r: NumBytes)
    ensures
        r@ == DEFAULT_READ_CHUNK_BYTES,
        r@ == 16 * 1024,
{
    DEFAULT_READ_CHUNK_BYTES.bytes()
}

/// Checks that a channel holds at least one chunk. The error names the parameter.
pub fn check_max_buffered_chunks_non_zero(chunks: usize, parameter_name: &str) -> (r: Result<
    (),
    String,
>)
    ensures
        match r {
            Ok(_) => chunks > 0,
            Err(message) => chunks == 0 && message@ == parameter_name@
                + " must be greater than zero"@,
        },
{
    if chunks > 0 {
        Ok(())
    } else {
        Err(parameter_name.to_owned().concat(" must be greater than zero"))
    }
}

/// Checks that a number of bytes is not zero. The error names the parameter.
pub fn check_bytes_non_zero(bytes: NumBytes, parameter_name: &str) -> (r: Result<(), String>)
    ensures
        match r {
            Ok(_) => bytes@ > 0,
            Err(message) => bytes@ == 0 && message@ == parameter_name@
                + " must be greater than zero bytes"@,
        },
{
    if bytes.bytes() > 0 {
        Ok(())
    } else {
        Err(parameter_name.to_owned().concat(" must be greater than zero bytes"))
    }
}

/// By default chunks of 16 kilobytes are read, and 128 of them are buffered.
pub proof fn defaults_are_sixteen_kilobytes_and_128_chunks()
    ensures
        DEFAULT_READ_CHUNK_BYTES == 16384,
        DEFAULT_MAX_BUFFERED_CHUNKS == 128,
{
}

} // verus!
