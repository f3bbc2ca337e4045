//! Contracts for the growable and frozen byte buffers of the `bytes` crate.

use bytes::{Bytes, BytesMut};
use vstd::prelude::*;

verus! {

/// The largest number of bytes that a buffer is asked to hold at once.
///
/// A buffer that grows at least doubles its storage, and a buffer of which a prefix was split off
/// still owns the storage of that prefix. A quarter of the largest possible allocation leaves room
/// for both.
pub const MAX_BUFFERED_BYTES: usize = usize::MAX / 8;

/// The growable buffer of the `bytes` crate.
#[verifier::external_type_specification]
#[verifier::external_body]
pub struct ExBytesMut(BytesMut);

/// The frozen buffer of the `bytes` crate.
#[verifier::external_type_specification]
#[verifier::external_body]
pub struct ExBytes(Bytes);

/// The bytes that a growable buffer holds, in order.
pub uninterp spec fn buffered(buffer: BytesMut) -> Seq<u8>;

/// The bytes that a frozen buffer holds, in order.
pub uninterp spec fn frozen(bytes: Bytes) -> Seq<u8>;

/// [`BytesMut::new`] gives a buffer that holds nothing.
pub assume_specification[ BytesMut::new ]() -> (r: BytesMut)
    ensures
        buffered(r) == Seq::<u8>::empty(),
;

/// [`BytesMut::with_capacity`] gives a buffer that holds nothing. It panics where the capacity
/// exceeds what a single allocation can have.
pub assume_specification[ BytesMut::with_capacity ](capacity: usize) -> (r: BytesMut)
    requires
        capacity <= isize::MAX,
    ensures
        buffered(r) == Seq::<u8>::empty(),
;

/// [`BytesMut::len`] counts the bytes held.
pub assume_specification[ BytesMut::len ](buffer: &BytesMut) -> (r: usize)
    ensures
        r == buffered(*buffer).len(),
;

/// [`BytesMut::is_empty`] tells whether no byte is held.
pub assume_specification[ BytesMut::is_empty ](buffer: &BytesMut) -> (r: bool)
    ensures
        r == (buffered(*buffer).len() == 0),
;

/// [`BytesMut::capacity`] tells how many bytes fit without a new allocation: at least those held.
/// How many more is up to the allocator.
pub assume_specification[ BytesMut::capacity ](buffer: &BytesMut) -> (r: usize)
    ensures
        r >= buffered(*buffer).len(),
;

/// [`BytesMut::clear`] drops every byte held.
pub assume_specification[ BytesMut::clear ](buffer: &mut BytesMut)
    ensures
        buffered(*final(buffer)) == Seq::<u8>::empty(),
;

/// [`BytesMut::extend_from_slice`] appends the bytes of a slice behind those already held. It
/// panics where the storage would outgrow the address space, which the bound rules out.
pub assume_specification[ BytesMut::extend_from_slice ](buffer: &mut BytesMut, extend: &[u8])
    requires
        buffered(*old(buffer)).len() + extend@.len() <= MAX_BUFFERED_BYTES,
    ensures
        buffered(*final(buffer)) == buffered(*old(buffer)) + extend@,
;

/// [`BytesMut::try_reclaim`] may take back storage that frozen parts no longer use. The bytes held
/// stay as they are. Nothing is claimed of the result, which depends on the storage.
pub assume_specification[ BytesMut::try_reclaim ](buffer: &mut BytesMut, additional: usize) -> (r:
    bool)
    ensures
        buffered(*final(buffer)) == buffered(*old(buffer)),
;

/// [`BytesMut::split_to`] takes the first `at` bytes out of the buffer and hands them back. It
/// panics if the buffer holds fewer.
pub assume_specification[ BytesMut::split_to ](buffer: &mut BytesMut, at: usize) -> (r: BytesMut)
    requires
        at <= buffered(*old(buffer)).len(),
    ensures
        buffered(r) == buffered(*old(buffer)).take(at as int),
        buffered(*final(buffer)) == buffered(*old(buffer)).skip(at as int),
;

/// [`BytesMut::freeze`] keeps the bytes and makes them immutable.
pub assume_specification[ BytesMut::freeze ](buffer: BytesMut) -> (r: Bytes)
    ensures
        frozen(r) == buffered(buffer),
;

/// [`Bytes::from_static`] holds the bytes of the slice.
pub assume_specification[ Bytes::from_static ](bytes: &'static [u8]) -> (r: Bytes)
    ensures
        frozen(r) == bytes@,
;

/// `Bytes` dereferences to the slice of the bytes held.
pub assume_specification[ <Bytes as core::ops::Deref>::deref ](bytes: &Bytes) -> (r: &[u8])
    ensures
        r@ == frozen(*bytes),
;

/// Cloning `Bytes` gives a second handle to the same bytes.
pub assume_specification[ <Bytes as Clone>::clone ](bytes: &Bytes) -> (r: Bytes)
    ensures
        frozen(r) == frozen(*bytes),
;

/// `BytesMut` dereferences to the slice of the bytes held.
pub assume_specification[ <BytesMut as core::ops::Deref>::deref ](buffer: &BytesMut) -> (r: &[u8])
    ensures
        r@ == buffered(*buffer),
;

} // verus!
