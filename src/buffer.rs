//! The byte buffers of the reader and writer: `bytes::BytesMut`, behind one
//! trusted item per method used.
use vstd::prelude::*;

use bytes::{Buf, BytesMut};

verus! {

#[verifier::external_type_specification]
#[verifier::external_body]
pub struct ExBytesMut(BytesMut);

/// The bytes a buffer holds, front to back.
pub uninterp spec fn buffered(b: BytesMut) -> Seq<u8>;

/// Relies on `BytesMut::with_capacity`: an empty buffer.
#[verifier::external_body]
pub(crate) fn buf_with_capacity(capacity: usize) -> (r: BytesMut)
    ensures
        buffered(r) == Seq::<u8>::empty(),
{
    BytesMut::with_capacity(capacity)
}

/// Relies on `BytesMut::len`: the number of bytes held.
#[verifier::external_body]
pub(crate) fn buf_len(b: &BytesMut) -> (r: usize)
    ensures
        r == buffered(*b).len(),
{
    b.len()
}

/// Relies on `BytesMut::extend_from_slice`: appends the bytes of `s`.
#[verifier::external_body]
pub(crate) fn buf_extend(b: &mut BytesMut, s: &[u8])
    ensures
        buffered(*final(b)) == buffered(*old(b)) + s@,
{
    b.extend_from_slice(s)
}

/// Relies on `BytesMut::split_to`: takes the first `at` bytes off the front
/// and returns them. It panics for `at` past the end.
#[verifier::external_body]
pub(crate) fn buf_split_to(b: &mut BytesMut, at: usize) -> (r: BytesMut)
    requires
        at <= buffered(*old(b)).len(),
    ensures
        buffered(r) == buffered(*old(b)).subrange(0, at as int),
        buffered(*final(b)) == buffered(*old(b)).subrange(at as int, buffered(*old(b)).len() as int),
{
    b.split_to(at)
}

/// Relies on `BytesMut`'s `Deref`: the bytes held, as a slice.
#[verifier::external_body]
pub(crate) fn buf_as_slice(b: &BytesMut) -> (r: &[u8])
    ensures
        r@ == buffered(*b),
{
    &b[..]
}

/// Relies on `BytesMut::clear`: no bytes are left.
#[verifier::external_body]
pub(crate) fn buf_clear(b: &mut BytesMut)
    ensures
        buffered(*final(b)) == Seq::<u8>::empty(),
{
    b.clear()
}

/// Relies on `BytesMut::resize`: truncates to `new_len` bytes, or pads with
/// `value` up to it.
#[verifier::external_body]
pub(crate) fn buf_resize(b: &mut BytesMut, new_len: usize, value: u8)
    ensures
        buffered(*final(b)) == if new_len <= buffered(*old(b)).len() {
            buffered(*old(b)).subrange(0, new_len as int)
        } else {
            buffered(*old(b)) + Seq::new(
                (new_len - buffered(*old(b)).len()) as nat,
                |_i: int| value,
            )
        },
{
    b.resize(new_len, value)
}

/// Relies on `Buf::copy_to_slice` for `BytesMut`, handed `dst[start..start + n]`:
/// it moves the first `n` bytes there and drops them from the buffer. It
/// panics where fewer than `n` bytes are held.
#[verifier::external_body]
pub(crate) fn buf_copy_to_slice(b: &mut BytesMut, dst: &mut [u8], start: usize, n: usize)
    requires
        start + n <= old(dst)@.len(),
        n <= buffered(*old(b)).len(),
    ensures
        final(dst)@ == old(dst)@.subrange(0, start as int) + buffered(*old(b)).subrange(0, n as int)
            + old(dst)@.subrange(start + n, old(dst)@.len() as int),
        buffered(*final(b)) == buffered(*old(b)).subrange(n as int, buffered(*old(b)).len() as int),
{
    b.copy_to_slice(&mut dst[start..start + n])
}

/// A buffer of `len` zero bytes, the shape `Decompressor::decompress` wants
/// for its output.
pub fn zeroed_buffer(len: usize) -> (r: BytesMut)
    ensures
        buffered(r) == Seq::new(len as nat, |_i: int| 0u8),
{
    let mut b = buf_with_capacity(len);
    buf_resize(&mut b, len, 0u8);
    assert(buffered(b) =~= Seq::new(len as nat, |_i: int| 0u8));
    b
}

} // verus!
