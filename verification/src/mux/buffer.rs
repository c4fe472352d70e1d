//! The byte buffer that the frame codec reads from and writes to.
//!
//! The buffer is `bytes::BytesMut`. Verus does not look inside it, so its
//! contents are given a name, [`buffered`], and each operation that the codec
//! uses is stated over that name. None of these statements is proved here: they
//! say what the `bytes` crate does.

use bytes::Buf;
use bytes::BufMut;
use bytes::BytesMut;
use vstd::prelude::*;

verus! {

#[verifier::external_type_specification]
#[verifier::external_body]
pub struct ExBytesMut(bytes::BytesMut);

/// The bytes that a buffer holds, front first.
pub uninterp spec fn buffered(buf: BytesMut) -> Seq<u8>;

/// `BytesMut::len`: the number of bytes held.
pub assume_specification[ BytesMut::len ](buf: &BytesMut) -> (n: usize)
    ensures
        n == buffered(*buf).len(),
;

/// `BytesMut::split_to`: the first `at` bytes leave the buffer and are
/// returned as a buffer of their own; the rest stay. The outside function
/// panics when `at` is past the end, which `requires` rules out.
pub assume_specification[ BytesMut::split_to ](buf: &mut BytesMut, at: usize) -> (head: BytesMut)
    requires
        at <= buffered(*old(buf)).len(),
    ensures
        buffered(head) == buffered(*old(buf)).take(at as int),
        buffered(*final(buf)) == buffered(*old(buf)).skip(at as int),
;

/// Indexing a `BytesMut` through its `Deref` to a slice: the byte at `i`.
#[verifier::external_body]
pub(crate) fn byte_at(buf: &BytesMut, i: usize) -> (b: u8)
    requires
        i < buffered(*buf).len(),
    ensures
        b == buffered(*buf)[i as int],
{
    buf[i]
}

/// `Buf::advance` on a `BytesMut`: the first `cnt` bytes are dropped. The
/// outside function panics when `cnt` is past the end, which `requires` rules
/// out.
#[verifier::external_body]
pub(crate) fn advance(buf: &mut BytesMut, cnt: usize)
    requires
        cnt <= buffered(*old(buf)).len(),
    ensures
        buffered(*final(buf)) == buffered(*old(buf)).skip(cnt as int),
{
    buf.advance(cnt);
}

/// `<[u8]>::to_vec` on the slice of a `BytesMut`: a copy of the bytes held.
#[verifier::external_body]
pub(crate) fn to_vec(buf: &BytesMut) -> (v: Vec<u8>)
    ensures
        v@ == buffered(*buf),
{
    buf.to_vec()
}

/// `BufMut::put_u8` on a `BytesMut`: one byte is appended. The buffer grows as
/// needed, so the call always has room; like the growth of a `Vec`, it is taken
/// to succeed.
#[verifier::external_body]
pub(crate) fn put_u8(buf: &mut BytesMut, b: u8)
    ensures
        buffered(*final(buf)) == buffered(*old(buf)).push(b),
{
    buf.put_u8(b);
}

/// `BufMut::put_slice` on a `BytesMut`: the bytes of `src` are appended in
/// order. The buffer grows as needed, so the call always has room; like the
/// growth of a `Vec`, it is taken to succeed.
#[verifier::external_body]
pub(crate) fn put_slice(buf: &mut BytesMut, src: &[u8])
    ensures
        buffered(*final(buf)) == buffered(*old(buf)) + src@,
{
    buf.put_slice(src);
}

} // verus!
