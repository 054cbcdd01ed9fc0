//! Byte buffers: what `bytes::BytesMut` holds and how its methods change that.

use vstd::prelude::*;

verus! {

/// A growable byte buffer that gives bytes up at its front.
#[verifier::external_type_specification]
#[verifier::external_body]
pub struct ExBytesMut(bytes::BytesMut);

/// The bytes that a buffer holds.
pub uninterp spec fn contents(b: bytes::BytesMut) -> Seq<u8>;

/// `BytesMut::with_capacity` gives an empty buffer.
pub assume_specification[ bytes::BytesMut::with_capacity ](capacity: usize) -> (r: bytes::BytesMut)
    requires
        capacity <= isize::MAX,
    ensures
        contents(r) == Seq::<u8>::empty(),
;

/// `BytesMut::extend_from_slice` appends the bytes. An allocation holds `isize::MAX` bytes at most.
pub assume_specification[ bytes::BytesMut::extend_from_slice ](
    b: &mut bytes::BytesMut,
    extend: &[u8],
)
    requires
        contents(*old(b)).len() + extend@.len() <= isize::MAX,
    ensures
        contents(*final(b)) == contents(*old(b)) + extend@,
;

/// `BytesMut::len` counts the bytes.
pub assume_specification[ bytes::BytesMut::len ](b: &bytes::BytesMut) -> (r: usize)
    ensures
        r == contents(*b).len(),
;

/// `BytesMut::is_empty` tells whether there are none.
pub assume_specification[ bytes::BytesMut::is_empty ](b: &bytes::BytesMut) -> (r: bool)
    ensures
        r == (contents(*b).len() == 0),
;

/// `Buf::advance` of a `BytesMut` drops the first `n` bytes; it panics if there are fewer.
#[verifier::external_body]
pub(crate) fn advance(b: &mut bytes::BytesMut, n: usize)
    requires
        n <= contents(*old(b)).len(),
    ensures
        contents(*final(b)) == contents(*old(b)).skip(n as int),
{
    bytes::Buf::advance(b, n)
}

/// `Deref` of a `BytesMut` lends its bytes.
#[verifier::external_body]
pub(crate) fn as_slice(b: &bytes::BytesMut) -> (r: &[u8])
    ensures
        r@ == contents(*b),
{
    &b[..]
}

} // verus!
