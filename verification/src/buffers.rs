//! Shared byte buffers: `bytes::Bytes` as sequences of bytes, and the UTF-8
//! text in them.
use bytes::Bytes;
use vstd::prelude::*;
use vstd::utf8::{encode_utf8, valid_utf8};

verus! {

#[verifier::external_type_specification]
#[verifier::external_body]
pub struct ExBytes(bytes::Bytes);

/// The bytes that a buffer holds.
pub uninterp spec fn content(b: bytes::Bytes) -> Seq<u8>;

/// The contents of a list of buffers.
pub open spec fn contents(list: Seq<Bytes>) -> Seq<Seq<u8>> {
    list.map_values(|b: Bytes| content(b))
}

/// All the bytes of a list of buffers, in order.
pub open spec fn joined_bytes(list: Seq<Seq<u8>>) -> Seq<u8>
    decreases list.len(),
{
    if list.len() == 0 {
        Seq::empty()
    } else {
        joined_bytes(list.drop_last()) + list.last()
    }
}

/// `bytes::Bytes` dereferenced: its content as a slice.
#[verifier::external_body]
pub(crate) fn slice_of(b: &Bytes) -> (r: &[u8])
    ensures
        r@ == content(*b),
{
    &b[..]
}

/// `bytes::Bytes::clone`: a second handle on the same content.
#[verifier::external_body]
pub(crate) fn share(b: &Bytes) -> (r: Bytes)
    ensures
        content(r) == content(*b),
{
    b.clone()
}

/// `bytes::Bytes::from` for a `String`: the UTF-8 bytes of the text.
#[verifier::external_body]
pub(crate) fn buffer_of(s: String) -> (r: Bytes)
    ensures
        content(r) == encode_utf8(s@),
{
    Bytes::from(s)
}

/// `std::str::from_utf8`: the text whose UTF-8 encoding the bytes are;
/// `None` where they are none.
#[verifier::external_body]
pub(crate) fn text_in(bytes: &[u8]) -> (r: Option<&str>)
    ensures
        match r {
            Some(s) => encode_utf8(s@) == bytes@,
            None => !valid_utf8(bytes@),
        },
{
    std::str::from_utf8(bytes).ok()
}

}
