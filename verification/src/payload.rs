//! Reference-counted byte strings of the `bytes` crate.

use bytes::Bytes;
use vstd::prelude::*;

verus! {

/// `bytes::Bytes`: an immutable run of bytes behind a shared handle.
#[verifier::external_type_specification]
#[verifier::external_body]
pub struct ExBytes(Bytes);

/// The bytes that a `Bytes` handle gives access to.
pub uninterp spec fn held(b: Bytes) -> Seq<u8>;

/// `Bytes::copy_from_slice` makes a handle to a copy of `data`.
pub assume_specification[ Bytes::copy_from_slice ](data: &[u8]) -> (b: Bytes)
    ensures
        held(b) == data@,
;

/// `Bytes::from` on a vector takes the vector over: the handle holds its items.
#[verifier::external_body]
pub(crate) fn from_vec(v: Vec<u8>) -> (b: Bytes)
    ensures
        held(b) == v@,
{
    Bytes::from(v)
}

/// `<Bytes as AsRef<[u8]>>::as_ref` lends all bytes behind the handle.
#[verifier::external_body]
pub(crate) fn as_slice(b: &Bytes) -> (s: &[u8])
    ensures
        s@ == held(*b),
{
    b.as_ref()
}

} // verus!
