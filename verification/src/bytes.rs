//! Uniform byte views over command and data payloads.

use vstd::prelude::*;

verus! {

/// A value that exposes its payload as a contiguous byte view, so that the
/// transport helpers accept a single opcode byte, an owned buffer, a
/// borrowed slice or a fixed-size table without duplicating call sites.
pub trait Bytes {
    /// The byte sequence this value stands for.
    spec fn byte_view(&self) -> Seq<u8>;

    /// Exposes the payload as an immutable byte slice.
    fn bytes(&self) -> (r: &[u8])
        ensures
            r@ == self.byte_view(),
    ;
}

/// Relies on `std::slice::from_ref`: returns a slice of length one holding
/// exactly the referenced byte.
#[verifier::external_body]
fn single_byte_slice(b: &u8) -> (r: &[u8])
    ensures
        r@ == seq![*b],
{
    std::slice::from_ref(b)
}

impl Bytes for u8 {
    open spec fn byte_view(&self) -> Seq<u8> {
        seq![*self]
    }

    fn bytes(&self) -> (r: &[u8]) {
        single_byte_slice(self)
    }
}

impl Bytes for Vec<u8> {
    open spec fn byte_view(&self) -> Seq<u8> {
        self@
    }

    fn bytes(&self) -> (r: &[u8]) {
        self.as_slice()
    }
}

impl Bytes for &[u8] {
    open spec fn byte_view(&self) -> Seq<u8> {
        self@
    }

    fn bytes(&self) -> (r: &[u8]) {
        *self
    }
}

impl Bytes for &[u8; 1280] {
    open spec fn byte_view(&self) -> Seq<u8> {
        self@
    }

    fn bytes(&self) -> (r: &[u8]) {
        self.as_slice()
    }
}

} // verus!
