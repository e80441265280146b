//! Fixed-capacity response buffer.
//!
//! Responses are assembled in an `arrayvec::ArrayVec` with the same
//! capacity the device build uses; the crate's methods are trusted with
//! contracts read off their source, and everything built on top is
//! verified.
use vstd::prelude::*;

verus! {

/// Capacity of one response buffer, in bytes.
pub const RESPONSE_CAP: usize = 260;

#[verifier::external_type_specification]
#[verifier::external_body]
#[verifier::reject_recursive_types(T)]
pub struct ExArrayVec<T, const CAP: usize>(arrayvec::ArrayVec<T, CAP>);

/// The bytes a response buffer currently holds, in order.
pub uninterp spec fn av_bytes(v: arrayvec::ArrayVec<u8, 260>) -> Seq<u8>;

/// Relies on arrayvec's ArrayVec::new: a fresh vector is empty.
#[verifier::external_body]
fn av_new() -> (r: arrayvec::ArrayVec<u8, 260>)
    ensures
        av_bytes(r) == Seq::<u8>::empty(),
{
    arrayvec::ArrayVec::new()
}

/// Relies on arrayvec's ArrayVec::try_push: below capacity the element
/// is appended and the call succeeds.
#[verifier::external_body]
fn av_push(v: &mut arrayvec::ArrayVec<u8, 260>, b: u8)
    requires
        av_bytes(*old(v)).len() < RESPONSE_CAP,
    ensures
        av_bytes(*final(v)) == av_bytes(*old(v)).push(b),
{
    let _ = v.try_push(b);
}

/// Relies on arrayvec's ArrayVec::try_extend_from_slice: when the
/// remaining capacity suffices the whole slice is appended.
#[verifier::external_body]
fn av_extend(v: &mut arrayvec::ArrayVec<u8, 260>, s: &[u8])
    requires
        av_bytes(*old(v)).len() + s@.len() <= RESPONSE_CAP,
    ensures
        av_bytes(*final(v)) == av_bytes(*old(v)) + s@,
{
    let _ = v.try_extend_from_slice(s);
}

/// Relies on arrayvec's ArrayVec::as_slice: a view of exactly the
/// elements pushed so far, in order.
#[verifier::external_body]
fn av_to_vec(v: &arrayvec::ArrayVec<u8, 260>) -> (r: Vec<u8>)
    ensures
        r@ == av_bytes(*v),
{
    v.as_slice().to_vec()
}

/// The address response payload: the public key and the address, each
/// prefixed by its one-byte length.
pub open spec fn address_payload(pk: Seq<u8>, addr: Seq<u8>) -> Seq<u8> {
    seq![pk.len() as u8] + pk + seq![addr.len() as u8] + addr
}

/// Assemble the response to an address query. Fails (with no partial
/// output) exactly when the two length-prefixed parts cannot fit the
/// response buffer or a length does not fit its prefix byte.
pub fn address_response(pk: &Vec<u8>, addr: &Vec<u8>) -> (r: Option<Vec<u8>>)
    ensures
        match r {
            Some(out) => pk@.len() <= 255 && addr@.len() <= 255 && 2 + pk@.len() + addr@.len()
                <= RESPONSE_CAP && out@ == address_payload(pk@, addr@),
            None => pk@.len() > 255 || addr@.len() > 255 || 2 + pk@.len() + addr@.len()
                > RESPONSE_CAP,
        },
{
    if pk.len() > 255 || addr.len() > 255 || pk.len() > RESPONSE_CAP - 2 || addr.len()
        > RESPONSE_CAP - 2 - pk.len() {
        return None;
    }
    let mut buf = av_new();
    av_push(&mut buf, pk.len() as u8);
    av_extend(&mut buf, pk.as_slice());
    av_push(&mut buf, addr.len() as u8);
    av_extend(&mut buf, addr.as_slice());
    let out = av_to_vec(&buf);
    proof {
        assert(out@ =~= address_payload(pk@, addr@));
    }
    Some(out)
}

} // verus!
