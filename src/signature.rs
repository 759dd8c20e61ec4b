//! Signature checks on claims.

use vstd::prelude::*;
use crate::types::{AccountId, Signature};
use sp_runtime::traits::Verify;

verus! {

/// Whether `sig` is a valid signature of `message` by the account `signer`.
pub uninterp spec fn multi_signature_verifies(sig: Signature, message: Seq<u8>, signer: Seq<u8>) -> bool;

/// Relies on `<sp_runtime::MultiSignature as Verify>::verify`: true exactly
/// when `sig` verifies `message` for the account `signer`, a function of the
/// three values alone (sr25519 with the key `signer`; ECDSA by recovering the
/// key and comparing its BLAKE2b-256 digest with `signer`).
#[verifier::external_body]
pub(crate) fn verify_multi_signature(sig: &Signature, message: &Vec<u8>, signer: &AccountId) -> (r: bool)
    ensures
        r == multi_signature_verifies(*sig, message@, signer@),
{
    let multi = match sig {
        Signature::Sr25519(b) => sp_runtime::MultiSignature::Sr25519(sp_core::sr25519::Signature::from_raw(*b)),
        Signature::Ecdsa(b) => sp_runtime::MultiSignature::Ecdsa(sp_core::ecdsa::Signature::from_raw(*b)),
    };
    multi.verify(message.as_slice(), &sp_core::crypto::AccountId32::new(*signer))
}

/// `<Bytes>`, the opening tag that signing front-ends wrap around a payload.
pub open spec fn bytes_open() -> Seq<u8> {
    seq![60u8, 66, 121, 116, 101, 115, 62]
}

/// `</Bytes>`, the closing tag.
pub open spec fn bytes_close() -> Seq<u8> {
    seq![60u8, 47, 66, 121, 116, 101, 115, 62]
}

/// `message` as a front-end presents it for signing.
pub open spec fn wrapped(message: Seq<u8>) -> Seq<u8> {
    bytes_open() + message + bytes_close()
}

/// A signature is accepted over the raw message or over its wrapped form.
pub open spec fn signature_accepted(sig: Signature, message: Seq<u8>, signer: Seq<u8>) -> bool {
    multi_signature_verifies(sig, message, signer) || multi_signature_verifies(sig, wrapped(message), signer)
}

/// Wraps `message` in `<Bytes>` and `</Bytes>`.
pub fn wrap_bytes(message: &Vec<u8>) -> (r: Vec<u8>)
    ensures
        r@ == wrapped(message@),
{
    let open: [u8; 7] = [60, 66, 121, 116, 101, 115, 62];
    let close: [u8; 8] = [60, 47, 66, 121, 116, 101, 115, 62];
    let mut out: Vec<u8> = Vec::new();
    let mut i: usize = 0;
    while i < 7
        invariant
            0 <= i <= 7,
            out@ =~= open@.subrange(0, i as int),
        decreases 7 - i,
    {
        out.push(open[i]);
        i = i + 1;
    }
    let mut i: usize = 0;
    while i < message.len()
        invariant
            0 <= i <= message@.len(),
            out@ =~= open@ + message@.subrange(0, i as int),
        decreases message@.len() - i,
    {
        out.push(message[i]);
        i = i + 1;
    }
    let mut i: usize = 0;
    while i < 8
        invariant
            0 <= i <= 8,
            out@ =~= open@ + message@ + close@.subrange(0, i as int),
        decreases 8 - i,
    {
        out.push(close[i]);
        i = i + 1;
    }
    assert(open@ =~= bytes_open());
    assert(close@ =~= bytes_close());
    out
}

} // verus!
