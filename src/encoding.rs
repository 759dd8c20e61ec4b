//! Byte encodings and the identifiers derived from them.
//!
//! Every identifier is the BLAKE2b-256 digest of a preimage that starts with
//! the domain tag `modlpy/paych____`, followed by the components in their
//! SCALE encoding: 32-byte values as they are, `u32` in little-endian order,
//! and byte strings behind their compact length prefix.

use vstd::prelude::*;
use crate::types::{AccountId, HashId};

verus! {

/// BLAKE2b with a 256-bit output, as computed by the hashing host function.
pub uninterp spec fn blake2_256_of(data: Seq<u8>) -> Seq<u8>;

/// Relies on `sp_io::hashing::blake2_256`: the 32-byte BLAKE2b-256 digest of
/// `data`, which depends on the bytes alone.
#[verifier::external_body]
pub(crate) fn blake2_256(data: &Vec<u8>) -> (r: [u8; 32])
    ensures
        r@ == blake2_256_of(data@),
{
    sp_io::hashing::blake2_256(data.as_slice())
}

/// The domain tag `modlpy/paych____` mixed into every hash.
pub open spec fn domain_tag() -> Seq<u8> {
    seq![109u8, 111, 100, 108, 112, 121, 47, 112, 97, 121, 99, 104, 95, 95, 95, 95]
}

/// `v` as four little-endian bytes.
pub open spec fn u32_le(v: u32) -> Seq<u8> {
    seq![(v % 256) as u8, ((v / 256) % 256) as u8, ((v / 65536) % 256) as u8, (v / 16777216) as u8]
}

/// The SCALE compact encoding of `n`.
pub open spec fn compact_u32(n: u32) -> Seq<u8> {
    if n < 64 {
        seq![(n * 4) as u8]
    } else if n < 16384 {
        seq![((n * 4 + 1) % 256) as u8, ((n * 4 + 1) / 256) as u8]
    } else if n < 1073741824 {
        u32_le((n * 4 + 2) as u32)
    } else {
        seq![3u8] + u32_le(n)
    }
}

/// The preimage of the id of an Organization or a Service named `name` by `owner`.
pub open spec fn name_preimage(owner: Seq<u8>, name: Seq<u8>) -> Seq<u8>
    recommends
        name.len() <= u32::MAX,
{
    domain_tag() + owner + compact_u32(name.len() as u32) + name
}

/// The preimage of the id of the Channel of `owner` on a Service.
pub open spec fn channel_preimage(owner: Seq<u8>, organization: Seq<u8>, service: Seq<u8>) -> Seq<u8> {
    domain_tag() + owner + organization + service
}

/// The preimage of the digest that a payer signs to attest `counter` calls.
pub open spec fn claim_preimage(channel: Seq<u8>, version: u32, counter: u32) -> Seq<u8> {
    domain_tag() + channel + u32_le(version) + u32_le(counter)
}

pub open spec fn name_id(owner: Seq<u8>, name: Seq<u8>) -> Seq<u8> {
    blake2_256_of(name_preimage(owner, name))
}

pub open spec fn channel_id_of(owner: Seq<u8>, organization: Seq<u8>, service: Seq<u8>) -> Seq<u8> {
    blake2_256_of(channel_preimage(owner, organization, service))
}

/// The 32 bytes that the payer signs for a claim of `counter` calls.
pub open spec fn claim_message_of(channel: Seq<u8>, version: u32, counter: u32) -> Seq<u8> {
    blake2_256_of(claim_preimage(channel, version, counter))
}

/// The escrow account of a deployment: `modl`, the 8-byte pallet id, then zeros.
pub open spec fn escrow_account_of(pallet_id: Seq<u8>) -> Seq<u8> {
    seq![109u8, 111, 100, 108] + pallet_id + Seq::new(20, |i: int| 0u8)
}

fn push_bytes(out: &mut Vec<u8>, bytes: &[u8])
    ensures
        final(out)@ == old(out)@ + bytes@,
{
    let ghost start = out@;
    let mut i: usize = 0;
    while i < bytes.len()
        invariant
            0 <= i <= bytes@.len(),
            out@ == start + bytes@.subrange(0, i as int),
        decreases bytes@.len() - i,
    {
        out.push(bytes[i]);
        proof {
            assert(bytes@.subrange(0, i + 1) =~= bytes@.subrange(0, i as int).push(bytes@[i as int]));
        }
        i = i + 1;
    }
    assert(bytes@.subrange(0, i as int) =~= bytes@);
}

fn push_u32_le(out: &mut Vec<u8>, v: u32)
    ensures
        final(out)@ == old(out)@ + u32_le(v),
{
    out.push((v % 256) as u8);
    out.push(((v / 256) % 256) as u8);
    out.push(((v / 65536) % 256) as u8);
    out.push((v / 16777216) as u8);
    assert(out@ =~= old(out)@ + u32_le(v));
}

fn push_compact_u32(out: &mut Vec<u8>, n: u32)
    ensures
        final(out)@ == old(out)@ + compact_u32(n),
{
    if n < 64 {
        out.push((n * 4) as u8);
    } else if n < 16384 {
        let w: u32 = n * 4 + 1;
        out.push((w % 256) as u8);
        out.push((w / 256) as u8);
    } else if n < 1073741824 {
        push_u32_le(out, n * 4 + 2);
    } else {
        out.push(3u8);
        push_u32_le(out, n);
    }
    assert(out@ =~= old(out)@ + compact_u32(n));
}

fn push_tag(out: &mut Vec<u8>)
    ensures
        final(out)@ == old(out)@ + domain_tag(),
{
    let tag: [u8; 16] = [109, 111, 100, 108, 112, 121, 47, 112, 97, 121, 99, 104, 95, 95, 95, 95];
    push_bytes(out, tag.as_slice());
    assert(tag@ =~= domain_tag());
}

/// The bytes hashed into the id of `name` created by `owner`.
pub fn encode_name(owner: &AccountId, name: &Vec<u8>) -> (r: Vec<u8>)
    requires
        name@.len() <= u32::MAX,
    ensures
        r@ == name_preimage(owner@, name@),
{
    let mut out: Vec<u8> = Vec::new();
    push_tag(&mut out);
    push_bytes(&mut out, owner.as_slice());
    push_compact_u32(&mut out, name.len() as u32);
    push_bytes(&mut out, name.as_slice());
    out
}

/// The bytes hashed into the id of a Channel.
pub fn encode_channel(owner: &AccountId, organization: &HashId, service: &HashId) -> (r: Vec<u8>)
    ensures
        r@ == channel_preimage(owner@, organization@, service@),
{
    let mut out: Vec<u8> = Vec::new();
    push_tag(&mut out);
    push_bytes(&mut out, owner.as_slice());
    push_bytes(&mut out, organization.as_slice());
    push_bytes(&mut out, service.as_slice());
    out
}

/// The bytes hashed into the message of a claim.
pub fn encode_claim(channel: &HashId, version: u32, counter: u32) -> (r: Vec<u8>)
    ensures
        r@ == claim_preimage(channel@, version, counter),
{
    let mut out: Vec<u8> = Vec::new();
    push_tag(&mut out);
    push_bytes(&mut out, channel.as_slice());
    push_u32_le(&mut out, version);
    push_u32_le(&mut out, counter);
    out
}

/// The message that the payer signs to attest `counter` calls on a Channel
/// at a Service version.
pub fn claim_message(channel: &HashId, version: u32, counter: u32) -> (r: Vec<u8>)
    ensures
        r@ == claim_message_of(channel@, version, counter),
{
    let digest = blake2_256(&encode_claim(channel, version, counter));
    let mut out: Vec<u8> = Vec::new();
    push_bytes(&mut out, digest.as_slice());
    assert(out@ =~= digest@);
    out
}

/// The escrow account derived from `pallet_id`.
pub fn escrow_account(pallet_id: &[u8; 8]) -> (r: AccountId)
    ensures
        r@ == escrow_account_of(pallet_id@),
{
    let mut r: [u8; 32] = [0u8; 32];
    r.set(0, 109);
    r.set(1, 111);
    r.set(2, 100);
    r.set(3, 108);
    let mut i: usize = 0;
    while i < 8
        invariant
            0 <= i <= 8,
            r@.len() == 32,
            r@.subrange(0, 4) =~= seq![109u8, 111, 100, 108],
            forall|j: int| 0 <= j < i ==> r@[4 + j] == pallet_id@[j],
            forall|j: int| 12 <= j < 32 ==> r@[j] == 0u8,
        decreases 8 - i,
    {
        r.set(4 + i, pallet_id[i]);
        i = i + 1;
    }
    assert(r@ =~= escrow_account_of(pallet_id@));
    r
}

} // verus!
