use parity_scale_codec::Encode;
use payment_channels::encoding::claim_message;
use payment_channels::pallet::Pallet;
use payment_channels::settlement::{claim_funds, decide_claim, remaining_funds, saturating_mul, ClaimStep};
use payment_channels::types::{
    AccountId, Channel, ChannelSpecs, Config, Error, Event, HashId, LedgerOp, ServiceSpecs, Signature,
};
use sp_core::Pair;
use sp_io::hashing::blake2_256;

const MILLICENTS: u128 = 1_000_000_000;
const UNIT: u128 = 1_000 * MILLICENTS;
const START: u64 = 1;

fn config() -> Config {
    Config { pallet_id: *b"py/paych", organization_deposit: UNIT, service_deposit: 10 * MILLICENTS }
}

fn account(s: &str) -> (sp_core::sr25519::Pair, AccountId) {
    let pair = sp_core::sr25519::Pair::from_string(s, None).unwrap();
    (pair.clone(), pair.public().0)
}

fn sign(pair: &sp_core::sr25519::Pair, channel_id: HashId, version: u32, counter: u32) -> Signature {
    let message = (b"modlpy/paych____", channel_id, version, counter).using_encoded(blake2_256);
    Signature::Sr25519(pair.sign(&message).0)
}

struct Setup {
    pallet: Pallet,
    alice: AccountId,
    bob: AccountId,
    pair_bob: sp_core::sr25519::Pair,
    service: ServiceSpecs,
    channel: ChannelSpecs,
}

/// "Org" of Alice, "Svc" of Alice with price 1, minimum 10 calls, threshold
/// 15, and Bob's Channel for 100 calls opened at height 1.
fn setup() -> Setup {
    let mut pallet = Pallet::new(config());
    let (_, alice) = account("//Alice");
    let (pair_bob, bob) = account("//Bob");
    let org_name = b"Org".to_vec();
    assert!(pallet.create_organization(alice, org_name.clone(), None, vec![]).is_ok());
    let org_id = Pallet::hash_name(alice, &org_name);
    let svc_name = b"Svc".to_vec();
    assert!(pallet.create_service(alice, (alice, org_id), svc_name.clone(), 1, 10, 15, 3, vec![]).is_ok());
    let svc_id = Pallet::hash_name(alice, &svc_name);
    let service = ((alice, org_id), svc_id);
    let d = pallet.open_channel(bob, service, 100, START).unwrap();
    let channel_id = Pallet::hash_channel_id(bob, org_id, svc_id);
    assert_eq!(d.ops, vec![LedgerOp::Transfer { from: bob, to: pallet.account_id(), amount: 100 }]);
    assert_eq!(
        d.event,
        Event::ChannelCreated {
            id: channel_id,
            owner: bob,
            organization: org_id,
            service: svc_id,
            version: 1,
            calls: 100,
            funds: 100,
            expiration: 16,
        }
    );
    Setup { pallet, alice, bob, pair_bob, service, channel: (bob, channel_id) }
}

fn escrowed(p: &Pallet) -> u128 {
    p.channels.iter().map(|c| remaining_funds(c)).sum()
}

fn inflow(p: &Pallet, ops: &[LedgerOp]) -> i128 {
    let e = p.account_id();
    ops.iter()
        .map(|op| match *op {
            LedgerOp::Transfer { from, to, amount } => {
                (if to == e { amount as i128 } else { 0 }) - (if from == e { amount as i128 } else { 0 })
            }
            _ => 0,
        })
        .sum()
}

#[test]
fn scenario_a_full_claim_then_channel_deleted() {
    let mut s = setup();
    let sig = sign(&s.pair_bob, s.channel.1, 1, 100);
    let d = s.pallet.claim_channel_funds(s.alice, s.channel, Some(100), Some(sig), START).unwrap();
    assert_eq!(d.ops, vec![LedgerOp::Transfer { from: s.pallet.account_id(), to: s.alice, amount: 100 }]);
    assert_eq!(d.event, Event::ChannelClaimed { id: s.channel.1, by: s.alice, counter: 100, funds: 100 });
    assert_eq!(s.pallet.channels(&s.bob, &s.channel.1).unwrap().counter, 100);
    let d = s.pallet.claim_channel_funds(s.alice, s.channel, None, None, START).unwrap();
    assert!(d.ops.is_empty());
    assert_eq!(d.event, Event::ChannelDeleted { id: s.channel.1, by: s.alice, funds: 0 });
    assert!(s.pallet.channels(&s.bob, &s.channel.1).is_none());
    let svc = s.pallet.services(&(s.service.0).1, &s.service.1).unwrap();
    assert_eq!(svc.channels, 0);
}

#[test]
fn scenario_b_owner_cannot_close_early() {
    let mut s = setup();
    assert_eq!(s.pallet.claim_channel_funds(s.bob, s.channel, None, None, START).err(), Some(Error::ClaimNotExpired));
    assert_eq!(s.pallet.claim_channel_funds(s.bob, s.channel, Some(0), None, 15).err(), Some(Error::ClaimNotExpired));
}

#[test]
fn scenario_c_expired_channel_refunded() {
    let mut s = setup();
    let d = s.pallet.claim_channel_funds(s.bob, s.channel, None, None, 16).unwrap();
    assert_eq!(d.ops, vec![LedgerOp::Transfer { from: s.pallet.account_id(), to: s.bob, amount: 100 }]);
    assert_eq!(d.event, Event::ChannelExpiredClaimed { id: s.channel.1, by: s.bob, funds: 100 });
    assert!(s.pallet.channels(&s.bob, &s.channel.1).is_none());
}

#[test]
fn scenario_d_replayed_counter_rejected() {
    let mut s = setup();
    let sig = sign(&s.pair_bob, s.channel.1, 1, 40);
    let d = s.pallet.claim_channel_funds(s.alice, s.channel, Some(40), Some(sig), START).unwrap();
    assert_eq!(d.event, Event::ChannelClaimed { id: s.channel.1, by: s.alice, counter: 40, funds: 40 });
    assert_eq!(s.pallet.claim_channel_funds(s.alice, s.channel, Some(40), Some(sig), START).err(), Some(Error::ClaimLowCounter));
    let low = sign(&s.pair_bob, s.channel.1, 1, 30);
    assert_eq!(s.pallet.claim_channel_funds(s.alice, s.channel, Some(30), Some(low), START).err(), Some(Error::ClaimLowCounter));
}

#[test]
fn counters_rise_and_pay_the_difference() {
    let mut s = setup();
    let mut paid = 0u128;
    for k in [10u32, 25, 60] {
        let sig = sign(&s.pair_bob, s.channel.1, 1, k);
        let d = s.pallet.claim_channel_funds(s.alice, s.channel, Some(k), Some(sig), START).unwrap();
        match d.event {
            Event::ChannelClaimed { counter, funds, .. } => {
                assert_eq!(counter, k);
                paid += funds;
            }
            e => panic!("unexpected event {:?}", e),
        }
    }
    assert_eq!(paid, 60);
    assert_eq!(escrowed(&s.pallet), 40);
}

#[test]
fn version_update_lets_owner_close() {
    let mut s = setup();
    let d = s.pallet.update_service(s.alice, s.service, None, Some(2), None, None, None, None).unwrap();
    assert_eq!(
        d.event,
        Event::ServiceUpdated { id: s.service.1, owner: s.alice, organization: (s.service.0).1, version: 2 }
    );
    let d = s.pallet.claim_channel_funds(s.bob, s.channel, Some(5), None, START).unwrap();
    assert_eq!(d.event, Event::ChannelExpiredClaimed { id: s.channel.1, by: s.bob, funds: 100 });
}

#[test]
fn signature_over_old_version_rejected_after_update() {
    let mut s = setup();
    assert!(s.pallet.update_service(s.alice, s.service, None, None, None, None, None, None).is_ok());
    let sig = sign(&s.pair_bob, s.channel.1, 1, 50);
    assert_eq!(
        s.pallet.claim_channel_funds(s.alice, s.channel, Some(50), Some(sig), START).err(),
        Some(Error::ClaimInvalidSignature)
    );
    let sig = sign(&s.pair_bob, s.channel.1, 2, 50);
    assert!(s.pallet.claim_channel_funds(s.alice, s.channel, Some(50), Some(sig), START).is_ok());
}

#[test]
fn signature_raw_and_wrapped_accepted_other_rejected() {
    let (pair, who) = account("//Bob");
    let message = vec![7u8; 32];
    let raw = Signature::Sr25519(pair.sign(&message).0);
    assert_eq!(Pallet::validate_signature(&message, &raw, &who), Ok(()));
    let mut wrapped = b"<Bytes>".to_vec();
    wrapped.extend(&message);
    wrapped.extend(b"</Bytes>");
    let w = Signature::Sr25519(pair.sign(&wrapped).0);
    assert_eq!(Pallet::validate_signature(&message, &w, &who), Ok(()));
    let other = Signature::Sr25519(pair.sign(b"something else").0);
    assert_eq!(Pallet::validate_signature(&message, &other, &who), Err(Error::ClaimInvalidSignature));
    let (_, alice) = account("//Alice");
    assert_eq!(Pallet::validate_signature(&message, &raw, &alice), Err(Error::ClaimInvalidSignature));
}

#[test]
fn claim_without_signature_rejected() {
    let mut s = setup();
    assert_eq!(s.pallet.claim_channel_funds(s.alice, s.channel, Some(10), None, START).err(), Some(Error::ClaimInvalidSignature));
}

#[test]
fn claim_beyond_calls_is_capped() {
    let mut s = setup();
    let sig = sign(&s.pair_bob, s.channel.1, 1, 250);
    let d = s.pallet.claim_channel_funds(s.alice, s.channel, Some(250), Some(sig), START).unwrap();
    assert_eq!(d.event, Event::ChannelClaimed { id: s.channel.1, by: s.alice, counter: 250, funds: 100 });
    assert_eq!(escrowed(&s.pallet), 0);
}

#[test]
fn claim_beyond_calls_after_partial_claim_not_enough_funds() {
    let mut s = setup();
    let sig = sign(&s.pair_bob, s.channel.1, 1, 50);
    assert!(s.pallet.claim_channel_funds(s.alice, s.channel, Some(50), Some(sig), START).is_ok());
    let sig = sign(&s.pair_bob, s.channel.1, 1, 150);
    assert_eq!(
        s.pallet.claim_channel_funds(s.alice, s.channel, Some(150), Some(sig), START).err(),
        Some(Error::ClaimNotEnoughFunds)
    );
}

#[test]
fn escrow_follows_the_channels() {
    let mut s = setup();
    assert_eq!(escrowed(&s.pallet), 100);
    let before = escrowed(&s.pallet) as i128;
    let sig = sign(&s.pair_bob, s.channel.1, 1, 30);
    let d = s.pallet.claim_channel_funds(s.alice, s.channel, Some(30), Some(sig), START).unwrap();
    assert_eq!(escrowed(&s.pallet) as i128, before + inflow(&s.pallet, &d.ops));
    let before = escrowed(&s.pallet) as i128;
    let d = s.pallet.update_channel(s.bob, s.channel, Some(20), START).unwrap();
    assert_eq!(
        d.ops,
        vec![
            LedgerOp::Transfer { from: s.pallet.account_id(), to: s.bob, amount: 70 },
            LedgerOp::Transfer { from: s.bob, to: s.pallet.account_id(), amount: 20 },
        ]
    );
    assert_eq!(escrowed(&s.pallet) as i128, before + inflow(&s.pallet, &d.ops));
    let c = s.pallet.channels(&s.bob, &s.channel.1).unwrap();
    assert_eq!((c.counter, c.calls, c.price, c.expiration), (0, 20, 1, 16));
    let before = escrowed(&s.pallet) as i128;
    let d = s.pallet.claim_channel_funds(s.bob, s.channel, None, None, 16).unwrap();
    assert_eq!(escrowed(&s.pallet) as i128, before + inflow(&s.pallet, &d.ops));
    assert_eq!(escrowed(&s.pallet), 0);
}

#[test]
fn update_channel_uses_current_terms_and_default_calls() {
    let mut s = setup();
    assert!(s.pallet.update_service(s.alice, s.service, None, Some(3), Some(12), Some(40), None, None).is_ok());
    let d = s.pallet.update_channel(s.bob, s.channel, None, 5).unwrap();
    assert_eq!(
        d.event,
        Event::ChannelUpdated {
            id: s.channel.1,
            owner: s.bob,
            organization: (s.service.0).1,
            service: s.service.1,
            version: 2,
            calls: 12,
            funds: 36,
            expiration: 45,
        }
    );
    assert_eq!(s.pallet.update_channel(s.bob, s.channel, Some(11), 5).err(), Some(Error::ChannelLowNumberOfCalls));
    assert_eq!(s.pallet.update_channel(s.alice, s.channel, None, 5).err(), Some(Error::ChannelNotOwner));
    assert_eq!(s.pallet.update_channel(s.alice, (s.alice, s.channel.1), None, 5).err(), Some(Error::ChannelNotFound));
}

#[test]
fn ids_are_deterministic() {
    let (_, alice) = account("//Alice");
    let (_, bob) = account("//Bob");
    let name = b"My Organization".to_vec();
    assert_eq!(Pallet::hash_name(alice, &name), Pallet::hash_name(alice, &name));
    assert_ne!(Pallet::hash_name(alice, &name), Pallet::hash_name(bob, &name));
    let o = Pallet::hash_name(alice, &name);
    let v = Pallet::hash_name(alice, &b"My Service".to_vec());
    assert_eq!(Pallet::hash_channel_id(bob, o, v), Pallet::hash_channel_id(bob, o, v));
    assert_ne!(Pallet::hash_channel_id(bob, o, v), Pallet::hash_channel_id(alice, o, v));
}

#[test]
fn ids_match_scale_encoding() {
    let (_, alice) = account("//Alice");
    for len in [0usize, 15, 63, 64, 300, 16384] {
        let name = vec![b'x'; len];
        let expected = (b"modlpy/paych____", alice, name.clone()).using_encoded(blake2_256);
        assert_eq!(Pallet::hash_name(alice, &name), expected);
    }
    let o = [1u8; 32];
    let v = [2u8; 32];
    let expected = (b"modlpy/paych____", alice, o, v).using_encoded(blake2_256);
    assert_eq!(Pallet::hash_channel_id(alice, o, v), expected);
    let expected = (b"modlpy/paych____", o, 7u32, 300u32).using_encoded(blake2_256);
    assert_eq!(claim_message(&o, 7, 300), expected.to_vec());
}

#[test]
fn escrow_account_is_derived_from_pallet_id() {
    let p = Pallet::new(config());
    let mut expected = [0u8; 32];
    expected[..4].copy_from_slice(b"modl");
    expected[4..12].copy_from_slice(b"py/paych");
    assert_eq!(p.account_id(), expected);
}

#[test]
fn duplicate_creations_fail() {
    let mut s = setup();
    assert_eq!(s.pallet.create_organization(s.alice, b"Org".to_vec(), None, vec![]).err(), Some(Error::OrganizationExists));
    let org = s.service.0;
    assert_eq!(
        s.pallet.create_service(s.alice, org, b"Svc".to_vec(), 1, 10, 15, 3, vec![]).err(),
        Some(Error::ServiceExists)
    );
    assert_eq!(s.pallet.open_channel(s.bob, s.service, 100, START).err(), Some(Error::ChannelExists));
}

#[test]
fn service_errors() {
    let mut s = setup();
    let (_, charlie) = account("//Charlie");
    let org = s.service.0;
    assert_eq!(
        s.pallet.create_service(charlie, org, b"Other".to_vec(), 1, 10, 15, 3, vec![]).err(),
        Some(Error::ServiceNotOrgMember)
    );
    assert_eq!(
        s.pallet.create_service(s.alice, (s.bob, org.1), b"Other".to_vec(), 1, 10, 15, 3, vec![]).err(),
        Some(Error::OrganizationNotFound)
    );
    assert_eq!(s.pallet.delete_service(s.bob, s.service).err(), Some(Error::ServiceNotOwner));
    assert_eq!(
        s.pallet.update_service(s.bob, s.service, None, None, None, None, None, None).err(),
        Some(Error::ServiceNotOwner)
    );
    assert_eq!(s.pallet.delete_service(s.alice, (org, [9u8; 32])).err(), Some(Error::ServiceNotFound));
    assert_eq!(s.pallet.open_channel(s.bob, (org, [9u8; 32]), 100, START).err(), Some(Error::ServiceNotFound));
    assert_eq!(s.pallet.open_channel(charlie, s.service, 9, START).err(), Some(Error::ChannelLowNumberOfCalls));
    assert_eq!(s.pallet.open_channel(charlie, s.service, 10, u64::MAX).err(), Some(Error::ChannelInvalidExpiration));
    let d = s.pallet.delete_service(s.alice, s.service).unwrap();
    assert_eq!(d.ops, vec![LedgerOp::Unreserve { who: s.alice, amount: 10 * MILLICENTS }]);
    assert_eq!(s.pallet.organizations(&s.alice, &org.1).unwrap().services, 0);
    assert_eq!(s.pallet.claim_channel_funds(s.bob, s.channel, None, None, 16).err(), Some(Error::ServiceNotFound));
}

#[test]
fn organization_members_and_deletion() {
    let mut p = Pallet::new(config());
    let (_, alice) = account("//Alice");
    let (_, bob) = account("//Bob");
    let (_, charlie) = account("//Charlie");
    let name = b"Org".to_vec();
    let d = p.create_organization(alice, name.clone(), Some(vec![bob, charlie, bob]), b"meta".to_vec()).unwrap();
    let id = Pallet::hash_name(alice, &name);
    assert_eq!(d.ops, vec![LedgerOp::Reserve { who: alice, amount: UNIT }]);
    assert_eq!(d.event, Event::OrganizationCreated { id, owner: alice, members: 3 });
    assert_eq!(p.members(&id, &alice), Some(0));
    assert_eq!(p.members(&id, &bob), Some(1));
    assert_eq!(p.members(&id, &charlie), Some(1));
    assert!(p.create_service(bob, (alice, id), b"Bob's".to_vec(), 2, 1, 5, 0, vec![]).is_ok());
    assert_eq!(p.organizations(&alice, &id).unwrap().services, 1);
    assert_eq!(p.delete_organization(bob, name.clone()).err(), Some(Error::OrganizationNotFound));
    let d = p.delete_organization(alice, name.clone()).unwrap();
    assert_eq!(d.ops, vec![LedgerOp::Unreserve { who: alice, amount: UNIT }]);
    assert_eq!(d.event, Event::OrganizationDeleted { id, owner: alice });
    assert!(p.organizations(&alice, &id).is_none());
    assert_eq!(p.members(&id, &bob), None);
    assert_eq!(p.services.len(), 1);
}

#[test]
fn settlement_arithmetic() {
    assert_eq!(saturating_mul(7, 6), 42);
    assert_eq!(saturating_mul(u128::MAX / 2, 3), u128::MAX);
    let c = Channel {
        id: [0; 32],
        owner: [1; 32],
        organization: [2; 32],
        service: [3; 32],
        version: 1,
        counter: 4,
        price: 5,
        calls: 10,
        expiration: 20,
    };
    assert_eq!(remaining_funds(&c), 30);
    assert_eq!(remaining_funds(&Channel { counter: 11, ..c }), 0);
    assert_eq!(claim_funds(&c, 6), Ok(10));
    assert_eq!(claim_funds(&c, 30), Err(Error::ClaimNotEnoughFunds));
    assert_eq!(claim_funds(&Channel { counter: 0, ..c }, 30), Ok(50));
}

#[test]
fn claim_decision_table() {
    let mut s = setup();
    let c = s.pallet.channels(&s.bob, &s.channel.1).unwrap();
    let svc = s.pallet.services(&(s.service.0).1, &s.service.1).unwrap();
    assert_eq!(svc.version, 1);
    assert_eq!(decide_claim(&c, svc, &s.bob, 16, None), Ok(ClaimStep::Refund { funds: 100 }));
    assert_eq!(decide_claim(&c, svc, &s.bob, 2, Some(0)), Err(Error::ClaimNotExpired));
    assert_eq!(decide_claim(&c, svc, &s.bob, 2, Some(3)), Ok(ClaimStep::Redeem { counter: 3 }));
    assert_eq!(decide_claim(&c, svc, &s.alice, 2, None), Err(Error::ClaimLowCounter));
    assert_eq!(decide_claim(&c, svc, &s.alice, 2, Some(1)), Ok(ClaimStep::Redeem { counter: 1 }));
    assert_eq!(decide_claim(&Channel { counter: 100, ..c }, svc, &s.alice, 2, Some(1)), Ok(ClaimStep::Close));
    assert_eq!(s.pallet.claim_channel_funds(s.alice, (s.alice, s.channel.1), None, None, 2).err(), Some(Error::ChannelNotFound));
}
