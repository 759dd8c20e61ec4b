use parity_scale_codec::Encode;
use payment_channels::pallet::Pallet;
use payment_channels::types::{AccountId, ChannelSpecs, Config, HashId, Signature};
use sp_core::Pair;
use sp_io::hashing::blake2_256;

const MILLICENTS: u128 = 1_000_000_000;
const UNIT: u128 = 1_000 * MILLICENTS;

fn config() -> Config {
    Config { pallet_id: *b"py/paych", organization_deposit: UNIT, service_deposit: 10 * MILLICENTS }
}

fn get_account(s: &str) -> (sp_core::sr25519::Pair, AccountId) {
    let pair = sp_core::sr25519::Pair::from_string(s, None).unwrap();
    (pair.clone(), pair.public().0)
}

fn sign_message(pair: sp_core::sr25519::Pair, channel_id: HashId, version: u32, counter: u32) -> (Vec<u8>, Signature) {
    let message = (b"modlpy/paych____", channel_id, version, counter).using_encoded(blake2_256);
    let encoded_data = Encode::encode(&message);
    let signature = Signature::Sr25519(pair.sign(&message).0);
    (encoded_data, signature)
}

#[test]
fn workflow() {
    let mut pallet = Pallet::new(config());
    let now = 1u64;
    let (_pair_alice, alice) = get_account("//Alice");
    let (pair_bob, bob) = get_account("//Bob");

    let organization_name: Vec<u8> = b"My Organization".to_vec();
    assert!(pallet.create_organization(alice, organization_name.clone(), Some(vec![]), vec![]).is_ok());

    let organization_id = Pallet::hash_name(alice, &organization_name);
    let organization = (alice, organization_id);

    let service_name: Vec<u8> = b"My Service".to_vec();
    assert!(pallet.create_service(alice, organization, service_name.clone(), 1, 10, 15, 3, vec![]).is_ok());

    let service_id = Pallet::hash_name(alice, &service_name);
    let service = (organization, service_id);

    assert!(pallet.open_channel(bob, service, 100, now).is_ok());

    let channel_id = Pallet::hash_channel_id(bob, organization_id, service_id);
    let channel: ChannelSpecs = (bob, channel_id);
    let version = 1u32;
    let counter = 100u32;

    let (message, signature) = sign_message(pair_bob.clone(), channel_id, version, counter);

    assert!(pallet.claim_channel_funds(alice, channel, Some(counter), Some(signature), now).is_ok());

    let mut wrapped_data: Vec<u8> = Vec::new();
    wrapped_data.extend(b"<Bytes>");
    wrapped_data.extend(&message);
    wrapped_data.extend(b"</Bytes>");

    let signature = Signature::Sr25519(pair_bob.sign(&wrapped_data).0);
    assert!(Pallet::validate_signature(&message, &signature, &bob).is_ok());
}
