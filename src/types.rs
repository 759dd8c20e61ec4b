use vstd::prelude::*;

verus! {

/// An account identifier: 32 bytes, which double as the sr25519 public key.
pub type AccountId = [u8; 32];

/// A 32-byte hash identifying an Organization, a Service or a Channel.
pub type HashId = [u8; 32];

/// An amount of funds.
pub type Balance = u128;

/// A block height.
pub type BlockNumber = u64;

/// `(owner, organization id)`.
pub type OrganizationSpecs = (AccountId, HashId);

/// `((organization owner, organization id), service id)`.
pub type ServiceSpecs = (OrganizationSpecs, HashId);

/// `(channel owner, channel id)`.
pub type ChannelSpecs = (AccountId, HashId);

#[derive(Clone, Debug)]
pub struct Organization {
    pub id: HashId,
    pub owner: AccountId,
    pub services: u32,
    pub name: Vec<u8>,
    pub members: u32,
    pub metadata: Vec<u8>,
}

/// One entry of the membership registry, keyed by `(organization, account)`.
#[derive(Clone, Copy, Debug)]
pub struct Member {
    pub organization: HashId,
    pub account: AccountId,
    pub rank: u32,
}

#[derive(Clone, Debug)]
pub struct Service {
    pub id: HashId,
    pub owner: AccountId,
    pub organization: HashId,
    pub channels: u32,
    pub name: Vec<u8>,
    pub version: u32,
    pub metadata: Vec<u8>,
    pub price: Balance,
    pub minimum_calls: u32,
    pub expiration_threshold: BlockNumber,
    pub trials: u32,
}

#[derive(Clone, Copy, PartialEq, Eq, Debug)]
pub struct Channel {
    pub id: HashId,
    pub owner: AccountId,
    pub organization: HashId,
    pub service: HashId,
    pub version: u32,
    pub counter: u32,
    pub price: Balance,
    pub calls: u32,
    pub expiration: BlockNumber,
}

/// A signature over a claim, as produced by the payer's key.
#[derive(Clone, Copy, Debug)]
pub enum Signature {
    Sr25519([u8; 64]),
    Ecdsa([u8; 65]),
}

/// Fixed parameters of a deployment.
#[derive(Clone, Copy, Debug)]
pub struct Config {
    /// Identifier from which the escrow account is derived.
    pub pallet_id: [u8; 8],
    /// Deposit reserved from the creator of an Organization.
    pub organization_deposit: Balance,
    /// Deposit reserved from the creator of a Service.
    pub service_deposit: Balance,
}

#[derive(Clone, Copy, PartialEq, Eq, Structural, Debug)]
pub enum Error {
    OrganizationExists,
    OrganizationNotFound,
    OrganizationNotOwner,
    ServiceExists,
    ServiceNotFound,
    ServiceNotOwner,
    ServiceNotOrgMember,
    ChannelExists,
    ChannelNotFound,
    ChannelNotOwner,
    ChannelLowNumberOfCalls,
    ChannelInvalidExpiration,
    ClaimNotAllowed,
    ClaimNotExpired,
    ClaimLowCounter,
    ClaimNotEnoughFunds,
    ClaimInvalidSigner,
    ClaimInvalidSignature,
    InvalidBlockNumber,
    InsufficientFunds,
}

/// A movement of funds that an operation asks the ledger to perform.
#[derive(Clone, Copy, PartialEq, Eq, Debug)]
pub enum LedgerOp {
    /// Reserve `amount` of `who`'s free balance; failure means `InsufficientFunds`.
    Reserve { who: AccountId, amount: Balance },
    /// Return up to `amount` of `who`'s reserved balance to its free balance.
    Unreserve { who: AccountId, amount: Balance },
    /// Move `amount` from `from` to `to`, allowing `from` to be emptied.
    Transfer { from: AccountId, to: AccountId, amount: Balance },
}

/// The notification describing a successful transition.
#[derive(Clone, Copy, PartialEq, Eq, Debug)]
pub enum Event {
    OrganizationCreated { id: HashId, owner: AccountId, members: u32 },
    OrganizationDeleted { id: HashId, owner: AccountId },
    ServiceCreated { id: HashId, owner: AccountId, organization: HashId, price: Balance },
    ServiceDeleted { id: HashId, owner: AccountId, organization: HashId },
    ServiceUpdated { id: HashId, owner: AccountId, organization: HashId, version: u32 },
    ChannelCreated {
        id: HashId,
        owner: AccountId,
        organization: HashId,
        service: HashId,
        version: u32,
        calls: u32,
        funds: Balance,
        expiration: BlockNumber,
    },
    ChannelUpdated {
        id: HashId,
        owner: AccountId,
        organization: HashId,
        service: HashId,
        version: u32,
        calls: u32,
        funds: Balance,
        expiration: BlockNumber,
    },
    ChannelExpiredClaimed { id: HashId, by: AccountId, funds: Balance },
    ChannelDeleted { id: HashId, by: AccountId, funds: Balance },
    ChannelClaimed { id: HashId, by: AccountId, counter: u32, funds: Balance },
}

/// What a successful operation hands back: the ledger movements, in order,
/// and the event.
#[derive(Debug)]
pub struct Dispatched {
    pub ops: Vec<LedgerOp>,
    pub event: Event,
}

/// Compares two 32-byte values.
pub fn same_id(a: &[u8; 32], b: &[u8; 32]) -> (r: bool)
    ensures
        r == (*a == *b),
        r == (a@ == b@),
{
    let mut i: usize = 0;
    while i < 32
        invariant
            0 <= i <= 32,
            forall|j: int| 0 <= j < i ==> a@[j] == b@[j],
        decreases 32 - i,
    {
        if a[i] != b[i] {
            assert(a@[i as int] != b@[i as int]);
            return false;
        }
        i = i + 1;
    }
    proof {
        broadcast use vstd::array::axiom_array_ext_equal;
        assert(*a =~= *b);
    }
    true
}

} // verus!
