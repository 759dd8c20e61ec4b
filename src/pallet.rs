//! The state store and the operations on it.

use vstd::prelude::*;
use crate::types::{
    same_id, AccountId, Balance, BlockNumber, Channel, ChannelSpecs, Config, Dispatched, Error,
    Event, HashId, LedgerOp, Member, Organization, OrganizationSpecs, Service, ServiceSpecs,
    Signature,
};
use crate::encoding::{
    blake2_256, channel_id_of, claim_message, claim_message_of, encode_channel, encode_name,
    escrow_account, escrow_account_of, name_id,
};
use crate::settlement::{
    claim_amount_of, claim_funds, claim_step_of, decide_claim, remaining_funds, remaining_of,
    sat_mul, saturating_mul, ClaimStep,
};
use crate::signature::{signature_accepted, verify_multi_signature, wrap_bytes};
use crate::laws::{
    conserves_escrow, escrow_fits, escrow_inflow, lemma_escrow_total_push, lemma_escrow_total_remove,
    lemma_escrow_total_update, lemma_redeem_conserves, no_self_transfer,
};

verus! {

broadcast use vstd::array::axiom_array_ext_equal;

/// `i` is the first position of `s` whose entry satisfies `p`.
pub open spec fn is_first<T>(s: Seq<T>, p: spec_fn(T) -> bool, i: int) -> bool {
    0 <= i < s.len() && p(s[i]) && forall|j: int| 0 <= j < i ==> !p(#[trigger] s[j])
}

/// The position of the entry of a table that a key selects: the first one
/// that matches it.
pub open spec fn first_index<T>(s: Seq<T>, p: spec_fn(T) -> bool) -> Option<int> {
    if exists|i: int| is_first(s, p, i) {
        Some(choose|i: int| is_first(s, p, i))
    } else {
        None
    }
}

pub proof fn lemma_first_index<T>(s: Seq<T>, p: spec_fn(T) -> bool, i: int)
    requires
        is_first(s, p, i),
    ensures
        first_index(s, p) == Some(i),
{
    let k = choose|k: int| is_first(s, p, k);
    if k < i {
        assert(!p(s[k]));
    } else if k > i {
        assert(!p(s[i]));
    }
}

pub proof fn lemma_no_index<T>(s: Seq<T>, p: spec_fn(T) -> bool)
    requires
        forall|j: int| 0 <= j < s.len() ==> !p(#[trigger] s[j]),
    ensures
        first_index(s, p) is None,
{
}

/// A position that matches `p` implies a first one.
pub proof fn lemma_has_first<T>(s: Seq<T>, p: spec_fn(T) -> bool, i: int)
    requires
        0 <= i < s.len(),
        p(s[i]),
    ensures
        first_index(s, p) is Some,
    decreases i,
{
    if exists|k: int| 0 <= k < i && p(#[trigger] s[k]) {
        let k = choose|k: int| 0 <= k < i && p(#[trigger] s[k]);
        lemma_has_first(s, p, k);
    } else {
        assert(is_first(s, p, i));
    }
}

/// Overwriting the first match of `p` with another match keeps its position.
pub proof fn lemma_update_same<T>(s: Seq<T>, p: spec_fn(T) -> bool, i: int, v: T)
    requires
        is_first(s, p, i),
        p(v),
    ensures
        first_index(s.update(i, v), p) == Some(i),
{
    assert(is_first(s.update(i, v), p, i));
    lemma_first_index(s.update(i, v), p, i);
}

/// Overwriting an entry that matches neither before nor after leaves the
/// first match of `q` where it was.
pub proof fn lemma_update_other<T>(s: Seq<T>, q: spec_fn(T) -> bool, i: int, v: T)
    requires
        0 <= i < s.len(),
        !q(s[i]),
        !q(v),
    ensures
        first_index(s.update(i, v), q) == first_index(s, q),
{
    let t = s.update(i, v);
    match first_index(s, q) {
        Some(k) => {
            assert(is_first(t, q, k));
            lemma_first_index(t, q, k);
        },
        None => {
            if first_index(t, q) is Some {
                let k = first_index(t, q)->Some_0;
                assert(is_first(t, q, k));
                lemma_has_first(s, q, k);
            }
        },
    }
}

/// Appending an entry that does not match leaves the first match of `q`.
pub proof fn lemma_push_other<T>(s: Seq<T>, q: spec_fn(T) -> bool, v: T)
    requires
        !q(v),
    ensures
        first_index(s.push(v), q) == first_index(s, q),
{
    let t = s.push(v);
    match first_index(s, q) {
        Some(k) => {
            assert(is_first(t, q, k));
            lemma_first_index(t, q, k);
        },
        None => {
            if first_index(t, q) is Some {
                let k = first_index(t, q)->Some_0;
                assert(is_first(t, q, k));
                lemma_has_first(s, q, k);
            }
        },
    }
}

/// Appending the first match of `p` puts it at the end.
pub proof fn lemma_push_new<T>(s: Seq<T>, p: spec_fn(T) -> bool, v: T)
    requires
        first_index(s, p) is None,
        p(v),
    ensures
        first_index(s.push(v), p) == Some(s.len() as int),
{
    let t = s.push(v);
    assert forall|j: int| 0 <= j < s.len() implies !p(#[trigger] t[j]) by {
        if p(s[j]) {
            lemma_has_first(s, p, j);
        }
    }
    assert(is_first(t, p, s.len() as int));
    lemma_first_index(t, p, s.len() as int);
}

pub open spec fn org_key(owner: AccountId, id: Seq<u8>) -> spec_fn(Organization) -> bool {
    |o: Organization| o.owner == owner && o.id@ == id
}

pub open spec fn member_key(organization: Seq<u8>, account: AccountId) -> spec_fn(Member) -> bool {
    |m: Member| m.organization@ == organization && m.account == account
}

pub open spec fn service_key(organization: Seq<u8>, id: Seq<u8>) -> spec_fn(Service) -> bool {
    |s: Service| s.organization@ == organization && s.id@ == id
}

pub open spec fn channel_key(owner: AccountId, id: Seq<u8>) -> spec_fn(Channel) -> bool {
    |c: Channel| c.owner == owner && c.id@ == id
}

pub open spec fn in_org(organization: Seq<u8>) -> spec_fn(Member) -> bool {
    |m: Member| m.organization@ == organization
}

pub open spec fn not_in_org(organization: Seq<u8>) -> spec_fn(Member) -> bool {
    |m: Member| m.organization@ != organization
}

/// The rank of `account` in `organization`, if it is a member.
pub open spec fn rank_of(s: Seq<Member>, organization: Seq<u8>, account: AccountId) -> Option<u32> {
    match first_index(s, member_key(organization, account)) {
        Some(i) => Some(s[i].rank),
        None => None,
    }
}

/// The number of members of `organization`, clamped to a `u32`.
pub open spec fn member_count(s: Seq<Member>, organization: Seq<u8>) -> u32 {
    let n = s.filter(in_org(organization)).len();
    if n <= u32::MAX { n as u32 } else { u32::MAX }
}

/// The rank that creating an Organization gives `a`: 0 for the owner, 1 for
/// an initial member.
pub open spec fn initial_rank(owner: AccountId, initial: Option<Vec<AccountId>>, a: AccountId) -> Option<u32> {
    if a == owner {
        Some(0)
    } else if initial matches Some(v) && v@.contains(a) {
        Some(1)
    } else {
        None
    }
}

/// `r` succeeded with these ledger movements and this event.
pub open spec fn dispatched(r: Result<Dispatched, Error>, ops: Seq<LedgerOp>, event: Event) -> bool {
    r matches Ok(d) && d.ops@ == ops && d.event == event
}

/// `s` with `channels` live Channels.
pub open spec fn with_channels(s: Service, channels: u32) -> Service {
    Service { channels, ..s }
}

/// `o` with `services` live Services.
pub open spec fn with_services(o: Organization, services: u32) -> Organization {
    Organization { services, ..o }
}

/// The value an optional override leaves.
pub open spec fn or_keep<T>(o: Option<T>, current: T) -> T {
    match o {
        Some(v) => v,
        None => current,
    }
}

/// `s` with the overrides of an update applied and the next version.
pub open spec fn updated_service(
    s: Service,
    name: Option<Vec<u8>>,
    price: Option<Balance>,
    minimum_calls: Option<u32>,
    expiration_threshold: Option<BlockNumber>,
    trials: Option<u32>,
    metadata: Option<Vec<u8>>,
) -> Service {
    Service {
        name: or_keep(name, s.name),
        price: or_keep(price, s.price),
        minimum_calls: or_keep(minimum_calls, s.minimum_calls),
        expiration_threshold: or_keep(expiration_threshold, s.expiration_threshold),
        trials: or_keep(trials, s.trials),
        metadata: or_keep(metadata, s.metadata),
        version: if s.version < u32::MAX { (s.version + 1) as u32 } else { 0 },
        ..s
    }
}

/// The state of the library: the four tables of the state store, and the
/// configuration with the escrow account derived from it.
#[derive(Clone)]
pub struct Pallet {
    pub config: Config,
    pub escrow: AccountId,
    /// Keyed by `(owner, id)`.
    pub organizations: Vec<Organization>,
    /// Keyed by `(organization, account)`.
    pub members: Vec<Member>,
    /// Keyed by `(organization, id)`.
    pub services: Vec<Service>,
    /// Keyed by `(owner, id)`.
    pub channels: Vec<Channel>,
}

impl Pallet {
    pub open spec fn wf(&self) -> bool {
        self.escrow@ == escrow_account_of(self.config.pallet_id@)
    }

    /// Operations leave the configuration alone.
    pub open spec fn same_config(&self, other: &Pallet) -> bool {
        self.config == other.config && self.escrow == other.escrow
    }

    pub fn new(config: Config) -> (r: Pallet)
        ensures
            r.wf(),
            r.config == config,
            r.organizations@.len() == 0,
            r.members@.len() == 0,
            r.services@.len() == 0,
            r.channels@.len() == 0,
    {
        Pallet {
            config,
            escrow: escrow_account(&config.pallet_id),
            organizations: Vec::new(),
            members: Vec::new(),
            services: Vec::new(),
            channels: Vec::new(),
        }
    }

    /// The escrow account that holds the funds of all open Channels.
    pub fn account_id(&self) -> (r: AccountId)
        ensures
            r == self.escrow,
    {
        self.escrow
    }

    /// The id of the Organization or Service named `name` by `owner`.
    pub fn hash_name(owner: AccountId, name: &Vec<u8>) -> (r: HashId)
        requires
            name@.len() <= u32::MAX,
        ensures
            r@ == name_id(owner@, name@),
    {
        blake2_256(&encode_name(&owner, name))
    }

    /// The id of the Channel of `owner` on the Service `service_id` of
    /// `organization_id`.
    pub fn hash_channel_id(owner: AccountId, organization_id: HashId, service_id: HashId) -> (r: HashId)
        ensures
            r@ == channel_id_of(owner@, organization_id@, service_id@),
    {
        blake2_256(&encode_channel(&owner, &organization_id, &service_id))
    }

    /// Checks `signature` over `message` for `signer`, first over the raw
    /// bytes and then over the `<Bytes>`-wrapped bytes.
    pub fn validate_signature(message: &Vec<u8>, signature: &Signature, signer: &AccountId) -> (r: Result<(), Error>)
        ensures
            r is Ok <==> signature_accepted(*signature, message@, signer@),
            r is Err ==> r == Err::<(), Error>(Error::ClaimInvalidSignature),
    {
        if verify_multi_signature(signature, message, signer) {
            return Ok(());
        }
        let wrapped = wrap_bytes(message);
        if verify_multi_signature(signature, &wrapped, signer) {
            Ok(())
        } else {
            Err(Error::ClaimInvalidSignature)
        }
    }

    /// The Organization stored under `(owner, id)`.
    pub fn organizations(&self, owner: &AccountId, id: &HashId) -> (r: Option<&Organization>)
        ensures
            match first_index(self.organizations@, org_key(*owner, id@)) {
                Some(i) => r == Some(&self.organizations@[i]),
                None => r is None,
            },
    {
        match self.find_organization(owner, id) {
            Some(i) => Some(&self.organizations[i]),
            None => None,
        }
    }

    /// The rank of `account` in the Organization `organization`.
    pub fn members(&self, organization: &HashId, account: &AccountId) -> (r: Option<u32>)
        ensures
            r == rank_of(self.members@, organization@, *account),
    {
        match self.find_member(organization, account) {
            Some(i) => Some(self.members[i].rank),
            None => None,
        }
    }

    /// The Service stored under `(organization, id)`.
    pub fn services(&self, organization: &HashId, id: &HashId) -> (r: Option<&Service>)
        ensures
            match first_index(self.services@, service_key(organization@, id@)) {
                Some(i) => r == Some(&self.services@[i]),
                None => r is None,
            },
    {
        match self.find_service(organization, id) {
            Some(i) => Some(&self.services[i]),
            None => None,
        }
    }

    /// The Channel stored under `(owner, id)`.
    pub fn channels(&self, owner: &AccountId, id: &HashId) -> (r: Option<Channel>)
        ensures
            match first_index(self.channels@, channel_key(*owner, id@)) {
                Some(i) => r == Some(self.channels@[i]),
                None => r is None,
            },
    {
        match self.find_channel(owner, id) {
            Some(i) => Some(self.channels[i]),
            None => None,
        }
    }

    fn find_organization(&self, owner: &AccountId, id: &HashId) -> (r: Option<usize>)
        ensures
            r matches Some(i) ==> first_index(self.organizations@, org_key(*owner, id@)) == Some(i as int),
            r is None ==> first_index(self.organizations@, org_key(*owner, id@)) is None,
    {
        let mut i: usize = 0;
        while i < self.organizations.len()
            invariant
                0 <= i <= self.organizations@.len(),
                forall|j: int| 0 <= j < i ==> !org_key(*owner, id@)(#[trigger] self.organizations@[j]),
            decreases self.organizations@.len() - i,
        {
            if same_id(&self.organizations[i].owner, owner) && same_id(&self.organizations[i].id, id) {
                proof { lemma_first_index(self.organizations@, org_key(*owner, id@), i as int); }
                return Some(i);
            }
            i = i + 1;
        }
        proof { lemma_no_index(self.organizations@, org_key(*owner, id@)); }
        None
    }

    fn find_member(&self, organization: &HashId, account: &AccountId) -> (r: Option<usize>)
        ensures
            r matches Some(i) ==> first_index(self.members@, member_key(organization@, *account)) == Some(i as int),
            r is None ==> first_index(self.members@, member_key(organization@, *account)) is None,
    {
        let mut i: usize = 0;
        while i < self.members.len()
            invariant
                0 <= i <= self.members@.len(),
                forall|j: int| 0 <= j < i ==> !member_key(organization@, *account)(#[trigger] self.members@[j]),
            decreases self.members@.len() - i,
        {
            if same_id(&self.members[i].organization, organization) && same_id(&self.members[i].account, account) {
                proof { lemma_first_index(self.members@, member_key(organization@, *account), i as int); }
                return Some(i);
            }
            i = i + 1;
        }
        proof { lemma_no_index(self.members@, member_key(organization@, *account)); }
        None
    }

    fn find_service(&self, organization: &HashId, id: &HashId) -> (r: Option<usize>)
        ensures
            r matches Some(i) ==> first_index(self.services@, service_key(organization@, id@)) == Some(i as int),
            r is None ==> first_index(self.services@, service_key(organization@, id@)) is None,
    {
        let mut i: usize = 0;
        while i < self.services.len()
            invariant
                0 <= i <= self.services@.len(),
                forall|j: int| 0 <= j < i ==> !service_key(organization@, id@)(#[trigger] self.services@[j]),
            decreases self.services@.len() - i,
        {
            if same_id(&self.services[i].organization, organization) && same_id(&self.services[i].id, id) {
                proof { lemma_first_index(self.services@, service_key(organization@, id@), i as int); }
                return Some(i);
            }
            i = i + 1;
        }
        proof { lemma_no_index(self.services@, service_key(organization@, id@)); }
        None
    }

    fn find_channel(&self, owner: &AccountId, id: &HashId) -> (r: Option<usize>)
        ensures
            r matches Some(i) ==> first_index(self.channels@, channel_key(*owner, id@)) == Some(i as int),
            r is None ==> first_index(self.channels@, channel_key(*owner, id@)) is None,
    {
        let mut i: usize = 0;
        while i < self.channels.len()
            invariant
                0 <= i <= self.channels@.len(),
                forall|j: int| 0 <= j < i ==> !channel_key(*owner, id@)(#[trigger] self.channels@[j]),
            decreases self.channels@.len() - i,
        {
            if same_id(&self.channels[i].owner, owner) && same_id(&self.channels[i].id, id) {
                proof { lemma_first_index(self.channels@, channel_key(*owner, id@), i as int); }
                return Some(i);
            }
            i = i + 1;
        }
        proof { lemma_no_index(self.channels@, channel_key(*owner, id@)); }
        None
    }

    /// Settles a claim on the Channel `channel` by `caller` at height `now`.
    ///
    /// A Channel without funds is removed. Its owner takes the funds back once
    /// it has expired or its Service has changed version. Otherwise the claim
    /// must raise the counter and carry the payer's signature of the claim
    /// message; the Service owner then receives the price of the new calls,
    /// capped at the Channel's full escrow.
    pub fn claim_channel_funds(
        &mut self,
        caller: AccountId,
        channel: ChannelSpecs,
        counter: Option<u32>,
        signature: Option<Signature>,
        now: BlockNumber,
    ) -> (r: Result<Dispatched, Error>)
        ensures
            final(self).same_config(old(self)),
            final(self).organizations == old(self).organizations,
            final(self).members == old(self).members,
            r is Err ==> *final(self) == *old(self),
            escrow_fits(final(self).channels@) ==> conserves_escrow(r, old(self).channels@, final(self).channels@, old(self).escrow),
            ({
                let (owner, id) = channel;
                match first_index(old(self).channels@, channel_key(owner, id@)) {
                    None => r == Err::<Dispatched, Error>(Error::ChannelNotFound),
                    Some(i) => {
                        let c = old(self).channels@[i];
                        match first_index(old(self).services@, service_key(c.organization@, c.service@)) {
                            None => r == Err::<Dispatched, Error>(Error::ServiceNotFound),
                            Some(j) => {
                                let s = old(self).services@[j];
                                let closed = final(self).channels@ == old(self).channels@.remove(i)
                                    && final(self).services@ == old(self).services@.update(j, with_channels(s, if s.channels > 0 { (s.channels - 1) as u32 } else { 0 }));
                                match claim_step_of(c, s, caller, now, counter) {
                                    Err(e) => r == Err::<Dispatched, Error>(e),
                                    Ok(ClaimStep::Close) => closed && dispatched(r, seq![],
                                        Event::ChannelDeleted { id, by: caller, funds: 0 }),
                                    Ok(ClaimStep::Refund { funds }) => closed && dispatched(r,
                                        seq![LedgerOp::Transfer { from: old(self).escrow, to: caller, amount: funds }],
                                        Event::ChannelExpiredClaimed { id, by: caller, funds }),
                                    Ok(ClaimStep::Redeem { counter: k }) => match signature {
                                        None => r == Err::<Dispatched, Error>(Error::ClaimInvalidSignature),
                                        Some(sig) => if !signature_accepted(sig, claim_message_of(id@, s.version, k), c.owner@) {
                                            r == Err::<Dispatched, Error>(Error::ClaimInvalidSignature)
                                        } else if claim_amount_of(c, k) > remaining_of(c) {
                                            r == Err::<Dispatched, Error>(Error::ClaimNotEnoughFunds)
                                        } else {
                                            &&& final(self).channels@ == old(self).channels@.update(i, Channel { counter: k, ..c })
                                            &&& final(self).services == old(self).services
                                            &&& dispatched(r,
                                                seq![LedgerOp::Transfer { from: old(self).escrow, to: s.owner, amount: claim_amount_of(c, k) }],
                                                Event::ChannelClaimed { id, by: caller, counter: k, funds: claim_amount_of(c, k) })
                                        },
                                    },
                                }
                            },
                        }
                    },
                }
            }),
    {
        let (owner, id) = channel;
        let i = match self.find_channel(&owner, &id) {
            Some(i) => i,
            None => return Err(Error::ChannelNotFound),
        };
        let mut c = self.channels[i];
        let j = match self.find_service(&c.organization, &c.service) {
            Some(j) => j,
            None => return Err(Error::ServiceNotFound),
        };
        let step = decide_claim(&c, &self.services[j], &caller, now, counter);
        match step {
            Err(e) => Err(e),
            Ok(ClaimStep::Close) => {
                let n = self.services[j].channels.saturating_sub(1);
                self.channels.remove(i);
                self.set_service_channels(j, n);
                proof {
                    lemma_escrow_total_remove(old(self).channels@, i as int);
                    reveal_with_fuel(escrow_inflow, 1);
                }
                Ok(Dispatched { ops: Vec::new(), event: Event::ChannelDeleted { id, by: caller, funds: 0 } })
            },
            Ok(ClaimStep::Refund { funds }) => {
                let n = self.services[j].channels.saturating_sub(1);
                self.channels.remove(i);
                self.set_service_channels(j, n);
                let mut ops: Vec<LedgerOp> = Vec::new();
                ops.push(LedgerOp::Transfer { from: self.escrow, to: caller, amount: funds });
                assert(ops@ =~= seq![LedgerOp::Transfer { from: old(self).escrow, to: caller, amount: funds }]);
                proof {
                    lemma_escrow_total_remove(old(self).channels@, i as int);
                    assert(ops@.drop_last() =~= Seq::<LedgerOp>::empty());
                    reveal_with_fuel(escrow_inflow, 2);
                    if no_self_transfer(ops@) {
                        assert(ops@[0] == LedgerOp::Transfer { from: old(self).escrow, to: caller, amount: funds });
                    }
                }
                Ok(Dispatched { ops, event: Event::ChannelExpiredClaimed { id, by: caller, funds } })
            },
            Ok(ClaimStep::Redeem { counter: k }) => {
                let sig = match signature {
                    Some(sig) => sig,
                    None => return Err(Error::ClaimInvalidSignature),
                };
                let message = claim_message(&id, self.services[j].version, k);
                match Self::validate_signature(&message, &sig, &c.owner) {
                    Ok(()) => {},
                    Err(e) => return Err(e),
                }
                let amount = match claim_funds(&c, k) {
                    Ok(a) => a,
                    Err(e) => return Err(e),
                };
                let to = self.services[j].owner;
                c.counter = k;
                self.channels.set(i, c);
                let mut ops: Vec<LedgerOp> = Vec::new();
                ops.push(LedgerOp::Transfer { from: self.escrow, to, amount });
                assert(ops@ =~= seq![LedgerOp::Transfer { from: old(self).escrow, to, amount }]);
                proof {
                    let old_c = old(self).channels@[i as int];
                    lemma_escrow_total_update(old(self).channels@, i as int, c);
                    assert(ops@.drop_last() =~= Seq::<LedgerOp>::empty());
                    reveal_with_fuel(escrow_inflow, 2);
                    if no_self_transfer(ops@) && escrow_fits(self.channels@) {
                        assert(ops@[0] == LedgerOp::Transfer { from: old(self).escrow, to, amount });
                        assert(self.channels@[i as int] == c);
                        lemma_redeem_conserves(old_c, k);
                    }
                }
                Ok(Dispatched { ops, event: Event::ChannelClaimed { id, by: caller, counter: k, funds: amount } })
            },
        }
    }

    /// Opens the Channel of `caller` on a Service for `calls` calls at height
    /// `now`, escrowing `price * calls` (saturating).
    pub fn open_channel(&mut self, caller: AccountId, service: ServiceSpecs, calls: u32, now: BlockNumber) -> (r: Result<Dispatched, Error>)
        ensures
            final(self).same_config(old(self)),
            final(self).organizations == old(self).organizations,
            final(self).members == old(self).members,
            r is Err ==> *final(self) == *old(self),
            conserves_escrow(r, old(self).channels@, final(self).channels@, old(self).escrow),
            ({
                let ((_, org), sid) = service;
                match first_index(old(self).services@, service_key(org@, sid@)) {
                    None => r == Err::<Dispatched, Error>(Error::ServiceNotFound),
                    Some(j) => {
                        let s = old(self).services@[j];
                        let cid = channel_id_of(caller@, org@, sid@);
                        let funds = sat_mul(s.price, calls);
                        let expiration = now + s.expiration_threshold;
                        let c = final(self).channels@.last();
                        if calls < s.minimum_calls {
                            r == Err::<Dispatched, Error>(Error::ChannelLowNumberOfCalls)
                        } else if first_index(old(self).channels@, channel_key(caller, cid)) is Some {
                            r == Err::<Dispatched, Error>(Error::ChannelExists)
                        } else if expiration > u64::MAX {
                            r == Err::<Dispatched, Error>(Error::ChannelInvalidExpiration)
                        } else {
                            &&& final(self).channels@ == old(self).channels@.push(c)
                            &&& c.id@ == cid
                            &&& c == (Channel { id: c.id, owner: caller, organization: org, service: sid,
                                version: s.version, counter: 0, price: s.price, calls, expiration: expiration as u64 })
                            &&& final(self).services@ == old(self).services@.update(j, with_channels(s,
                                if s.channels < u32::MAX { (s.channels + 1) as u32 } else { u32::MAX }))
                            &&& dispatched(r,
                                seq![LedgerOp::Transfer { from: caller, to: old(self).escrow, amount: funds }],
                                Event::ChannelCreated { id: c.id, owner: caller, organization: org, service: sid,
                                    version: s.version, calls, funds, expiration: expiration as u64 })
                        }
                    },
                }
            }),
    {
        let ((_, org), sid) = service;
        let j = match self.find_service(&org, &sid) {
            Some(j) => j,
            None => return Err(Error::ServiceNotFound),
        };
        if calls < self.services[j].minimum_calls {
            return Err(Error::ChannelLowNumberOfCalls);
        }
        let id = Self::hash_channel_id(caller, org, sid);
        if self.find_channel(&caller, &id).is_some() {
            return Err(Error::ChannelExists);
        }
        let expiration = match now.checked_add(self.services[j].expiration_threshold) {
            Some(e) => e,
            None => return Err(Error::ChannelInvalidExpiration),
        };
        let price = self.services[j].price;
        let version = self.services[j].version;
        let funds = saturating_mul(price, calls);
        let n = self.services[j].channels.saturating_add(1);
        self.set_service_channels(j, n);
        let c = Channel { id, owner: caller, organization: org, service: sid, version, counter: 0, price, calls, expiration };
        self.channels.push(c);
        let mut ops: Vec<LedgerOp> = Vec::new();
        ops.push(LedgerOp::Transfer { from: caller, to: self.escrow, amount: funds });
        assert(ops@ =~= seq![LedgerOp::Transfer { from: caller, to: old(self).escrow, amount: funds }]);
        proof {
            lemma_escrow_total_push(old(self).channels@, c);
            assert(ops@.drop_last() =~= Seq::<LedgerOp>::empty());
            reveal_with_fuel(escrow_inflow, 2);
            if no_self_transfer(ops@) {
                assert(ops@[0] == LedgerOp::Transfer { from: caller, to: old(self).escrow, amount: funds });
            }
        }
        Ok(Dispatched {
            ops,
            event: Event::ChannelCreated { id, owner: caller, organization: org, service: sid, version, calls, funds, expiration },
        })
    }

    /// Refunds what is left on the Channel of `caller` and funds it anew for
    /// `calls` calls (by default the Service's minimum) on the Service's
    /// current terms, with the counter back at zero.
    pub fn update_channel(&mut self, caller: AccountId, channel: ChannelSpecs, calls: Option<u32>, now: BlockNumber) -> (r: Result<Dispatched, Error>)
        ensures
            final(self).same_config(old(self)),
            final(self).organizations == old(self).organizations,
            final(self).members == old(self).members,
            final(self).services == old(self).services,
            r is Err ==> *final(self) == *old(self),
            conserves_escrow(r, old(self).channels@, final(self).channels@, old(self).escrow),
            ({
                let (owner, id) = channel;
                if caller != owner {
                    r == Err::<Dispatched, Error>(Error::ChannelNotOwner)
                } else {
                    match first_index(old(self).channels@, channel_key(owner, id@)) {
                        None => r == Err::<Dispatched, Error>(Error::ChannelNotFound),
                        Some(i) => {
                            let c = old(self).channels@[i];
                            match first_index(old(self).services@, service_key(c.organization@, c.service@)) {
                                None => r == Err::<Dispatched, Error>(Error::ServiceNotFound),
                                Some(j) => {
                                    let s = old(self).services@[j];
                                    let n = match calls { Some(n) => n, None => s.minimum_calls };
                                    let rem = remaining_of(c);
                                    let funds = sat_mul(s.price, n);
                                    let expiration = now + s.expiration_threshold;
                                    let fund = LedgerOp::Transfer { from: caller, to: old(self).escrow, amount: funds };
                                    if n < s.minimum_calls {
                                        r == Err::<Dispatched, Error>(Error::ChannelLowNumberOfCalls)
                                    } else if expiration > u64::MAX {
                                        r == Err::<Dispatched, Error>(Error::ChannelInvalidExpiration)
                                    } else {
                                        &&& final(self).channels@ == old(self).channels@.update(i, Channel {
                                            version: s.version, counter: 0, price: s.price, calls: n,
                                            expiration: expiration as u64, ..c })
                                        &&& dispatched(r,
                                            if rem == 0 { seq![fund] } else {
                                                seq![LedgerOp::Transfer { from: old(self).escrow, to: caller, amount: rem }, fund]
                                            },
                                            Event::ChannelUpdated { id, owner: caller, organization: c.organization,
                                                service: c.service, version: s.version, calls: n, funds,
                                                expiration: expiration as u64 })
                                    }
                                },
                            }
                        },
                    }
                }
            }),
    {
        let (owner, id) = channel;
        if !same_id(&caller, &owner) {
            return Err(Error::ChannelNotOwner);
        }
        let i = match self.find_channel(&owner, &id) {
            Some(i) => i,
            None => return Err(Error::ChannelNotFound),
        };
        let mut c = self.channels[i];
        let j = match self.find_service(&c.organization, &c.service) {
            Some(j) => j,
            None => return Err(Error::ServiceNotFound),
        };
        let mut ops: Vec<LedgerOp> = Vec::new();
        let remaining = remaining_funds(&c);
        if remaining != 0 {
            ops.push(LedgerOp::Transfer { from: self.escrow, to: caller, amount: remaining });
        }
        let minimum = self.services[j].minimum_calls;
        let n: u32 = match calls {
            Some(n) => n,
            None => minimum,
        };
        if n < minimum {
            return Err(Error::ChannelLowNumberOfCalls);
        }
        let expiration = match now.checked_add(self.services[j].expiration_threshold) {
            Some(e) => e,
            None => return Err(Error::ChannelInvalidExpiration),
        };
        let price = self.services[j].price;
        let version = self.services[j].version;
        c.version = version;
        c.counter = 0;
        c.price = price;
        c.calls = n;
        c.expiration = expiration;
        let funds = saturating_mul(price, n);
        ops.push(LedgerOp::Transfer { from: caller, to: self.escrow, amount: funds });
        proof {
            let fund = LedgerOp::Transfer { from: caller, to: self.escrow, amount: funds };
            if remaining == 0 {
                assert(ops@ =~= seq![fund]);
            } else {
                assert(ops@ =~= seq![LedgerOp::Transfer { from: self.escrow, to: caller, amount: remaining }, fund]);
            }
        }
        self.channels.set(i, c);
        proof {
            lemma_escrow_total_update(old(self).channels@, i as int, c);
            reveal_with_fuel(escrow_inflow, 3);
            if no_self_transfer(ops@) {
                assert(ops@.last() == LedgerOp::Transfer { from: caller, to: self.escrow, amount: funds });
                if remaining == 0 {
                    assert(ops@.drop_last() =~= Seq::<LedgerOp>::empty());
                } else {
                    assert(ops@[0] == LedgerOp::Transfer { from: self.escrow, to: caller, amount: remaining });
                    assert(ops@.drop_last() =~= seq![ops@[0]]);
                    assert(ops@.drop_last().drop_last() =~= Seq::<LedgerOp>::empty());
                }
            }
        }
        Ok(Dispatched {
            ops,
            event: Event::ChannelUpdated {
                id,
                owner: caller,
                organization: c.organization,
                service: c.service,
                version,
                calls: n,
                funds,
                expiration,
            },
        })
    }

    /// Creates the Service `name` of `caller` under an Organization that
    /// `caller` is a member of, reserving the service deposit.
    pub fn create_service(
        &mut self,
        caller: AccountId,
        organization: OrganizationSpecs,
        name: Vec<u8>,
        price: Balance,
        minimum_calls: u32,
        expiration_threshold: BlockNumber,
        trials: u32,
        metadata: Vec<u8>,
    ) -> (r: Result<Dispatched, Error>)
        requires
            name@.len() <= u32::MAX,
        ensures
            final(self).same_config(old(self)),
            final(self).members == old(self).members,
            final(self).channels == old(self).channels,
            r is Err ==> *final(self) == *old(self),
            conserves_escrow(r, old(self).channels@, final(self).channels@, old(self).escrow),
            ({
                let (org_owner, org) = organization;
                let sid = name_id(caller@, name@);
                let sv = final(self).services@.last();
                match first_index(old(self).organizations@, org_key(org_owner, org@)) {
                    None => r == Err::<Dispatched, Error>(Error::OrganizationNotFound),
                    Some(oi) => if first_index(old(self).members@, member_key(org@, caller)) is None {
                        r == Err::<Dispatched, Error>(Error::ServiceNotOrgMember)
                    } else if first_index(old(self).services@, service_key(org@, sid)) is Some {
                        r == Err::<Dispatched, Error>(Error::ServiceExists)
                    } else {
                        let o = old(self).organizations@[oi];
                        &&& final(self).services@ == old(self).services@.push(sv)
                        &&& sv.id@ == sid
                        &&& sv == (Service { id: sv.id, owner: caller, organization: org, channels: 0, name,
                            version: 1, metadata, price, minimum_calls, expiration_threshold, trials })
                        &&& final(self).organizations@ == old(self).organizations@.update(oi, with_services(o,
                            if o.services < u32::MAX { (o.services + 1) as u32 } else { u32::MAX }))
                        &&& dispatched(r,
                            seq![LedgerOp::Reserve { who: caller, amount: old(self).config.service_deposit }],
                            Event::ServiceCreated { id: sv.id, owner: caller, organization: org, price })
                    },
                }
            }),
    {
        let (org_owner, org) = organization;
        let oi = match self.find_organization(&org_owner, &org) {
            Some(oi) => oi,
            None => return Err(Error::OrganizationNotFound),
        };
        if self.find_member(&org, &caller).is_none() {
            return Err(Error::ServiceNotOrgMember);
        }
        let id = Self::hash_name(caller, &name);
        if self.find_service(&org, &id).is_some() {
            return Err(Error::ServiceExists);
        }
        let n = self.organizations[oi].services.saturating_add(1);
        self.set_org_services(oi, n);
        self.services.push(Service {
            id,
            owner: caller,
            organization: org,
            channels: 0,
            name,
            version: 1,
            metadata,
            price,
            minimum_calls,
            expiration_threshold,
            trials,
        });
        let mut ops: Vec<LedgerOp> = Vec::new();
        ops.push(LedgerOp::Reserve { who: caller, amount: self.config.service_deposit });
        assert(ops@ =~= seq![LedgerOp::Reserve { who: caller, amount: old(self).config.service_deposit }]);
        proof {
            assert(ops@.drop_last() =~= Seq::<LedgerOp>::empty());
            reveal_with_fuel(escrow_inflow, 2);
        }
        Ok(Dispatched { ops, event: Event::ServiceCreated { id, owner: caller, organization: org, price } })
    }

    /// Deletes a Service of `caller`, returning the service deposit.
    pub fn delete_service(&mut self, caller: AccountId, service: ServiceSpecs) -> (r: Result<Dispatched, Error>)
        ensures
            final(self).same_config(old(self)),
            final(self).members == old(self).members,
            final(self).channels == old(self).channels,
            r is Err ==> *final(self) == *old(self),
            conserves_escrow(r, old(self).channels@, final(self).channels@, old(self).escrow),
            ({
                let ((org_owner, org), sid) = service;
                match first_index(old(self).organizations@, org_key(org_owner, org@)) {
                    None => r == Err::<Dispatched, Error>(Error::OrganizationNotFound),
                    Some(oi) => match first_index(old(self).services@, service_key(org@, sid@)) {
                        None => r == Err::<Dispatched, Error>(Error::ServiceNotFound),
                        Some(j) => if caller != old(self).services@[j].owner {
                            r == Err::<Dispatched, Error>(Error::ServiceNotOwner)
                        } else {
                            let o = old(self).organizations@[oi];
                            &&& final(self).services@ == old(self).services@.remove(j)
                            &&& final(self).organizations@ == old(self).organizations@.update(oi, with_services(o,
                                if o.services > 0 { (o.services - 1) as u32 } else { 0 }))
                            &&& dispatched(r,
                                seq![LedgerOp::Unreserve { who: caller, amount: old(self).config.service_deposit }],
                                Event::ServiceDeleted { id: sid, owner: caller, organization: org })
                        },
                    },
                }
            }),
    {
        let ((org_owner, org), sid) = service;
        let oi = match self.find_organization(&org_owner, &org) {
            Some(oi) => oi,
            None => return Err(Error::OrganizationNotFound),
        };
        let j = match self.find_service(&org, &sid) {
            Some(j) => j,
            None => return Err(Error::ServiceNotFound),
        };
        if !same_id(&caller, &self.services[j].owner) {
            return Err(Error::ServiceNotOwner);
        }
        let n = self.organizations[oi].services.saturating_sub(1);
        self.set_org_services(oi, n);
        self.services.remove(j);
        let mut ops: Vec<LedgerOp> = Vec::new();
        ops.push(LedgerOp::Unreserve { who: caller, amount: self.config.service_deposit });
        assert(ops@ =~= seq![LedgerOp::Unreserve { who: caller, amount: old(self).config.service_deposit }]);
        proof {
            assert(ops@.drop_last() =~= Seq::<LedgerOp>::empty());
            reveal_with_fuel(escrow_inflow, 2);
        }
        Ok(Dispatched { ops, event: Event::ServiceDeleted { id: sid, owner: caller, organization: org } })
    }

    /// Applies the given overrides to a Service of `caller` and moves it to
    /// the next version, which leaves every Channel opened before outdated.
    pub fn update_service(
        &mut self,
        caller: AccountId,
        service: ServiceSpecs,
        name: Option<Vec<u8>>,
        price: Option<Balance>,
        minimum_calls: Option<u32>,
        expiration_threshold: Option<BlockNumber>,
        trials: Option<u32>,
        metadata: Option<Vec<u8>>,
    ) -> (r: Result<Dispatched, Error>)
        ensures
            final(self).same_config(old(self)),
            final(self).organizations == old(self).organizations,
            final(self).members == old(self).members,
            final(self).channels == old(self).channels,
            r is Err ==> *final(self) == *old(self),
            conserves_escrow(r, old(self).channels@, final(self).channels@, old(self).escrow),
            ({
                let ((_, org), sid) = service;
                match first_index(old(self).services@, service_key(org@, sid@)) {
                    None => r == Err::<Dispatched, Error>(Error::ServiceNotFound),
                    Some(j) => {
                        let s = old(self).services@[j];
                        let u = updated_service(s, name, price, minimum_calls, expiration_threshold, trials, metadata);
                        if caller != s.owner {
                            r == Err::<Dispatched, Error>(Error::ServiceNotOwner)
                        } else {
                            &&& final(self).services@ == old(self).services@.update(j, u)
                            &&& dispatched(r, seq![],
                                Event::ServiceUpdated { id: sid, owner: caller, organization: org, version: u.version })
                        }
                    },
                }
            }),
    {
        let ((_, org), sid) = service;
        let j = match self.find_service(&org, &sid) {
            Some(j) => j,
            None => return Err(Error::ServiceNotFound),
        };
        if !same_id(&caller, &self.services[j].owner) {
            return Err(Error::ServiceNotOwner);
        }
        let mut s = self.services.remove(j);
        match name {
            Some(v) => s.name = v,
            None => {},
        }
        match price {
            Some(v) => s.price = v,
            None => {},
        }
        match minimum_calls {
            Some(v) => s.minimum_calls = v,
            None => {},
        }
        match expiration_threshold {
            Some(v) => s.expiration_threshold = v,
            None => {},
        }
        match trials {
            Some(v) => s.trials = v,
            None => {},
        }
        match metadata {
            Some(v) => s.metadata = v,
            None => {},
        }
        let version = s.version.wrapping_add(1);
        s.version = version;
        self.services.insert(j, s);
        assert(self.services@ =~= old(self).services@.update(j as int,
            updated_service(old(self).services@[j as int], name, price, minimum_calls, expiration_threshold, trials, metadata)));
        proof {
            reveal_with_fuel(escrow_inflow, 1);
        }
        Ok(Dispatched { ops: Vec::new(), event: Event::ServiceUpdated { id: sid, owner: caller, organization: org, version } })
    }

    /// Replaces the live-Service count of the Organization at `oi`.
    fn set_org_services(&mut self, oi: usize, services: u32)
        requires
            oi < old(self).organizations@.len(),
        ensures
            final(self).organizations@ == old(self).organizations@.update(oi as int, with_services(old(self).organizations@[oi as int], services)),
            final(self).config == old(self).config,
            final(self).escrow == old(self).escrow,
            final(self).members == old(self).members,
            final(self).services == old(self).services,
            final(self).channels == old(self).channels,
    {
        let mut o = self.organizations.remove(oi);
        o.services = services;
        self.organizations.insert(oi, o);
        assert(self.organizations@ =~= old(self).organizations@.update(oi as int, with_services(old(self).organizations@[oi as int], services)));
    }

    /// Creates the Organization `name` of `caller`, registering the initial
    /// members with rank 1 and `caller` with rank 0, and reserving the
    /// organization deposit.
    pub fn create_organization(
        &mut self,
        caller: AccountId,
        name: Vec<u8>,
        members: Option<Vec<AccountId>>,
        metadata: Vec<u8>,
    ) -> (r: Result<Dispatched, Error>)
        requires
            name@.len() <= u32::MAX,
        ensures
            final(self).same_config(old(self)),
            final(self).services == old(self).services,
            final(self).channels == old(self).channels,
            r is Err ==> *final(self) == *old(self),
            conserves_escrow(r, old(self).channels@, final(self).channels@, old(self).escrow),
            ({
                let oid = name_id(caller@, name@);
                let o = final(self).organizations@.last();
                if first_index(old(self).organizations@, org_key(caller, oid)) is Some {
                    r == Err::<Dispatched, Error>(Error::OrganizationExists)
                } else {
                    &&& final(self).organizations@ == old(self).organizations@.push(o)
                    &&& o.id@ == oid
                    &&& o == (Organization { id: o.id, owner: caller, services: 0, name,
                        members: member_count(final(self).members@, oid), metadata })
                    &&& forall|a: AccountId| #[trigger] rank_of(final(self).members@, oid, a) == match initial_rank(caller, members, a) {
                        Some(k) => Some(k),
                        None => rank_of(old(self).members@, oid, a),
                    }
                    &&& forall|g: Seq<u8>, a: AccountId| g != oid ==>
                        #[trigger] rank_of(final(self).members@, g, a) == rank_of(old(self).members@, g, a)
                    &&& dispatched(r,
                        seq![LedgerOp::Reserve { who: caller, amount: old(self).config.organization_deposit }],
                        Event::OrganizationCreated { id: o.id, owner: caller, members: o.members })
                }
            }),
    {
        let id = Self::hash_name(caller, &name);
        if self.find_organization(&caller, &id).is_some() {
            return Err(Error::OrganizationExists);
        }
        match &members {
            Some(list) => {
                let mut k: usize = 0;
                while k < list.len()
                    invariant
                        0 <= k <= list@.len(),
                        self.same_config(old(self)),
                        self.organizations == old(self).organizations,
                        self.services == old(self).services,
                        self.channels == old(self).channels,
                        forall|a: AccountId| #[trigger] rank_of(self.members@, id@, a) ==
                            if list@.subrange(0, k as int).contains(a) { Some(1u32) } else { rank_of(old(self).members@, id@, a) },
                        forall|g: Seq<u8>, a: AccountId| g != id@ ==>
                            #[trigger] rank_of(self.members@, g, a) == rank_of(old(self).members@, g, a),
                    decreases list@.len() - k,
                {
                    self.register_member(&id, &list[k], 1);
                    proof {
                        assert forall|a: AccountId| #[trigger] rank_of(self.members@, id@, a) ==
                            if list@.subrange(0, k + 1).contains(a) { Some(1u32) } else { rank_of(old(self).members@, id@, a) } by {
                            assert(list@.subrange(0, k + 1) =~= list@.subrange(0, k as int).push(list@[k as int]));
                            if a == list@[k as int] {
                                assert(list@.subrange(0, k + 1)[k as int] == a);
                            } else {
                                assert(list@.subrange(0, k + 1).contains(a) == list@.subrange(0, k as int).contains(a)) by {
                                    if list@.subrange(0, k as int).contains(a) {
                                        let x = choose|x: int| 0 <= x < k && list@.subrange(0, k as int)[x] == a;
                                        assert(list@.subrange(0, k + 1)[x] == a);
                                    }
                                }
                            }
                        }
                    }
                    k = k + 1;
                }
                assert(list@.subrange(0, k as int) =~= list@);
            },
            None => {},
        }
        self.register_member(&id, &caller, 0);
        let count = self.count_members(&id);
        self.organizations.push(Organization { id, owner: caller, services: 0, name, members: count, metadata });
        let mut ops: Vec<LedgerOp> = Vec::new();
        ops.push(LedgerOp::Reserve { who: caller, amount: self.config.organization_deposit });
        assert(ops@ =~= seq![LedgerOp::Reserve { who: caller, amount: old(self).config.organization_deposit }]);
        proof {
            assert(ops@.drop_last() =~= Seq::<LedgerOp>::empty());
            reveal_with_fuel(escrow_inflow, 2);
        }
        Ok(Dispatched { ops, event: Event::OrganizationCreated { id, owner: caller, members: count } })
    }

    /// Deletes the Organization `name` of `caller` and its whole membership
    /// registry, returning the organization deposit. Its Services stay.
    pub fn delete_organization(&mut self, caller: AccountId, name: Vec<u8>) -> (r: Result<Dispatched, Error>)
        requires
            name@.len() <= u32::MAX,
        ensures
            final(self).same_config(old(self)),
            final(self).services == old(self).services,
            final(self).channels == old(self).channels,
            r is Err ==> *final(self) == *old(self),
            conserves_escrow(r, old(self).channels@, final(self).channels@, old(self).escrow),
            ({
                let oid = name_id(caller@, name@);
                match first_index(old(self).organizations@, org_key(caller, oid)) {
                    None => r == Err::<Dispatched, Error>(Error::OrganizationNotFound),
                    Some(oi) => {
                        let o = old(self).organizations@[oi];
                        &&& final(self).organizations@ == old(self).organizations@.remove(oi)
                        &&& final(self).members@ == old(self).members@.filter(not_in_org(oid))
                        &&& dispatched(r,
                            seq![LedgerOp::Unreserve { who: caller, amount: old(self).config.organization_deposit }],
                            Event::OrganizationDeleted { id: o.id, owner: caller })
                    },
                }
            }),
    {
        let id = Self::hash_name(caller, &name);
        let oi = match self.find_organization(&caller, &id) {
            Some(oi) => oi,
            None => return Err(Error::OrganizationNotFound),
        };
        proof {
            assert(is_first(self.organizations@, org_key(caller, id@), oi as int));
            assert(self.organizations@[oi as int].id =~= id);
        }
        if !same_id(&caller, &self.organizations[oi].owner) {
            return Err(Error::OrganizationNotOwner);
        }
        self.organizations.remove(oi);
        self.drain_members(&id);
        let mut ops: Vec<LedgerOp> = Vec::new();
        ops.push(LedgerOp::Unreserve { who: caller, amount: self.config.organization_deposit });
        assert(ops@ =~= seq![LedgerOp::Unreserve { who: caller, amount: old(self).config.organization_deposit }]);
        proof {
            assert(ops@.drop_last() =~= Seq::<LedgerOp>::empty());
            reveal_with_fuel(escrow_inflow, 2);
        }
        Ok(Dispatched { ops, event: Event::OrganizationDeleted { id, owner: caller } })
    }

    /// Sets the rank of `account` in `organization`, adding it if absent.
    fn register_member(&mut self, organization: &HashId, account: &AccountId, rank: u32)
        ensures
            rank_of(final(self).members@, organization@, *account) == Some(rank),
            forall|g: Seq<u8>, a: AccountId| !(g == organization@ && a == *account) ==>
                #[trigger] rank_of(final(self).members@, g, a) == rank_of(old(self).members@, g, a),
            final(self).config == old(self).config,
            final(self).escrow == old(self).escrow,
            final(self).organizations == old(self).organizations,
            final(self).services == old(self).services,
            final(self).channels == old(self).channels,
    {
        let m = Member { organization: *organization, account: *account, rank };
        let ghost s = self.members@;
        match self.find_member(organization, account) {
            Some(i) => {
                self.members.set(i, m);
                proof {
                    lemma_update_same(s, member_key(organization@, *account), i as int, m);
                    assert forall|g: Seq<u8>, a: AccountId| !(g == organization@ && a == *account) implies
                        #[trigger] rank_of(self.members@, g, a) == rank_of(s, g, a) by {
                        lemma_update_other(s, member_key(g, a), i as int, m);
                    }
                }
            },
            None => {
                self.members.push(m);
                proof {
                    lemma_push_new(s, member_key(organization@, *account), m);
                    assert forall|g: Seq<u8>, a: AccountId| !(g == organization@ && a == *account) implies
                        #[trigger] rank_of(self.members@, g, a) == rank_of(s, g, a) by {
                        lemma_push_other(s, member_key(g, a), m);
                    }
                }
            },
        }
    }

    /// Counts the members of `organization`.
    fn count_members(&self, organization: &HashId) -> (r: u32)
        ensures
            r == member_count(self.members@, organization@),
    {
        let s = &self.members;
        let mut n: usize = 0;
        let mut i: usize = 0;
        while i < s.len()
            invariant
                0 <= i <= s@.len(),
                n == s@.take(i as int).filter(in_org(organization@)).len(),
                n <= i,
            decreases s@.len() - i,
        {
            assert(s@.take(i + 1).drop_last() =~= s@.take(i as int));
            assert(s@.take(i + 1).last() == s@[i as int]);
            reveal(Seq::filter);
            assert(s@.take(i + 1).filter(in_org(organization@)) == if in_org(organization@)(s@[i as int]) {
                s@.take(i as int).filter(in_org(organization@)).push(s@[i as int])
            } else {
                s@.take(i as int).filter(in_org(organization@))
            });
            if same_id(&s[i].organization, organization) {
                n = n + 1;
            }
            i = i + 1;
        }
        assert(s@.take(i as int) =~= s@);
        if n <= 4294967295 {
            n as u32
        } else {
            u32::MAX
        }
    }

    /// Removes every member of `organization`.
    fn drain_members(&mut self, organization: &HashId)
        ensures
            final(self).members@ == old(self).members@.filter(not_in_org(organization@)),
            final(self).config == old(self).config,
            final(self).escrow == old(self).escrow,
            final(self).organizations == old(self).organizations,
            final(self).services == old(self).services,
            final(self).channels == old(self).channels,
    {
        let mut kept: Vec<Member> = Vec::new();
        let mut i: usize = 0;
        while i < self.members.len()
            invariant
                0 <= i <= self.members@.len(),
                self.members == old(self).members,
                kept@ == self.members@.take(i as int).filter(not_in_org(organization@)),
            decreases self.members@.len() - i,
        {
            assert(self.members@.take(i + 1).drop_last() =~= self.members@.take(i as int));
            assert(self.members@.take(i + 1).last() == self.members@[i as int]);
            reveal(Seq::filter);
            assert(self.members@.take(i + 1).filter(not_in_org(organization@)) == if not_in_org(organization@)(self.members@[i as int]) {
                self.members@.take(i as int).filter(not_in_org(organization@)).push(self.members@[i as int])
            } else {
                self.members@.take(i as int).filter(not_in_org(organization@))
            });
            let m = self.members[i];
            if !same_id(&m.organization, organization) {
                kept.push(m);
            }
            i = i + 1;
        }
        assert(self.members@.take(i as int) =~= self.members@);
        self.members = kept;
    }

    /// Replaces the live-Channel count of the Service at `j`.
    fn set_service_channels(&mut self, j: usize, channels: u32)
        requires
            j < old(self).services@.len(),
        ensures
            final(self).services@ == old(self).services@.update(j as int, with_channels(old(self).services@[j as int], channels)),
            final(self).config == old(self).config,
            final(self).escrow == old(self).escrow,
            final(self).organizations == old(self).organizations,
            final(self).members == old(self).members,
            final(self).channels == old(self).channels,
    {
        let mut s = self.services.remove(j);
        s.channels = channels;
        self.services.insert(j, s);
        assert(self.services@ =~= old(self).services@.update(j as int, with_channels(old(self).services@[j as int], channels)));
    }
}

} // verus!
