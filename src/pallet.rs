//! The entity registry: identifier allocation, the entity store, ownership,
//! parentage and the marketplace.
use vstd::prelude::*;
use std::collections::HashMap;
use crate::migrations::{decode_kitty, RecordStore};
use crate::dna::{cross, cross_spec, random_value, random_value_spec};
use crate::{AccountId, Balance, KittyId};

verus! {

broadcast use vstd::std_specs::hash::group_hash_axioms;

/// An entity record of the current layout.
#[derive(Clone, Copy, Debug, PartialEq, Eq)]
pub struct Kitty {
    /// The genetic payload.
    pub dna: [u8; 16],
    /// The entity's name.
    pub name: [u8; 8],
}

/// Who asks for an operation.
#[derive(Clone, Copy, Debug, PartialEq, Eq, Structural)]
pub enum Origin {
    /// An account that signed the request.
    Signed(AccountId),
    /// The host itself.
    Root,
    /// Nobody in particular.
    Unsigned,
}

/// Failures that the host ledger's currency reports for a transfer.
#[derive(Clone, Copy, Debug, PartialEq, Eq, Structural)]
pub enum CurrencyError {
    /// The payer cannot cover the amount.
    InsufficientFunds,
    /// The payer's balance would drop below the minimum viable balance.
    ExistentialDeposit,
}

/// Failures of the registry's own rules.
#[derive(Clone, Copy, Debug, PartialEq, Eq, Structural)]
pub enum Error {
    /// The referenced entity does not exist.
    InvalidKittyId,
    /// Breeding was asked with the same entity twice.
    SameKittyId,
    /// The requester does not own the entity.
    NotOwner,
    /// No identifier is left to allocate.
    KittyIdOverflow,
    /// The entity is listed already.
    AlreadyOnSale,
    /// The entity is not listed.
    NotOnSale,
    /// The entity has no owner.
    NoOwner,
    /// The buyer owns the entity already.
    AlreadyOwned,
}

/// Why an operation failed.
#[derive(Clone, Copy, Debug, PartialEq, Eq, Structural)]
pub enum DispatchError {
    /// The operation needs a signed origin.
    BadOrigin,
    /// A rule of the registry refused the operation.
    Module(Error),
    /// The currency transfer failed.
    Currency(CurrencyError),
}

/// A record of a successful operation.
#[derive(Clone, Copy, Debug, PartialEq, Eq)]
pub enum Event {
    /// `who` created `kitty` under `kitty_id`.
    KittyCreated { who: AccountId, kitty_id: KittyId, kitty: Kitty },
    /// `who` bred `kitty` under `kitty_id`.
    KittyBreed { who: AccountId, kitty_id: KittyId, kitty: Kitty },
    /// `who` handed `kitty_id` to `recipient`.
    KittyTransferred { who: AccountId, recipient: AccountId, kitty_id: KittyId },
    /// `who` listed `kitty_id` for sale.
    KittyOnSale { who: AccountId, kitty_id: KittyId },
    /// `who` bought `kitty_id`.
    KittyBought { who: AccountId, kitty_id: KittyId },
}

/// One payment asked of the host's currency: payer, payee, amount, and
/// what the currency answered.
pub type Payment = (AccountId, AccountId, Balance, Result<(), CurrencyError>);

/// The services that the host provides to the registry.  The host is
/// modelled by the payments it was asked for, the configured price and the
/// escrow account.  A host verified with this crate defines the three model
/// functions; the bodies given here only let hosts written outside
/// verification compile, and make no claim about them.
pub trait Config {
    /// Every payment asked of the host so far, oldest first.
    closed spec fn transfers(&self) -> Seq<Payment> {
        Seq::empty()
    }

    /// The configured price.
    closed spec fn price(&self) -> Balance {
        0
    }

    /// The escrow account.
    closed spec fn escrow(&self) -> AccountId {
        0
    }

    /// A fresh value of the host's randomness beacon.
    fn random_seed(&self) -> [u8; 32];

    /// Position of the current request within its batch.
    fn extrinsic_index(&self) -> Option<u32>;

    /// The fixed price of creating, breeding and buying an entity.
    fn kitty_price(&self) -> (r: Balance)
        ensures
            r == self.price(),
    ;

    /// The escrow account that creation and breeding pay to.
    fn account_id(&self) -> (r: AccountId)
        ensures
            r == self.escrow(),
    ;

    /// Moves `value` from `source` to `dest`, keeping `source` alive; on an
    /// error nothing has moved.  The payment and its answer are recorded.
    fn transfer(&mut self, source: AccountId, dest: AccountId, value: Balance) -> (r: Result<
        (),
        CurrencyError,
    >)
        ensures
            final(self).transfers() == old(self).transfers().push((source, dest, value, r)),
            final(self).price() == old(self).price(),
            final(self).escrow() == old(self).escrow(),
    ;
}

/// The registry's state seen as mathematical maps.
pub struct PalletView {
    pub next_kitty_id: KittyId,
    pub kitties: Map<KittyId, Kitty>,
    pub owners: Map<KittyId, AccountId>,
    pub on_sale: Set<KittyId>,
    pub parents: Map<KittyId, (KittyId, KittyId)>,
    pub events: Seq<Event>,
}

impl PalletView {
    /// The indexes agree: every entity has exactly one owner, every
    /// identifier in use lies below the counter, listings and parentage
    /// refer to existing entities, and parents predate their child.
    pub open spec fn wf(self) -> bool {
        &&& self.owners.dom() == self.kitties.dom()
        &&& forall|id: KittyId| #[trigger] self.kitties.contains_key(id) ==> id < self.next_kitty_id
        &&& forall|id: KittyId| #[trigger] self.on_sale.contains(id) ==> self.kitties.contains_key(id)
        &&& forall|id: KittyId| #[trigger]
            self.parents.contains_key(id) ==> {
                let (a, b) = self.parents[id];
                &&& self.kitties.contains_key(id)
                &&& self.kitties.contains_key(a)
                &&& self.kitties.contains_key(b)
                &&& a != b
                &&& a < id
                &&& b < id
            }
    }
}

/// The account that signed `origin`, or `BadOrigin`.
pub open spec fn signer(origin: Origin) -> Result<AccountId, DispatchError> {
    match origin {
        Origin::Signed(who) => Ok(who),
        _ => Err(DispatchError::BadOrigin),
    }
}

/// Returns the account that signed `origin`, or fails with `BadOrigin`.
pub fn ensure_signed(origin: Origin) -> (r: Result<AccountId, DispatchError>)
    ensures
        r == signer(origin),
{
    match origin {
        Origin::Signed(who) => Ok(who),
        _ => Err(DispatchError::BadOrigin),
    }
}

/// The checks of a transfer: `InvalidKittyId` without an owner entry,
/// `NotOwner` when the requester is not the owner.
pub open spec fn transfer_check(s: PalletView, origin: Origin, kitty_id: KittyId) -> Result<
    AccountId,
    DispatchError,
> {
    match signer(origin) {
        Err(e) => Err(e),
        Ok(who) => if !s.owners.contains_key(kitty_id) {
            Err(DispatchError::Module(Error::InvalidKittyId))
        } else if s.owners[kitty_id] != who {
            Err(DispatchError::Module(Error::NotOwner))
        } else {
            Ok(who)
        },
    }
}

/// The state after `who` handed `kitty_id` to `recipient`.
pub open spec fn transferred(s: PalletView, who: AccountId, recipient: AccountId, kitty_id: KittyId) -> PalletView {
    PalletView {
        owners: s.owners.insert(kitty_id, recipient),
        events: s.events.push(Event::KittyTransferred { who, recipient, kitty_id }),
        ..s
    }
}

/// The checks of a listing: `InvalidKittyId` for a missing entity,
/// `NotOwner` when the requester is not the owner, `AlreadyOnSale` when it
/// is listed already.
pub open spec fn sale_check(s: PalletView, origin: Origin, kitty_id: KittyId) -> Result<
    AccountId,
    DispatchError,
> {
    match signer(origin) {
        Err(e) => Err(e),
        Ok(who) => if !s.kitties.contains_key(kitty_id) {
            Err(DispatchError::Module(Error::InvalidKittyId))
        } else if !(s.owners.contains_key(kitty_id) && s.owners[kitty_id] == who) {
            Err(DispatchError::Module(Error::NotOwner))
        } else if s.on_sale.contains(kitty_id) {
            Err(DispatchError::Module(Error::AlreadyOnSale))
        } else {
            Ok(who)
        },
    }
}

/// The state after `who` listed `kitty_id`.
pub open spec fn listed(s: PalletView, who: AccountId, kitty_id: KittyId) -> PalletView {
    PalletView {
        on_sale: s.on_sale.insert(kitty_id),
        events: s.events.push(Event::KittyOnSale { who, kitty_id }),
        ..s
    }
}

/// The checks of a creation: the counter must have room for one more
/// identifier.
pub open spec fn create_check(s: PalletView, origin: Origin) -> Result<AccountId, DispatchError> {
    match signer(origin) {
        Err(e) => Err(e),
        Ok(who) => if s.next_kitty_id == KittyId::MAX {
            Err(DispatchError::Module(Error::KittyIdOverflow))
        } else {
            Ok(who)
        },
    }
}

/// The state after `who` was given `kitty` under the next identifier.
pub open spec fn created(s: PalletView, who: AccountId, kitty: Kitty) -> PalletView {
    PalletView {
        next_kitty_id: (s.next_kitty_id + 1) as KittyId,
        kitties: s.kitties.insert(s.next_kitty_id, kitty),
        owners: s.owners.insert(s.next_kitty_id, who),
        events: s.events.push(Event::KittyCreated { who, kitty_id: s.next_kitty_id, kitty }),
        ..s
    }
}

/// `dna` was derived for `who` from some randomness seed and batch position.
pub open spec fn is_random_payload(who: AccountId, dna: Seq<u8>) -> bool {
    exists|seed: [u8; 32], index: Option<u32>| dna == #[trigger] random_value_spec(seed@, who, index)
}

/// The checks of breeding: `SameKittyId` for equal parents, before anything
/// else is looked at; `InvalidKittyId` for a missing parent; then room for
/// one more identifier.  The requester need not own the parents.
pub open spec fn breed_check(s: PalletView, origin: Origin, kitty_id_1: KittyId, kitty_id_2: KittyId) -> Result<
    AccountId,
    DispatchError,
> {
    match signer(origin) {
        Err(e) => Err(e),
        Ok(who) => if kitty_id_1 == kitty_id_2 {
            Err(DispatchError::Module(Error::SameKittyId))
        } else if !s.kitties.contains_key(kitty_id_1) || !s.kitties.contains_key(kitty_id_2) {
            Err(DispatchError::Module(Error::InvalidKittyId))
        } else if s.next_kitty_id == KittyId::MAX {
            Err(DispatchError::Module(Error::KittyIdOverflow))
        } else {
            Ok(who)
        },
    }
}

/// The state after `who` bred `kitty` from the two parents under the next
/// identifier.
pub open spec fn bred(s: PalletView, who: AccountId, kitty_id_1: KittyId, kitty_id_2: KittyId, kitty: Kitty) -> PalletView {
    PalletView {
        next_kitty_id: (s.next_kitty_id + 1) as KittyId,
        kitties: s.kitties.insert(s.next_kitty_id, kitty),
        owners: s.owners.insert(s.next_kitty_id, who),
        parents: s.parents.insert(s.next_kitty_id, (kitty_id_1, kitty_id_2)),
        events: s.events.push(Event::KittyBreed { who, kitty_id: s.next_kitty_id, kitty }),
        ..s
    }
}

/// `dna` is a crossover of the two parent payloads under a selector derived
/// for `who` from some randomness seed and batch position.
pub open spec fn is_crossed_payload(who: AccountId, a: Seq<u8>, b: Seq<u8>, dna: Seq<u8>) -> bool {
    exists|seed: [u8; 32], index: Option<u32>|
        dna == cross_spec(a, b, #[trigger] random_value_spec(seed@, who, index))
}

/// The checks of a purchase, in this order: `InvalidKittyId` for a missing
/// entity, `NoOwner` without an owner entry, `AlreadyOwned` when the buyer
/// owns it, `NotOnSale` when it is not listed.  Gives the buyer and the
/// owner.
pub open spec fn buy_check(s: PalletView, origin: Origin, kitty_id: KittyId) -> Result<
    (AccountId, AccountId),
    DispatchError,
> {
    match signer(origin) {
        Err(e) => Err(e),
        Ok(who) => if !s.kitties.contains_key(kitty_id) {
            Err(DispatchError::Module(Error::InvalidKittyId))
        } else if !s.owners.contains_key(kitty_id) {
            Err(DispatchError::Module(Error::NoOwner))
        } else if s.owners[kitty_id] == who {
            Err(DispatchError::Module(Error::AlreadyOwned))
        } else if !s.on_sale.contains(kitty_id) {
            Err(DispatchError::Module(Error::NotOnSale))
        } else {
            Ok((who, s.owners[kitty_id]))
        },
    }
}

/// The state after `who` bought `kitty_id`: the buyer owns it and it is no
/// longer listed.
pub open spec fn bought(s: PalletView, who: AccountId, kitty_id: KittyId) -> PalletView {
    PalletView {
        owners: s.owners.insert(kitty_id, who),
        on_sale: s.on_sale.remove(kitty_id),
        events: s.events.push(Event::KittyBought { who, kitty_id }),
        ..s
    }
}

/// The host was asked for exactly one payment, of the configured price from
/// `payer` to `payee`, and its configuration did not change.
pub open spec fn paid_once<T: Config>(before: T, after: T, payer: AccountId, payee: AccountId) -> bool {
    &&& after.transfers().len() == before.transfers().len() + 1
    &&& after.transfers() == before.transfers().push(
        (payer, payee, before.price(), after.transfers().last().3),
    )
    &&& after.price() == before.price()
    &&& after.escrow() == before.escrow()
}

/// `kitty` is what the current-layout record `bytes` decodes to.
pub open spec fn decodes_to(bytes: Seq<u8>, kitty: Kitty) -> bool {
    &&& bytes.len() >= 24
    &&& kitty.dna@ == bytes.subrange(0, 16)
    &&& kitty.name@ == bytes.subrange(16, 24)
}

/// The registry: the counter and the four keyed indexes, with the records
/// of the operations that succeeded.
#[derive(Clone, Debug, PartialEq, Eq)]
pub struct Pallet {
    next_kitty_id: KittyId,
    kitties: HashMap<KittyId, Kitty>,
    kitty_owner: HashMap<KittyId, AccountId>,
    kitty_on_sale: HashMap<KittyId, ()>,
    kitty_parents: HashMap<KittyId, (KittyId, KittyId)>,
    events: Vec<Event>,
}

impl View for Pallet {
    type V = PalletView;

    closed spec fn view(&self) -> PalletView {
        PalletView {
            next_kitty_id: self.next_kitty_id,
            kitties: self.kitties@,
            owners: self.kitty_owner@,
            on_sale: self.kitty_on_sale@.dom(),
            parents: self.kitty_parents@,
            events: self.events@,
        }
    }
}

impl Pallet {
    /// An empty registry whose counter starts at zero.
    pub fn new() -> (r: Pallet)
        ensures
            r@.wf(),
            r@.next_kitty_id == 0,
            r@.kitties.is_empty(),
            r@.owners.is_empty(),
            r@.on_sale.is_empty(),
            r@.parents.is_empty(),
            r@.events.len() == 0,
    {
        Pallet {
            next_kitty_id: 0,
            kitties: HashMap::new(),
            kitty_owner: HashMap::new(),
            kitty_on_sale: HashMap::new(),
            kitty_parents: HashMap::new(),
            events: Vec::new(),
        }
    }

    /// The identifier that the next creation or breeding will take.
    pub fn next_kitty_id(&self) -> (r: KittyId)
        ensures
            r == self@.next_kitty_id,
    {
        self.next_kitty_id
    }

    /// Moves the counter forward to `next_kitty_id`, as a host may when it
    /// sets up a state.
    pub fn set_next_kitty_id(&mut self, next_kitty_id: KittyId)
        requires
            old(self)@.wf(),
            next_kitty_id >= old(self)@.next_kitty_id,
        ensures
            final(self)@.wf(),
            final(self)@ == (PalletView { next_kitty_id, ..old(self)@ }),
    {
        self.next_kitty_id = next_kitty_id;
    }

    /// The record of `kitty_id`, if it exists.
    pub fn kitties(&self, kitty_id: KittyId) -> (r: Option<Kitty>)
        ensures
            r == (if self@.kitties.contains_key(kitty_id) {
                Some(self@.kitties[kitty_id])
            } else {
                None
            }),
    {
        match self.kitties.get(&kitty_id) {
            Some(k) => Some(*k),
            None => None,
        }
    }

    /// The owner of `kitty_id`, if it has one.
    pub fn kitty_owner(&self, kitty_id: KittyId) -> (r: Option<AccountId>)
        ensures
            r == (if self@.owners.contains_key(kitty_id) {
                Some(self@.owners[kitty_id])
            } else {
                None
            }),
    {
        match self.kitty_owner.get(&kitty_id) {
            Some(owner) => Some(*owner),
            None => None,
        }
    }

    /// `Some(())` when `kitty_id` is listed for sale.
    pub fn kitty_on_sale(&self, kitty_id: KittyId) -> (r: Option<()>)
        ensures
            r is Some <==> self@.on_sale.contains(kitty_id),
    {
        if self.kitty_on_sale.contains_key(&kitty_id) {
            Some(())
        } else {
            None
        }
    }

    /// The two parents of `kitty_id`, when it was bred.
    pub fn kitty_parents(&self, kitty_id: KittyId) -> (r: Option<(KittyId, KittyId)>)
        ensures
            r == (if self@.parents.contains_key(kitty_id) {
                Some(self@.parents[kitty_id])
            } else {
                None
            }),
    {
        match self.kitty_parents.get(&kitty_id) {
            Some(p) => Some(*p),
            None => None,
        }
    }

    /// The record of the latest successful operation.
    pub fn last_event(&self) -> (r: Option<Event>)
        ensures
            r == (if self@.events.len() > 0 {
                Some(self@.events.last())
            } else {
                None
            }),
    {
        let n = self.events.len();
        if n > 0 {
            Some(self.events[n - 1])
        } else {
            None
        }
    }

    /// Takes the records of existing entities from `store`, which holds
    /// records of the current layout, as after a migration: each entity
    /// whose stored record decodes gets that record; the others, and the
    /// stored records of identifiers that the registry does not hold, are
    /// left as they are.  Owners, listings, parentage, the counter and the
    /// event records do not change.
    pub fn load_records(&mut self, store: &RecordStore)
        requires
            old(self)@.wf(),
            store.wf(),
        ensures
            final(self)@.wf(),
            final(self)@ == (PalletView { kitties: final(self)@.kitties, ..old(self)@ }),
            final(self)@.kitties.dom() == old(self)@.kitties.dom(),
            forall|k: KittyId| #[trigger]
                old(self)@.kitties.contains_key(k) ==> if store@.contains_key(k) && store@[k].len() >= 24 {
                    decodes_to(store@[k], final(self)@.kitties[k])
                } else {
                    final(self)@.kitties[k] == old(self)@.kitties[k]
                },
    {
        let ids = store.ids();
        let mut i: usize = 0;
        while i < ids.len()
            invariant
                old(self)@.wf(),
                i <= ids@.len(),
                ids@.no_duplicates(),
                forall|k: KittyId| #[trigger] ids@.contains(k) <==> store@.contains_key(k),
                self@ == (PalletView { kitties: self@.kitties, ..old(self)@ }),
                self@.kitties.dom() == old(self)@.kitties.dom(),
                forall|k: KittyId| #[trigger]
                    old(self)@.kitties.contains_key(k) ==> if ids@.subrange(0, i as int).contains(k)
                        && store@[k].len() >= 24 {
                        decodes_to(store@[k], self@.kitties[k])
                    } else {
                        self@.kitties[k] == old(self)@.kitties[k]
                    },
            decreases ids@.len() - i,
        {
            let id = ids[i];
            let ghost done = ids@.subrange(0, i as int);
            let ghost next = ids@.subrange(0, i + 1);
            assert(next =~= done.push(id));
            assert(!done.contains(id)) by {
                assert forall|j: int| 0 <= j < done.len() implies done[j] != id by {
                    assert(ids@[j] == done[j]);
                }
            }
            assert(ids@.contains(id)) by {
                assert(ids@[i as int] == id);
            }
            let ghost before = self@.kitties;
            if self.kitties.contains_key(&id) {
                match store.get(id) {
                    Some(bytes) => match decode_kitty(bytes.as_slice()) {
                        Some(kitty) => {
                            self.kitties.insert(id, kitty);
                        },
                        None => {},
                    },
                    None => {},
                }
            }
            assert(self@.kitties.dom() =~= old(self)@.kitties.dom());
            assert forall|k: KittyId| #[trigger] old(self)@.kitties.contains_key(k) implies if next.contains(k)
                && store@[k].len() >= 24 {
                decodes_to(store@[k], self@.kitties[k])
            } else {
                self@.kitties[k] == old(self)@.kitties[k]
            } by {
                if k != id {
                    assert(self@.kitties[k] == before[k]);
                    if next.contains(k) {
                        let j = choose|j: int| 0 <= j < next.len() && next[j] == k;
                        assert(done[j] == k);
                    }
                    if done.contains(k) {
                        let j = choose|j: int| 0 <= j < done.len() && done[j] == k;
                        assert(next[j] == k);
                    }
                } else {
                    assert(next[i as int] == k);
                }
            }
            i = i + 1;
        }
        assert(ids@.subrange(0, i as int) =~= ids@);
    }

    /// Allocates an identifier: returns the counter and advances it by one,
    /// or fails with `KittyIdOverflow`, leaving it as it was, when the
    /// counter is at its largest value.
    fn get_next_id(&mut self) -> (r: Result<KittyId, DispatchError>)
        ensures
            old(self).next_kitty_id == KittyId::MAX ==> r == Err::<KittyId, DispatchError>(
                DispatchError::Module(Error::KittyIdOverflow),
            ) && *final(self) == *old(self),
            old(self).next_kitty_id < KittyId::MAX ==> r == Ok::<KittyId, DispatchError>(
                old(self).next_kitty_id,
            ) && final(self).next_kitty_id == old(self).next_kitty_id + 1,
            final(self).kitties == old(self).kitties,
            final(self).kitty_owner == old(self).kitty_owner,
            final(self).kitty_on_sale == old(self).kitty_on_sale,
            final(self).kitty_parents == old(self).kitty_parents,
            final(self).events == old(self).events,
    {
        let current_id = self.next_kitty_id;
        match current_id.checked_add(1) {
            Some(next) => {
                self.next_kitty_id = next;
                Ok(current_id)
            },
            None => Err(DispatchError::Module(Error::KittyIdOverflow)),
        }
    }

    /// Creates an entity with a random payload and the given name for the
    /// requester, who pays the configured price to the escrow account.  The
    /// entity takes the counter's value as its identifier.  When the payment
    /// fails nothing changes.
    pub fn creat<T: Config>(&mut self, host: &mut T, origin: Origin, name: [u8; 8]) -> (r: Result<(), DispatchError>)
        requires
            old(self)@.wf(),
        ensures
            final(self)@.wf(),
            match create_check(old(self)@, origin) {
                Err(e) => {
                    &&& r == Err::<(), DispatchError>(e)
                    &&& final(self)@ == old(self)@
                    &&& *final(host) == *old(host)
                },
                Ok(who) => {
                    let paid = final(host).transfers().last().3;
                    &&& paid_once(*old(host), *final(host), who, old(host).escrow())
                    &&& match paid {
                        Ok(_) => {
                            let kitty = final(self)@.kitties[old(self)@.next_kitty_id];
                            &&& r is Ok
                            &&& final(self)@ == created(old(self)@, who, kitty)
                            &&& kitty.name == name
                            &&& is_random_payload(who, kitty.dna@)
                        },
                        Err(e) => r == Err::<(), DispatchError>(DispatchError::Currency(e))
                            && final(self)@ == old(self)@,
                    }
                },
            },
    {
        let who = match ensure_signed(origin) {
            Ok(who) => who,
            Err(e) => return Err(e),
        };
        let kitty_id = match self.get_next_id() {
            Ok(id) => id,
            Err(e) => return Err(e),
        };
        let seed = host.random_seed();
        let index = host.extrinsic_index();
        let kitty = Kitty { dna: random_value(&seed, who, index), name };
        let price = host.kitty_price();
        let escrow = host.account_id();
        match host.transfer(who, escrow, price) {
            Ok(()) => {},
            Err(e) => {
                self.next_kitty_id = kitty_id;
                return Err(DispatchError::Currency(e));
            },
        }
        self.kitties.insert(kitty_id, kitty);
        self.kitty_owner.insert(kitty_id, who);
        self.events.push(Event::KittyCreated { who, kitty_id, kitty });
        proof {
            let s = old(self)@;
            let t = self@;
            assert(t.kitties[kitty_id] == kitty);
            assert(t == created(s, who, kitty));
            assert(kitty.dna@ == random_value_spec(seed@, who, index));
            assert(t.owners.dom() =~= t.kitties.dom());
            assert forall|id: KittyId| #[trigger] t.kitties.contains_key(id) implies id < t.next_kitty_id by {
                if id != kitty_id {
                    assert(s.kitties.contains_key(id));
                }
            }
            assert forall|id: KittyId| #[trigger] t.on_sale.contains(id) implies t.kitties.contains_key(id) by {
                assert(s.on_sale.contains(id));
            }
            assert forall|id: KittyId| #[trigger] t.parents.contains_key(id) implies {
                let (a, b) = t.parents[id];
                &&& t.kitties.contains_key(id)
                &&& t.kitties.contains_key(a)
                &&& t.kitties.contains_key(b)
                &&& a != b
                &&& a < id
                &&& b < id
            } by {
                assert(s.parents.contains_key(id));
            }
        }
        Ok(())
    }

    /// Breeds a new entity for the requester from two distinct existing
    /// parents, which the requester need not own: its payload crosses the
    /// parents' payloads under a random selector, and its parentage is
    /// recorded.  The requester pays the configured price to the escrow
    /// account; when the payment fails nothing changes.
    pub fn breed<T: Config>(
        &mut self,
        host: &mut T,
        origin: Origin,
        kitty_id_1: KittyId,
        kitty_id_2: KittyId,
        name: [u8; 8],
    ) -> (r: Result<(), DispatchError>)
        requires
            old(self)@.wf(),
        ensures
            final(self)@.wf(),
            match breed_check(old(self)@, origin, kitty_id_1, kitty_id_2) {
                Err(e) => {
                    &&& r == Err::<(), DispatchError>(e)
                    &&& final(self)@ == old(self)@
                    &&& *final(host) == *old(host)
                },
                Ok(who) => {
                    let paid = final(host).transfers().last().3;
                    &&& paid_once(*old(host), *final(host), who, old(host).escrow())
                    &&& match paid {
                        Ok(_) => {
                            let kitty = final(self)@.kitties[old(self)@.next_kitty_id];
                            &&& r is Ok
                            &&& final(self)@ == bred(old(self)@, who, kitty_id_1, kitty_id_2, kitty)
                            &&& kitty.name == name
                            &&& is_crossed_payload(
                                who,
                                old(self)@.kitties[kitty_id_1].dna@,
                                old(self)@.kitties[kitty_id_2].dna@,
                                kitty.dna@,
                            )
                        },
                        Err(e) => r == Err::<(), DispatchError>(DispatchError::Currency(e))
                            && final(self)@ == old(self)@,
                    }
                },
            },
    {
        let who = match ensure_signed(origin) {
            Ok(who) => who,
            Err(e) => return Err(e),
        };
        if kitty_id_1 == kitty_id_2 {
            return Err(DispatchError::Module(Error::SameKittyId));
        }
        if !self.kitties.contains_key(&kitty_id_1) || !self.kitties.contains_key(&kitty_id_2) {
            return Err(DispatchError::Module(Error::InvalidKittyId));
        }
        let kitty_id = match self.get_next_id() {
            Ok(id) => id,
            Err(e) => return Err(e),
        };
        let kitty_1 = match self.kitties.get(&kitty_id_1) {
            Some(k) => *k,
            None => {
                self.next_kitty_id = kitty_id;
                return Err(DispatchError::Module(Error::InvalidKittyId));
            },
        };
        let kitty_2 = match self.kitties.get(&kitty_id_2) {
            Some(k) => *k,
            None => {
                self.next_kitty_id = kitty_id;
                return Err(DispatchError::Module(Error::InvalidKittyId));
            },
        };
        let seed = host.random_seed();
        let index = host.extrinsic_index();
        let selector = random_value(&seed, who, index);
        let kitty = Kitty { dna: cross(&kitty_1.dna, &kitty_2.dna, &selector), name };
        let price = host.kitty_price();
        let escrow = host.account_id();
        match host.transfer(who, escrow, price) {
            Ok(()) => {},
            Err(e) => {
                self.next_kitty_id = kitty_id;
                return Err(DispatchError::Currency(e));
            },
        }
        self.kitties.insert(kitty_id, kitty);
        self.kitty_owner.insert(kitty_id, who);
        self.kitty_parents.insert(kitty_id, (kitty_id_1, kitty_id_2));
        self.events.push(Event::KittyBreed { who, kitty_id, kitty });
        proof {
            let s = old(self)@;
            let t = self@;
            assert(t.kitties[kitty_id] == kitty);
            assert(t == bred(s, who, kitty_id_1, kitty_id_2, kitty));
            assert(kitty.dna@ == cross_spec(
                s.kitties[kitty_id_1].dna@,
                s.kitties[kitty_id_2].dna@,
                random_value_spec(seed@, who, index),
            ));
            assert(t.owners.dom() =~= t.kitties.dom());
            assert forall|id: KittyId| #[trigger] t.kitties.contains_key(id) implies id < t.next_kitty_id by {
                if id != kitty_id {
                    assert(s.kitties.contains_key(id));
                }
            }
            assert forall|id: KittyId| #[trigger] t.on_sale.contains(id) implies t.kitties.contains_key(id) by {
                assert(s.on_sale.contains(id));
            }
            assert forall|id: KittyId| #[trigger] t.parents.contains_key(id) implies {
                let (a, b) = t.parents[id];
                &&& t.kitties.contains_key(id)
                &&& t.kitties.contains_key(a)
                &&& t.kitties.contains_key(b)
                &&& a != b
                &&& a < id
                &&& b < id
            } by {
                if id != kitty_id {
                    assert(s.parents.contains_key(id));
                }
            }
        }
        Ok(())
    }

    /// Hands `kitty_id` from its owner, who must be the requester, to
    /// `recipient`; a transfer to oneself changes nothing but the records.
    pub fn transfer(&mut self, origin: Origin, recipient: AccountId, kitty_id: KittyId) -> (r: Result<(), DispatchError>)
        requires
            old(self)@.wf(),
        ensures
            final(self)@.wf(),
            match transfer_check(old(self)@, origin, kitty_id) {
                Err(e) => r == Err::<(), DispatchError>(e) && final(self)@ == old(self)@,
                Ok(who) => r is Ok && final(self)@ == transferred(old(self)@, who, recipient, kitty_id),
            },
    {
        let who = match ensure_signed(origin) {
            Ok(who) => who,
            Err(e) => return Err(e),
        };
        let owner = match self.kitty_owner.get(&kitty_id) {
            Some(owner) => *owner,
            None => return Err(DispatchError::Module(Error::InvalidKittyId)),
        };
        if owner != who {
            return Err(DispatchError::Module(Error::NotOwner));
        }
        self.kitty_owner.insert(kitty_id, recipient);
        self.events.push(Event::KittyTransferred { who, recipient, kitty_id });
        assert(self@.owners.dom() =~= old(self)@.owners.dom());
        assert(self@.kitties == old(self)@.kitties);
        assert(self@.on_sale == old(self)@.on_sale);
        assert(self@.parents == old(self)@.parents);
        Ok(())
    }

    /// Lists `kitty_id` for sale at the configured price; only its owner may.
    pub fn sale(&mut self, origin: Origin, kitty_id: KittyId) -> (r: Result<(), DispatchError>)
        requires
            old(self)@.wf(),
        ensures
            final(self)@.wf(),
            match sale_check(old(self)@, origin, kitty_id) {
                Err(e) => r == Err::<(), DispatchError>(e) && final(self)@ == old(self)@,
                Ok(who) => r is Ok && final(self)@ == listed(old(self)@, who, kitty_id),
            },
    {
        let who = match ensure_signed(origin) {
            Ok(who) => who,
            Err(e) => return Err(e),
        };
        if !self.kitties.contains_key(&kitty_id) {
            return Err(DispatchError::Module(Error::InvalidKittyId));
        }
        let owned = match self.kitty_owner.get(&kitty_id) {
            Some(owner) => *owner == who,
            None => false,
        };
        if !owned {
            return Err(DispatchError::Module(Error::NotOwner));
        }
        if self.kitty_on_sale.contains_key(&kitty_id) {
            return Err(DispatchError::Module(Error::AlreadyOnSale));
        }
        self.kitty_on_sale.insert(kitty_id, ());
        self.events.push(Event::KittyOnSale { who, kitty_id });
        assert(self@.kitties == old(self)@.kitties);
        assert(self@.parents == old(self)@.parents);
        assert forall|id: KittyId| #[trigger] self@.on_sale.contains(id) implies self@.kitties.contains_key(id) by {
            if id != kitty_id {
                assert(old(self)@.on_sale.contains(id));
            }
        }
        Ok(())
    }
    /// Buys a listed entity from its owner: the buyer pays the configured
    /// price straight to the owner, then owns the entity, which is no longer
    /// listed.  When the payment fails nothing changes.
    pub fn buy<T: Config>(&mut self, host: &mut T, origin: Origin, kitty_id: KittyId) -> (r: Result<(), DispatchError>)
        requires
            old(self)@.wf(),
        ensures
            final(self)@.wf(),
            match buy_check(old(self)@, origin, kitty_id) {
                Err(e) => {
                    &&& r == Err::<(), DispatchError>(e)
                    &&& final(self)@ == old(self)@
                    &&& *final(host) == *old(host)
                },
                Ok((who, owner)) => {
                    let paid = final(host).transfers().last().3;
                    &&& paid_once(*old(host), *final(host), who, owner)
                    &&& match paid {
                        Ok(_) => r is Ok && final(self)@ == bought(old(self)@, who, kitty_id),
                        Err(e) => r == Err::<(), DispatchError>(DispatchError::Currency(e))
                            && final(self)@ == old(self)@,
                    }
                },
            },
    {
        let who = match ensure_signed(origin) {
            Ok(who) => who,
            Err(e) => return Err(e),
        };
        if !self.kitties.contains_key(&kitty_id) {
            return Err(DispatchError::Module(Error::InvalidKittyId));
        }
        let owner = match self.kitty_owner.get(&kitty_id) {
            Some(owner) => *owner,
            None => return Err(DispatchError::Module(Error::NoOwner)),
        };
        if owner == who {
            return Err(DispatchError::Module(Error::AlreadyOwned));
        }
        if !self.kitty_on_sale.contains_key(&kitty_id) {
            return Err(DispatchError::Module(Error::NotOnSale));
        }
        let price = host.kitty_price();
        match host.transfer(who, owner, price) {
            Ok(()) => {},
            Err(e) => return Err(DispatchError::Currency(e)),
        }
        self.kitty_owner.insert(kitty_id, who);
        self.kitty_on_sale.remove(&kitty_id);
        self.events.push(Event::KittyBought { who, kitty_id });
        proof {
            let s = old(self)@;
            let t = self@;
            assert(t == bought(s, who, kitty_id));
            assert(t.owners.dom() =~= s.owners.dom());
            assert(t.kitties == s.kitties);
            assert(t.parents == s.parents);
            assert forall|id: KittyId| #[trigger] t.on_sale.contains(id) implies t.kitties.contains_key(id) by {
                assert(s.on_sale.contains(id));
            }
        }
        Ok(())
    }
}

/// Breeding an entity with itself is refused as `SameKittyId`, whether or
/// not the entity exists.
pub proof fn lemma_breed_same_parent_refused(s: PalletView, who: AccountId, kitty_id: KittyId)
    ensures
        breed_check(s, Origin::Signed(who), kitty_id, kitty_id) == Err::<AccountId, DispatchError>(
            DispatchError::Module(Error::SameKittyId),
        ),
{
}

/// After a successful transfer the recipient owns the entity, and a further
/// transfer by the former owner, when that is another account, is refused
/// as `NotOwner`.
pub proof fn lemma_transfer_moves_ownership(
    s: PalletView,
    owner: AccountId,
    recipient: AccountId,
    kitty_id: KittyId,
)
    requires
        s.wf(),
        transfer_check(s, Origin::Signed(owner), kitty_id) is Ok,
    ensures
        transferred(s, owner, recipient, kitty_id).owners[kitty_id] == recipient,
        transferred(s, owner, recipient, kitty_id).wf(),
        owner != recipient ==> transfer_check(
            transferred(s, owner, recipient, kitty_id),
            Origin::Signed(owner),
            kitty_id,
        ) == Err::<AccountId, DispatchError>(DispatchError::Module(Error::NotOwner)),
{
    let t = transferred(s, owner, recipient, kitty_id);
    assert(t.owners.dom() =~= s.owners.dom());
}

/// Once the owner lists an entity, any other account passes the checks of a
/// purchase from that owner; after the purchase the buyer owns the entity,
/// it is no longer listed, and a purchase by any account but the buyer is
/// refused as `NotOnSale`.
pub proof fn lemma_sell_then_buy(
    s: PalletView,
    seller: AccountId,
    buyer: AccountId,
    other: AccountId,
    kitty_id: KittyId,
)
    requires
        s.wf(),
        sale_check(s, Origin::Signed(seller), kitty_id) is Ok,
        buyer != seller,
    ensures
        buy_check(listed(s, seller, kitty_id), Origin::Signed(buyer), kitty_id) == Ok::<
            (AccountId, AccountId),
            DispatchError,
        >((buyer, seller)),
        bought(listed(s, seller, kitty_id), buyer, kitty_id).owners[kitty_id] == buyer,
        !bought(listed(s, seller, kitty_id), buyer, kitty_id).on_sale.contains(kitty_id),
        other != buyer ==> buy_check(
            bought(listed(s, seller, kitty_id), buyer, kitty_id),
            Origin::Signed(other),
            kitty_id,
        ) == Err::<(AccountId, AccountId), DispatchError>(DispatchError::Module(Error::NotOnSale)),
{
    let s1 = listed(s, seller, kitty_id);
    let s2 = bought(s1, buyer, kitty_id);
    assert(s2.owners.contains_key(kitty_id));
}

} // verus!
