//! The pallet's storage and its dispatchables.
use vstd::prelude::*;
use crate::origin::{ensure_signed, signer, AccountId, ArithmeticError, DispatchError, Origin};
use crate::assoc::{AssocMap, MapKey};
use crate::codec::{encode_option_u32, scale_option_u32};
use crate::kitties_v2::types::{DispatchResult, Error, Event, EventView, Gender, Id, Kitty, Config};
use crate::kitties_v2::laws::{
    lemma_create_kitty_keeps_invariant, lemma_empty_storage_consistent, lemma_transfer_keeps_invariant, lemma_value_calls_keep_invariant,
    storage_invariant,
};
use crate::kitties_v2::model::{
    append_owned, cause_error_outcome, create_kitty_outcome, do_something_outcome, gender_of,
    next_nonce, owned_of, transfer_outcome, without_first, PalletView,
};

verus! {

broadcast use crate::assoc::lemma_bytes_deep_view;

/// The pallet's storage, with the configured `MaxKittyOwned`.
pub struct Pallet {
    something: Option<u32>,
    kitty_id: Id,
    kitties: AssocMap<Vec<u8>, Kitty>,
    kitties_owned: AssocMap<AccountId, Vec<Vec<u8>>>,
    kitties_owned_genesis: AssocMap<AccountId, Vec<u8>>,
    nonce: Option<u32>,
    events: Vec<Event>,
    max_kitty_owned: u32,
}

impl View for Pallet {
    type V = PalletView;

    closed spec fn view(&self) -> PalletView {
        PalletView {
            something: self.something,
            kitty_id: self.kitty_id,
            kitties: self.kitties.view(),
            kitties_owned: self.kitties_owned.view(),
            kitties_owned_genesis: self.kitties_owned_genesis.view(),
            nonce: self.nonce,
            events: self.events.deep_view(),
            max_kitty_owned: self.max_kitty_owned,
        }
    }
}

/// Scans `list` for `dna`; the index of its first occurrence, if any.
fn position(list: &Vec<Vec<u8>>, dna: &Vec<u8>) -> (r: Option<usize>)
    ensures
        match r {
            Some(i) => list.deep_view().index_of_first(dna@) == Some(i as int),
            None => !list.deep_view().contains(dna@),
        },
{
    let ghost l = list.deep_view();
    proof {
        l.index_of_first_ensures(dna@);
        assert(dna.deep_view() =~= dna@);
    }
    let mut i: usize = 0;
    while i < list.len()
        invariant
            i <= list.len(),
            l == list.deep_view(),
            dna.deep_view() == dna@,
            forall|j: int| 0 <= j < i ==> l[j] != dna@,
        decreases list.len() - i,
    {
        if list[i].same_key(dna) {
            proof {
                l.index_of_first_ensures(dna@);
                assert(l[i as int] == dna@);
                match l.index_of_first(dna@) {
                    Some(k) => {
                        if k < i {
                            assert(l[k] != dna@);
                        }
                    },
                    None => {
                        assert(l.contains(dna@));
                    },
                }
            }
            return Some(i);
        }
        i = i + 1;
    }
    None
}


impl Pallet {
    /// The storage's well-formedness.
    pub closed spec fn wf(&self) -> bool {
        &&& self.kitties.wf()
        &&& self.kitties_owned.wf()
        &&& self.kitties_owned_genesis.wf()
    }

    /// Empty storage, for a runtime whose `MaxKittyOwned` is `max_kitty_owned`.
    pub fn new(max_kitty_owned: u32) -> (p: Pallet)
        ensures
            p.wf(),
            storage_invariant(p@),
            p@ == (PalletView {
                something: None,
                kitty_id: 0,
                kitties: Map::empty(),
                kitties_owned: Map::empty(),
                kitties_owned_genesis: Map::empty(),
                nonce: None,
                events: Seq::empty(),
                max_kitty_owned,
            }),
    {
        let p = Pallet {
            something: None,
            kitty_id: 0,
            kitties: AssocMap::new(),
            kitties_owned: AssocMap::new(),
            kitties_owned_genesis: AssocMap::new(),
            nonce: None,
            events: Vec::new(),
            max_kitty_owned,
        };
        assert(p.events.deep_view() =~= Seq::<EventView>::empty());
        proof {
            lemma_empty_storage_consistent(p@);
        }
        p
    }

    /// The gender that `dna` gives: male for an even length, female otherwise.
    pub fn gen_gender(dna: &Vec<u8>) -> (r: Result<Gender, Error>)
        ensures
            r == Ok::<Gender, Error>(gender_of(dna@)),
            (r == Ok::<Gender, Error>(Gender::Male)) <==> dna@.len() % 2 == 0,
            (r == Ok::<Gender, Error>(Gender::Female)) <==> dna@.len() % 2 == 1,
    {
        let mut res = Gender::Female;
        if dna.len() % 2 == 0 {
            res = Gender::Male;
        }
        Ok(res)
    }

    /// Advances the nonce and returns the SCALE encoding of its value before.
    pub fn get_and_increment_nonce(&mut self) -> (subject: Vec<u8>)
        requires
            old(self)@.nonce != Some(u32::MAX),
        ensures
            subject@ == scale_option_u32(old(self)@.nonce),
            final(self)@ == (PalletView { nonce: next_nonce(old(self)@.nonce), ..old(self)@ }),
            final(self).wf() == old(self).wf(),
    {
        let nonce = self.nonce;
        match nonce {
            Some(a) => self.nonce = Some(a + 1),
            None => self.nonce = Some(1),
        }
        encode_option_u32(nonce)
    }

    /// A fresh DNA: the randomness asked about the SCALE encoding of the
    /// nonce, which advances; its answer is handed back unchanged.
    pub fn gen_dna<T: Config>(&mut self, config: &T) -> (dna: Vec<u8>)
        requires
            old(self)@.nonce != Some(u32::MAX),
        ensures
            dna@ == config.randomness_of(scale_option_u32(old(self)@.nonce)),
            dna@.len() == config.randomness_len(),
            final(self)@ == (PalletView { nonce: next_nonce(old(self)@.nonce), ..old(self)@ }),
            final(self).wf() == old(self).wf(),
    {
        let nonce = self.get_and_increment_nonce();
        config.kitty_randomness(&nonce)
    }

    /// The list stored for `who`, or an empty one.
    fn owned_list(&self, who: AccountId) -> (r: Vec<Vec<u8>>)
        requires
            self.wf(),
        ensures
            r.deep_view() == owned_of(self@, who),
    {
        match self.kitties_owned.get(&who) {
            Some(list) => list.clone(),
            None => {
                let r: Vec<Vec<u8>> = Vec::new();
                assert(r.deep_view() =~= Seq::<Seq<u8>>::empty());
                r
            },
        }
    }

    /// Appends `dna` to the list of `who` (`KittiesOwned::append`).
    fn append_owned(&mut self, who: AccountId, dna: Vec<u8>)
        requires
            old(self).wf(),
        ensures
            final(self).wf(),
            final(self)@ == append_owned(old(self)@, who, dna@),
    {
        let mut list = self.owned_list(who);
        let ghost before = list.deep_view();
        list.push(dna);
        assert(list.deep_view() =~= before.push(dna@));
        self.kitties_owned.insert(who, list);
    }

    fn deposit_event(&mut self, event: Event)
        ensures
            final(self)@ == (PalletView { events: old(self)@.events.push(event.deep_view()), ..old(self)@ }),
            final(self).wf() == old(self).wf(),
    {
        let ghost before = self.events.deep_view();
        self.events.push(event);
        assert(self.events.deep_view() =~= before.push(event.deep_view()));
    }

    /// Stores `something` for a signed caller and deposits `SomethingStored`.
    pub fn do_something(&mut self, origin: Origin, something: u32) -> (r: DispatchResult)
        requires
            old(self).wf(),
        ensures
            final(self).wf(),
            (final(self)@, r) == do_something_outcome(old(self)@, origin, something),
            storage_invariant(old(self)@) ==> storage_invariant(final(self)@),
            r is Err ==> final(self)@ == old(self)@,
    {
        proof {
            if storage_invariant(old(self)@) {
                lemma_value_calls_keep_invariant(old(self)@, origin, something);
            }
        }
        let who = ensure_signed(origin)?;
        self.something = Some(something);
        self.deposit_event(Event::SomethingStored(something, who));
        Ok(())
    }

    /// Increments the stored value for a signed caller; `NoneValue` when none
    /// is stored, `StorageOverflow` when it is at its maximum.
    pub fn cause_error(&mut self, origin: Origin) -> (r: DispatchResult)
        requires
            old(self).wf(),
        ensures
            final(self).wf(),
            (final(self)@, r) == cause_error_outcome(old(self)@, origin),
            storage_invariant(old(self)@) ==> storage_invariant(final(self)@),
            r is Err ==> final(self)@ == old(self)@,
    {
        proof {
            if storage_invariant(old(self)@) {
                lemma_value_calls_keep_invariant(old(self)@, origin, 0);
            }
        }
        let _who = ensure_signed(origin)?;
        match self.something {
            None => Err(DispatchError::Module(Error::NoneValue)),
            Some(old) => {
                let new = match old.checked_add(1) {
                    Some(n) => n,
                    None => return Err(DispatchError::Module(Error::StorageOverflow)),
                };
                self.something = Some(new);
                Ok(())
            },
        }
    }

    /// `create_kitty` signed by `who`, once the randomness has returned
    /// `new_dna`: refuses a DNA already stored, a full counter and an owner at
    /// the limit, in that order; otherwise advances the nonce and the counter,
    /// stores the kitty under `dna` and lists `dna` for `who`.
    pub fn create_kitty_with_dna(&mut self, who: AccountId, dna: Vec<u8>, price: u32, new_dna: Vec<u8>) -> (r: DispatchResult)
        requires
            old(self).wf(),
            old(self)@.nonce != Some(u32::MAX),
        ensures
            final(self).wf(),
            (final(self)@, r) == create_kitty_outcome(old(self)@, who, dna@, price, new_dna@),
            storage_invariant(old(self)@) ==> storage_invariant(final(self)@),
            r is Err ==> final(self)@ == old(self)@,
    {
        proof {
            if storage_invariant(old(self)@) {
                lemma_create_kitty_keeps_invariant(old(self)@, who, dna@, price, new_dna@);
            }
        }
        let gender = match Self::gen_gender(&dna) {
            Ok(g) => g,
            Err(e) => return Err(DispatchError::Module(e)),
        };
        if self.kitties.contains_key(&dna) {
            return Err(DispatchError::Module(Error::DuplicateKitty));
        }
        let next_id = match self.kitty_id.checked_add(1) {
            Some(n) => n,
            None => return Err(DispatchError::Arithmetic(ArithmeticError::Overflow)),
        };
        let to_owned = self.owned_list(who);
        if !((#[verifier::truncate] (to_owned.len() as u32)) < self.max_kitty_owned) {
            return Err(DispatchError::Module(Error::ExceedMaxKittyOwned));
        }
        let _subject = self.get_and_increment_nonce();
        let kitty = Kitty::new(new_dna, who, price, gender, 0);
        self.kitties.insert(dna.clone(), kitty);
        self.kitty_id = next_id;
        self.append_owned(who, dna.clone());
        self.deposit_event(Event::Created { dna, owner: who });
        Ok(())
    }

    /// Creates a kitty under `dna` for the signer, with a DNA drawn from the
    /// randomness of `config` on the SCALE encoding of the nonce: the outcome
    /// is that of `create_kitty_with_dna` on that answer.
    pub fn create_kitty<T: Config>(&mut self, config: &T, origin: Origin, dna: Vec<u8>, price: u32) -> (r: DispatchResult)
        requires
            old(self).wf(),
            signer(origin) is Some ==> old(self)@.nonce != Some(u32::MAX),
        ensures
            final(self).wf(),
            r is Err ==> final(self)@ == old(self)@,
            match signer(origin) {
                None => r == Err::<(), DispatchError<Error>>(DispatchError::BadOrigin),
                Some(who) => (final(self)@, r) == create_kitty_outcome(
                    old(self)@,
                    who,
                    dna@,
                    price,
                    config.randomness_of(scale_option_u32(old(self)@.nonce)),
                ),
            },
            storage_invariant(old(self)@) ==> storage_invariant(final(self)@),
            r is Ok ==> final(self)@.kitties[dna@].dna.len() == config.randomness_len(),
    {
        let who = ensure_signed(origin)?;
        let subject = encode_option_u32(self.nonce);
        let new_dna = config.kitty_randomness(&subject);
        self.create_kitty_with_dna(who, dna, price, new_dna)
    }

    /// Transfers the kitty under `dna` from the signer to `to`. Refuses, in
    /// order: no such kitty, a caller that does not own it, a transfer to
    /// oneself, a DNA missing from the caller's list, and a receiver at the
    /// limit.
    pub fn transfer(&mut self, origin: Origin, dna: Vec<u8>, to: AccountId) -> (r: DispatchResult)
        requires
            old(self).wf(),
        ensures
            final(self).wf(),
            (final(self)@, r) == transfer_outcome(old(self)@, origin, dna@, to),
            storage_invariant(old(self)@) ==> storage_invariant(final(self)@),
            r is Err ==> final(self)@ == old(self)@,
    {
        proof {
            if storage_invariant(old(self)@) {
                lemma_transfer_keeps_invariant(old(self)@, origin, dna@, to);
            }
        }
        let who = ensure_signed(origin)?;
        let kitty = match self.kitties.get(&dna) {
            Some(k) => k,
            None => return Err(DispatchError::Module(Error::NoKitty)),
        };
        if kitty.owner() != who {
            return Err(DispatchError::Module(Error::NotOwner));
        }
        if who == to {
            return Err(DispatchError::Module(Error::TransferToSelf));
        }
        let new_kitty = kitty.with_owner(to);
        let mut from_owned = self.owned_list(who);
        let ghost from_before = from_owned.deep_view();
        match position(&from_owned, &dna) {
            Some(index) => {
                proof {
                    from_before.index_of_first_ensures(dna@);
                }
                from_owned.swap_remove(index);
                assert(from_owned.deep_view() =~= without_first(from_before, dna@));
            },
            None => {
                return Err(DispatchError::Module(Error::NoKitty));
            },
        }
        let mut to_owned = self.owned_list(to);
        if !((#[verifier::truncate] (to_owned.len() as u32)) < self.max_kitty_owned) {
            return Err(DispatchError::Module(Error::ExceedMaxKittyOwned));
        }
        let ghost to_before = to_owned.deep_view();
        to_owned.push(dna.clone());
        assert(to_owned.deep_view() =~= to_before.push(dna@));
        self.kitties.insert(dna.clone(), new_kitty);
        self.kitties_owned.insert(to, to_owned);
        self.kitties_owned.insert(who, from_owned);
        self.deposit_event(Event::Transfer { from: who, to, dna });
        Ok(())
    }

    /// The stored value `Something`.
    pub fn something(&self) -> (r: Option<u32>)
        ensures
            r == self@.something,
    {
        self.something
    }

    /// The kitty counter `KittyId`.
    pub fn kitty_id(&self) -> (r: Id)
        ensures
            r == self@.kitty_id,
    {
        self.kitty_id
    }

    /// The kitty stored under `dna`, if any.
    pub fn get_kitty(&self, dna: &Vec<u8>) -> (r: Option<Kitty>)
        requires
            self.wf(),
        ensures
            match r {
                Some(k) => self@.kitties.dom().contains(dna@) && self@.kitties[dna@] == k@,
                None => !self@.kitties.dom().contains(dna@),
            },
    {
        match self.kitties.get(dna) {
            Some(k) => Some(k.clone()),
            None => None,
        }
    }

    /// The DNA keys listed for `who` (empty for an account without an entry).
    pub fn kitty_owned(&self, who: AccountId) -> (r: Vec<Vec<u8>>)
        requires
            self.wf(),
        ensures
            r.deep_view() == owned_of(self@, who),
    {
        self.owned_list(who)
    }

    /// The entry of `KittiesOwnedGenesis` for `who` (empty where none is stored).
    pub fn kitty_owned_genesis(&self, who: AccountId) -> (r: Vec<u8>)
        requires
            self.wf(),
        ensures
            r@ == (if self@.kitties_owned_genesis.dom().contains(who) {
                self@.kitties_owned_genesis[who]
            } else {
                Seq::empty()
            }),
    {
        match self.kitties_owned_genesis.get(&who) {
            Some(v) => v.clone(),
            None => Vec::new(),
        }
    }

    /// The nonce that feeds the randomness.
    pub fn nonce(&self) -> (r: Option<u32>)
        ensures
            r == self@.nonce,
    {
        self.nonce
    }

    /// The events deposited so far, oldest first.
    pub fn events(&self) -> (r: &Vec<Event>)
        ensures
            r.deep_view() == self@.events,
    {
        &self.events
    }

    /// The configured bound `MaxKittyOwned`.
    pub fn max_kitty_owned(&self) -> (r: u32)
        ensures
            r == self@.max_kitty_owned,
    {
        self.max_kitty_owned
    }

    /// Stores `kitty` under `key` (`Kitties::insert`).
    pub(crate) fn insert_kitty(&mut self, key: Vec<u8>, kitty: Kitty)
        requires
            old(self).wf(),
        ensures
            final(self).wf(),
            final(self)@ == (PalletView { kitties: old(self)@.kitties.insert(key@, kitty@), ..old(self)@ }),
    {
        self.kitties.insert(key, kitty);
    }

    /// Appends `dna` to the list of `who`, whatever it holds.
    #[allow(non_snake_case)]
    pub fn fixKittyForAlice(&mut self, who: AccountId, dna: Vec<u8>) -> (r: DispatchResult)
        requires
            old(self).wf(),
        ensures
            final(self).wf(),
            final(self)@ == append_owned(old(self)@, who, dna@),
            r == Ok::<(), DispatchError<Error>>(()),
    {
        self.append_owned(who, dna);
        Ok(())
    }
}

} // verus!
