//! The first kitties exercise: kitties numbered by a counter, also indexed by
//! their DNA, whose owner can hand them to another account.
use vstd::prelude::*;
use crate::origin::{ensure_signed, signer, AccountId, DispatchError, Origin};
use crate::assoc::AssocMap;

verus! {

broadcast use crate::assoc::lemma_bytes_deep_view;

/// Number of a kitty.
pub type Id = u32;

/// The gender of a kitty, decided by its DNA; female by default.
#[derive(Clone, Copy, Debug, PartialEq, Eq, Structural)]
pub enum Gender {
    Male,
    Female,
}

impl Default for Gender {
    fn default() -> (g: Gender)
        ensures
            g == Gender::Female,
    {
        Gender::Female
    }
}

/// A kitty as stored by the pallet.
#[derive(Debug)]
pub struct Kitty {
    dna: Vec<u8>,
    owner: AccountId,
    price: u32,
    gender: Gender,
}

/// The model of a kitty.
pub struct KittyView {
    pub dna: Seq<u8>,
    pub owner: AccountId,
    pub price: u32,
    pub gender: Gender,
}

impl View for Kitty {
    type V = KittyView;

    closed spec fn view(&self) -> KittyView {
        KittyView { dna: self.dna@, owner: self.owner, price: self.price, gender: self.gender }
    }
}

impl DeepView for Kitty {
    type V = KittyView;

    open spec fn deep_view(&self) -> KittyView {
        self@
    }
}

impl Default for Kitty {
    fn default() -> (k: Kitty)
        ensures
            k@ == (KittyView { dna: Seq::empty(), owner: 0, price: 0, gender: Gender::Female }),
    {
        Kitty { dna: Vec::new(), owner: 0, price: 0, gender: Gender::default() }
    }
}

impl Kitty {
    /// The kitty's DNA.
    pub fn dna(&self) -> (r: &Vec<u8>)
        ensures
            r@ == self@.dna,
    {
        &self.dna
    }

    /// The kitty's owner.
    pub fn owner(&self) -> (r: AccountId)
        ensures
            r == self@.owner,
    {
        self.owner
    }

    /// The kitty's price.
    pub fn price(&self) -> (r: u32)
        ensures
            r == self@.price,
    {
        self.price
    }

    /// The kitty's gender.
    pub fn gender(&self) -> (r: Gender)
        ensures
            r == self@.gender,
    {
        self.gender
    }

    /// The same kitty, owned by `owner`.
    fn with_owner(&self, owner: AccountId) -> (k: Kitty)
        ensures
            k@ == (KittyView { owner, ..self@ }),
    {
        Kitty { dna: self.dna.clone(), owner, price: self.price, gender: self.gender }
    }
}

impl Clone for Kitty {
    fn clone(&self) -> (k: Self)
        ensures
            k@ == self@,
    {
        self.with_owner(self.owner)
    }
}

/// Events the pallet deposits.
#[derive(Clone, Debug, PartialEq, Eq)]
pub enum Event {
    /// A kitty with this DNA and price was stored.
    KittyStored(Vec<u8>, u32),
}

/// The model of an event.
pub enum EventView {
    KittyStored(Seq<u8>, u32),
}

impl DeepView for Event {
    type V = EventView;

    open spec fn deep_view(&self) -> EventView {
        match self {
            Event::KittyStored(dna, price) => EventView::KittyStored(dna@, *price),
        }
    }
}

/// Errors of the pallet.
#[derive(Clone, Copy, Debug, PartialEq, Eq, Structural)]
pub enum Error {
    /// The caller does not own the kitty.
    NotOwner,
    /// A counter cannot grow any more.
    StorageOverflow,
}

/// What a dispatchable of the pallet returns.
pub type DispatchResult = Result<(), DispatchError<Error>>;

/// The model of the pallet's storage.
pub struct PalletView {
    /// `KittyCount`: the number the next kitty gets.
    pub kitty_count: Id,
    /// `Kitties`: the kitty stored under each number.
    pub kitties: Map<Id, KittyView>,
    /// `InfoKitty`: the kitty stored under each DNA.
    pub info_kitty: Map<Seq<u8>, KittyView>,
    /// `OwnerKitty`.
    pub owner_kitty: Map<AccountId, Seq<u8>>,
    /// The events deposited so far.
    pub events: Seq<EventView>,
}

/// What a dispatchable leaves in storage, with what it returns.
pub type Outcome = (PalletView, Result<(), DispatchError<Error>>);

/// The gender that a DNA gives: male for an even length, female otherwise.
pub open spec fn gender_of(dna: Seq<u8>) -> Gender {
    if dna.len() % 2 == 0 {
        Gender::Male
    } else {
        Gender::Female
    }
}

/// `create_kitty`: the signer's kitty is stored under the current count and
/// under its DNA, and the count advances.
pub open spec fn create_kitty_outcome(s: PalletView, origin: Origin, dna: Seq<u8>, price: u32) -> Outcome {
    match signer(origin) {
        None => (s, Err(DispatchError::BadOrigin)),
        Some(who) => {
            let kitty = KittyView { dna, owner: who, price, gender: gender_of(dna) };
            (
                PalletView {
                    kitty_count: (s.kitty_count + 1) as u32,
                    kitties: s.kitties.insert(s.kitty_count, kitty),
                    info_kitty: s.info_kitty.insert(dna, kitty),
                    events: s.events.push(EventView::KittyStored(dna, price)),
                    ..s
                },
                Ok(()),
            )
        },
    }
}

/// `change_owner_kitty`: the owner of kitty `id` hands it to `account`; the
/// kitty is replaced under its number and under its DNA.
pub open spec fn change_owner_outcome(s: PalletView, origin: Origin, id: Id, account: AccountId) -> Outcome {
    match signer(origin) {
        None => (s, Err(DispatchError::BadOrigin)),
        Some(who) => {
            let kitty = s.kitties[id];
            if who != kitty.owner {
                (s, Err(DispatchError::Module(Error::NotOwner)))
            } else {
                let moved = KittyView { owner: account, ..kitty };
                (
                    PalletView {
                        kitties: s.kitties.insert(id, moved),
                        info_kitty: s.info_kitty.insert(kitty.dna, moved),
                        ..s
                    },
                    Ok(()),
                )
            }
        },
    }
}

/// The pallet's storage.
pub struct Pallet {
    kitty_count: Id,
    kitties: AssocMap<Id, Kitty>,
    info_kitty: AssocMap<Vec<u8>, Kitty>,
    owner_kitty: AssocMap<AccountId, Vec<u8>>,
    events: Vec<Event>,
}

impl View for Pallet {
    type V = PalletView;

    closed spec fn view(&self) -> PalletView {
        PalletView {
            kitty_count: self.kitty_count,
            kitties: self.kitties.view(),
            info_kitty: self.info_kitty.view(),
            owner_kitty: self.owner_kitty.view(),
            events: self.events.deep_view(),
        }
    }
}

impl Pallet {
    /// The storage's well-formedness.
    pub closed spec fn wf(&self) -> bool {
        &&& self.kitties.wf()
        &&& self.info_kitty.wf()
        &&& self.owner_kitty.wf()
    }

    /// Empty storage.
    pub fn new() -> (p: Pallet)
        ensures
            p.wf(),
            ids_dense(p@),
            p@ == (PalletView {
                kitty_count: 0,
                kitties: Map::empty(),
                info_kitty: Map::empty(),
                owner_kitty: Map::empty(),
                events: Seq::empty(),
            }),
    {
        let p = Pallet {
            kitty_count: 0,
            kitties: AssocMap::new(),
            info_kitty: AssocMap::new(),
            owner_kitty: AssocMap::new(),
            events: Vec::new(),
        };
        assert(p.events.deep_view() =~= Seq::<EventView>::empty());
        p
    }

    /// The gender that `dna` gives: male for an even length, female otherwise.
    pub fn gen_gender(dna: Vec<u8>) -> (r: Result<Gender, Error>)
        ensures
            r == Ok::<Gender, Error>(gender_of(dna@)),
            (r == Ok::<Gender, Error>(Gender::Male)) <==> dna@.len() % 2 == 0,
            (r == Ok::<Gender, Error>(Gender::Female)) <==> dna@.len() % 2 == 1,
    {
        let mut res = Gender::Female;
        if dna.len() % 2 == 0 {
            res = Gender::Male;
        }
        Ok(res)
    }

    /// Stores the signer's new kitty under the current count and under `dna`,
    /// advances the count and deposits `KittyStored`.
    pub fn create_kitty(&mut self, origin: Origin, dna: Vec<u8>, price: u32) -> (r: DispatchResult)
        requires
            old(self).wf(),
            signer(origin) is Some ==> old(self)@.kitty_count < u32::MAX,
        ensures
            final(self).wf(),
            (final(self)@, r) == create_kitty_outcome(old(self)@, origin, dna@, price),
            ids_dense(old(self)@) ==> ids_dense(final(self)@),
    {
        proof {
            if ids_dense(old(self)@) && signer(origin) is Some {
                lemma_create_kitty_keeps_ids_dense(old(self)@, origin, dna@, price);
            }
        }
        let who = ensure_signed(origin)?;
        let gender = match Self::gen_gender(dna.clone()) {
            Ok(g) => g,
            Err(e) => return Err(DispatchError::Module(e)),
        };
        let kitty = Kitty { dna: dna.clone(), owner: who, price, gender };
        let mut current_id = self.kitty_count;
        self.kitties.insert(current_id, kitty.clone());
        current_id += 1;
        self.kitty_count = current_id;
        self.info_kitty.insert(dna.clone(), kitty);
        let ghost before = self.events.deep_view();
        let event = Event::KittyStored(dna, price);
        self.events.push(event);
        assert(self.events.deep_view() =~= before.push(event.deep_view()));
        Ok(())
    }

    /// Hands kitty `id` from its owner, who must sign, to `account`.
    pub fn change_owner_kitty(&mut self, origin: Origin, id: Id, account: AccountId) -> (r: DispatchResult)
        requires
            old(self).wf(),
            signer(origin) is Some ==> old(self)@.kitties.dom().contains(id),
        ensures
            final(self).wf(),
            (final(self)@, r) == change_owner_outcome(old(self)@, origin, id, account),
            ids_dense(old(self)@) ==> ids_dense(final(self)@),
            r is Err ==> final(self)@ == old(self)@,
    {
        proof {
            if ids_dense(old(self)@) {
                lemma_change_owner_keeps_ids_dense(old(self)@, origin, id, account);
            }
        }
        let who = ensure_signed(origin)?;
        let kitties = match self.kitties.get(&id) {
            Some(k) => k,
            None => {
                assert(false);
                return Err(DispatchError::BadOrigin);
            },
        };
        if who != kitties.owner {
            return Err(DispatchError::Module(Error::NotOwner));
        }
        let new_kitty = kitties.with_owner(account);
        let dna = kitties.dna.clone();
        self.kitties.insert(id, new_kitty.clone());
        self.info_kitty.insert(dna, new_kitty);
        Ok(())
    }

    /// `KittyCount`, the number the next kitty gets.
    pub fn kitty_id(&self) -> (r: Id)
        ensures
            r == self@.kitty_count,
    {
        self.kitty_count
    }

    /// The kitty numbered `id`, if any.
    pub fn kitty(&self, id: Id) -> (r: Option<Kitty>)
        requires
            self.wf(),
        ensures
            match r {
                Some(k) => self@.kitties.dom().contains(id) && self@.kitties[id] == k@,
                None => !self@.kitties.dom().contains(id),
            },
    {
        match self.kitties.get(&id) {
            Some(k) => Some(k.clone()),
            None => None,
        }
    }

    /// The kitty stored under `dna`, if any.
    #[allow(non_snake_case)]
    pub fn Infokitty(&self, dna: &Vec<u8>) -> (r: Option<Kitty>)
        requires
            self.wf(),
        ensures
            match r {
                Some(k) => self@.info_kitty.dom().contains(dna@) && self@.info_kitty[dna@] == k@,
                None => !self@.info_kitty.dom().contains(dna@),
            },
    {
        match self.info_kitty.get(dna) {
            Some(k) => Some(k.clone()),
            None => None,
        }
    }

    /// The entry of `OwnerKitty` for `who`, if any.
    #[allow(non_snake_case)]
    pub fn Ownerkitty(&self, who: AccountId) -> (r: Option<Vec<u8>>)
        requires
            self.wf(),
        ensures
            match r {
                Some(v) => self@.owner_kitty.dom().contains(who) && self@.owner_kitty[who] == v@,
                None => !self@.owner_kitty.dom().contains(who),
            },
    {
        match self.owner_kitty.get(&who) {
            Some(v) => Some(v.clone()),
            None => None,
        }
    }

    /// The events deposited so far, oldest first.
    pub fn events(&self) -> (r: &Vec<Event>)
        ensures
            r.deep_view() == self@.events,
    {
        &self.events
    }
}

/// Kitties are numbered densely: exactly the numbers below the count are
/// stored.
pub open spec fn ids_dense(s: PalletView) -> bool {
    forall|id: Id| #[trigger] s.kitties.dom().contains(id) <==> id < s.kitty_count
}

/// `create_kitty` keeps the numbering dense: it stores exactly the current
/// count, then advances it.
pub proof fn lemma_create_kitty_keeps_ids_dense(s: PalletView, origin: Origin, dna: Seq<u8>, price: u32)
    requires
        ids_dense(s),
        s.kitty_count < u32::MAX,
    ensures
        ids_dense(create_kitty_outcome(s, origin, dna, price).0),
{
}

/// `change_owner_kitty` keeps the numbering dense: it only rewrites a stored
/// number.
pub proof fn lemma_change_owner_keeps_ids_dense(s: PalletView, origin: Origin, id: Id, account: AccountId)
    requires
        ids_dense(s),
        signer(origin) is Some ==> s.kitties.dom().contains(id),
    ensures
        ids_dense(change_owner_outcome(s, origin, id, account).0),
{
}

/// A successful `change_owner_kitty` changes the owner of kitty `id`, under
/// its number and under its DNA, and nothing else.
pub proof fn lemma_change_owner_moves_only_owner(s: PalletView, origin: Origin, id: Id, account: AccountId)
    requires
        change_owner_outcome(s, origin, id, account).1 is Ok,
    ensures
        ({
            let t = change_owner_outcome(s, origin, id, account).0;
            let k = s.kitties[id];
            &&& t.kitties.dom() == s.kitties.dom().insert(id)
            &&& t.kitties[id] == (KittyView { owner: account, ..k })
            &&& forall|other: Id| other != id ==> #[trigger] t.kitties[other] == s.kitties[other]
            &&& t.info_kitty[k.dna] == (KittyView { owner: account, ..k })
            &&& t.kitty_count == s.kitty_count
            &&& t.events == s.events
        }),
{
    let t = change_owner_outcome(s, origin, id, account).0;
    assert(t.kitties.dom() =~= s.kitties.dom().insert(id));
}

/// A DNA of even length gives a male kitty and one of odd length a female
/// kitty, whatever the length.
pub proof fn lemma_gender_by_parity(dna: Seq<u8>)
    ensures
        (gender_of(dna) == Gender::Male) <==> dna.len() % 2 == 0,
        (gender_of(dna) == Gender::Female) <==> dna.len() % 2 == 1,
{
}

/// An unsigned call is refused and changes nothing.
pub proof fn lemma_unsigned_refused(s: PalletView, dna: Seq<u8>, price: u32, id: Id, account: AccountId)
    ensures
        create_kitty_outcome(s, Origin::Unsigned, dna, price) == (s, Err::<(), DispatchError<Error>>(DispatchError::BadOrigin)),
        change_owner_outcome(s, Origin::Unsigned, id, account) == (s, Err::<(), DispatchError<Error>>(DispatchError::BadOrigin)),
        create_kitty_outcome(s, Origin::Root, dna, price) == (s, Err::<(), DispatchError<Error>>(DispatchError::BadOrigin)),
        change_owner_outcome(s, Origin::Root, id, account) == (s, Err::<(), DispatchError<Error>>(DispatchError::BadOrigin)),
{
}

/// A signed `create_kitty` always succeeds and stores, under the current
/// count and under its DNA, a kitty owned by the signer with the given DNA
/// and price, male exactly when the DNA has even length.
pub proof fn lemma_created_kitty_fields(s: PalletView, who: AccountId, dna: Seq<u8>, price: u32)
    ensures
        ({
            let (t, r) = create_kitty_outcome(s, Origin::Signed(who), dna, price);
            let k = t.kitties[s.kitty_count];
            &&& r is Ok
            &&& t.kitties.dom().contains(s.kitty_count)
            &&& k.owner == who
            &&& k.dna == dna
            &&& k.price == price
            &&& (k.gender == Gender::Male) <==> dna.len() % 2 == 0
            &&& t.info_kitty.dom().contains(dna)
            &&& t.info_kitty[dna] == k
            &&& t.kitty_count == s.kitty_count + 1 || s.kitty_count == u32::MAX
            &&& forall|id: Id| id != s.kitty_count ==> #[trigger] t.kitties.dom().contains(id) == s.kitties.dom().contains(id)
            &&& t.events == s.events.push(EventView::KittyStored(dna, price))
        }),
{
}

/// The owner of a stored kitty can always hand it to any account, whatever
/// its DNA, price or gender: the call succeeds and the kitty, under its
/// number and under its DNA, is then owned by that account with its other
/// fields unchanged.
pub proof fn lemma_owner_can_change_owner(s: PalletView, who: AccountId, id: Id, account: AccountId)
    requires
        s.kitties.dom().contains(id),
        s.kitties[id].owner == who,
    ensures
        ({
            let (t, r) = change_owner_outcome(s, Origin::Signed(who), id, account);
            let k = s.kitties[id];
            &&& r is Ok
            &&& t.kitties[id].owner == account
            &&& t.kitties[id].dna == k.dna
            &&& t.kitties[id].price == k.price
            &&& t.kitties[id].gender == k.gender
            &&& t.info_kitty.dom().contains(k.dna)
            &&& t.info_kitty[k.dna].owner == account
        }),
{
}

/// `change_owner_kitty` is refused to a signer that does not own the kitty.
pub proof fn lemma_only_owner_changes_owner(s: PalletView, who: AccountId, id: Id, account: AccountId)
    requires
        s.kitties.dom().contains(id),
        s.kitties[id].owner != who,
    ensures
        change_owner_outcome(s, Origin::Signed(who), id, account)
            == (s, Err::<(), DispatchError<Error>>(DispatchError::Module(Error::NotOwner))),
{
}

} // verus!
