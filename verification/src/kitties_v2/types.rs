//! The pallet's data types and their views.
use vstd::prelude::*;
use crate::origin::{AccountId, DispatchError};

verus! {

/// Identifier counter type of the pallet.
pub type Id = u32;

/// The gender of a kitty, decided by its DNA.
#[derive(Clone, Copy, Debug, PartialEq, Eq, Structural)]
pub enum Gender {
    Male,
    Female,
}

/// A kitty as stored by the pallet.
#[derive(Debug, PartialEq, Eq)]
pub struct Kitty {
    dna: Vec<u8>,
    owner: AccountId,
    price: u32,
    gender: Gender,
    created_date: u64,
}

/// The model of a kitty.
pub struct KittyView {
    pub dna: Seq<u8>,
    pub owner: AccountId,
    pub price: u32,
    pub gender: Gender,
    pub created_date: u64,
}

impl View for Kitty {
    type V = KittyView;

    closed spec fn view(&self) -> KittyView {
        KittyView {
            dna: self.dna@,
            owner: self.owner,
            price: self.price,
            gender: self.gender,
            created_date: self.created_date,
        }
    }
}

impl DeepView for Kitty {
    type V = KittyView;

    open spec fn deep_view(&self) -> KittyView {
        self@
    }
}

impl Kitty {
    /// A kitty with the given fields.
    pub(crate) fn new(dna: Vec<u8>, owner: AccountId, price: u32, gender: Gender, created_date: u64) -> (k: Kitty)
        ensures
            k@ == (KittyView { dna: dna@, owner, price, gender, created_date }),
    {
        Kitty { dna, owner, price, gender, created_date }
    }

    /// The kitty's DNA.
    pub fn dna(&self) -> (r: &Vec<u8>)
        ensures
            r@ == self@.dna,
    {
        &self.dna
    }

    /// The kitty's owner.
    pub fn owner(&self) -> (r: AccountId)
        ensures
            r == self@.owner,
    {
        self.owner
    }

    /// The kitty's price.
    pub fn price(&self) -> (r: u32)
        ensures
            r == self@.price,
    {
        self.price
    }

    /// The kitty's gender.
    pub fn gender(&self) -> (r: Gender)
        ensures
            r == self@.gender,
    {
        self.gender
    }

    /// The kitty's creation date.
    pub fn created_date(&self) -> (r: u64)
        ensures
            r == self@.created_date,
    {
        self.created_date
    }

    /// The same kitty, owned by `owner`.
    pub(crate) fn with_owner(&self, owner: AccountId) -> (k: Kitty)
        ensures
            k@ == (KittyView { owner, ..self@ }),
    {
        Kitty {
            dna: self.dna.clone(),
            owner,
            price: self.price,
            gender: self.gender,
            created_date: self.created_date,
        }
    }
}

impl Clone for Kitty {
    fn clone(&self) -> (k: Self)
        ensures
            k@ == self@,
    {
        self.with_owner(self.owner)
    }
}

/// Events the pallet deposits.
#[derive(Clone, Debug, PartialEq, Eq)]
pub enum Event {
    /// A value was stored by an account.
    SomethingStored(u32, AccountId),
    /// A kitty was created under `dna` for `owner`.
    Created { dna: Vec<u8>, owner: AccountId },
    /// The kitty under `dna` went from `from` to `to`.
    Transfer { from: AccountId, to: AccountId, dna: Vec<u8> },
}

/// The model of an event.
pub enum EventView {
    SomethingStored(u32, AccountId),
    Created { dna: Seq<u8>, owner: AccountId },
    Transfer { from: AccountId, to: AccountId, dna: Seq<u8> },
}

impl DeepView for Event {
    type V = EventView;

    open spec fn deep_view(&self) -> EventView {
        match self {
            Event::SomethingStored(v, who) => EventView::SomethingStored(*v, *who),
            Event::Created { dna, owner } => EventView::Created { dna: dna@, owner: *owner },
            Event::Transfer { from, to, dna } => EventView::Transfer { from: *from, to: *to, dna: dna@ },
        }
    }
}

/// Errors of the pallet.
#[derive(Clone, Copy, Debug, PartialEq, Eq, Structural)]
pub enum Error {
    /// No value was stored.
    NoneValue,
    /// The stored value cannot grow any more.
    StorageOverflow,
    /// A kitty is already stored under this DNA.
    DuplicateKitty,
    /// The account owns too many kitties.
    TooManyOwned,
    /// No such kitty.
    NoKitty,
    /// The caller does not own the kitty.
    NotOwner,
    /// A kitty cannot be sent to its own owner.
    TransferToSelf,
    /// The receiving account already owns the most kitties allowed.
    ExceedMaxKittyOwned,
}

/// What a dispatchable of the pallet returns.
pub type DispatchResult = Result<(), DispatchError<Error>>;

/// What the runtime configures for the pallet: its source of randomness,
/// which maps a subject to random bytes. (The bound `MaxKittyOwned` is fixed
/// when the storage is created.)
///
/// The runtime implements this trait. Given the chain's state, which the
/// implementing value stands for, the answer is a function of the subject:
/// `randomness_of`. That every implementation keeps this promise is assumed,
/// not proved here.
pub trait Config {
    /// The random bytes this source gives for `subject`.
    spec fn randomness_of(&self, subject: Seq<u8>) -> Seq<u8>;

    /// The fixed number of bytes every draw gives (the size of the runtime's
    /// hash type).
    spec fn randomness_len(&self) -> nat;

    /// Draws the random bytes for `subject`.
    fn kitty_randomness(&self, subject: &Vec<u8>) -> (r: Vec<u8>)
        ensures
            r@ == self.randomness_of(subject@),
            r@.len() == self.randomness_len(),
    ;
}

} // verus!
