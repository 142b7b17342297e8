//! The model of the pallet's storage and what each dispatchable does to it.
use vstd::prelude::*;
use crate::origin::{signer, AccountId, ArithmeticError, DispatchError, Origin};
use crate::kitties_v2::types::{Error, EventView, Gender, Id, KittyView};

verus! {

/// The model of the pallet's storage.
pub struct PalletView {
    /// The value of `Something`.
    pub something: Option<u32>,
    /// The kitty counter `KittyId`.
    pub kitty_id: Id,
    /// `Kitties`: the kitty stored under each DNA key.
    pub kitties: Map<Seq<u8>, KittyView>,
    /// `KittiesOwned`: the DNA keys listed for each account that has an entry.
    pub kitties_owned: Map<AccountId, Seq<Seq<u8>>>,
    /// `KittiesOwnedGenesis`.
    pub kitties_owned_genesis: Map<AccountId, Seq<u8>>,
    /// `Nonce`, the counter that feeds the randomness.
    pub nonce: Option<u32>,
    /// The events deposited so far.
    pub events: Seq<EventView>,
    /// The configured bound `MaxKittyOwned`.
    pub max_kitty_owned: u32,
}

/// What a dispatchable leaves in storage, with what it returns.
pub type Outcome = (PalletView, Result<(), DispatchError<Error>>);

/// The gender that a DNA gives: male for an even length, female otherwise.
pub open spec fn gender_of(dna: Seq<u8>) -> Gender {
    if dna.len() % 2 == 0 {
        Gender::Male
    } else {
        Gender::Female
    }
}

/// The number a nonce stands for; an unset nonce counts as zero.
pub open spec fn nonce_count(nonce: Option<u32>) -> int {
    match nonce {
        Some(n) => n as int,
        None => 0,
    }
}

/// The nonce after one more use.
pub open spec fn next_nonce(nonce: Option<u32>) -> Option<u32> {
    Some((nonce_count(nonce) + 1) as u32)
}

/// The nonce after `k` more uses.
pub open spec fn nonce_after(nonce: Option<u32>, k: nat) -> Option<u32>
    decreases k,
{
    if k == 0 {
        nonce
    } else {
        next_nonce(nonce_after(nonce, (k - 1) as nat))
    }
}

/// The DNA keys listed for `who`; an account without an entry has none.
pub open spec fn owned_of(s: PalletView, who: AccountId) -> Seq<Seq<u8>> {
    if s.kitties_owned.dom().contains(who) {
        s.kitties_owned[who]
    } else {
        Seq::empty()
    }
}

/// `s` with `dna` appended to the list of `who`.
pub open spec fn append_owned(s: PalletView, who: AccountId, dna: Seq<u8>) -> PalletView {
    PalletView { kitties_owned: s.kitties_owned.insert(who, owned_of(s, who).push(dna)), ..s }
}

/// Whether `who` may receive one more kitty.
pub open spec fn below_limit(s: PalletView, who: AccountId) -> bool {
    (owned_of(s, who).len() as u32) < s.max_kitty_owned
}

/// `do_something`: a signed call stores `something` and records who stored it.
pub open spec fn do_something_outcome(s: PalletView, origin: Origin, something: u32) -> Outcome {
    match signer(origin) {
        None => (s, Err(DispatchError::BadOrigin)),
        Some(who) => (
            PalletView {
                something: Some(something),
                events: s.events.push(EventView::SomethingStored(something, who)),
                ..s
            },
            Ok(()),
        ),
    }
}

/// `cause_error`: a signed call increments the stored value, failing when
/// there is none or when it cannot grow.
pub open spec fn cause_error_outcome(s: PalletView, origin: Origin) -> Outcome {
    match signer(origin) {
        None => (s, Err(DispatchError::BadOrigin)),
        Some(_) => match s.something {
            None => (s, Err(DispatchError::Module(Error::NoneValue))),
            Some(v) => if v == u32::MAX {
                (s, Err(DispatchError::Module(Error::StorageOverflow)))
            } else {
                (PalletView { something: Some((v + 1) as u32), ..s }, Ok(()))
            },
        },
    }
}

/// The kitty that `create_kitty` stores for `who`, with DNA `new_dna` drawn
/// from the randomness.
pub open spec fn new_kitty(who: AccountId, dna: Seq<u8>, price: u32, new_dna: Seq<u8>) -> KittyView {
    KittyView { dna: new_dna, owner: who, price, gender: gender_of(dna), created_date: 0 }
}

/// `create_kitty` signed by `who`, once the randomness has returned `new_dna`.
pub open spec fn create_kitty_outcome(
    s: PalletView,
    who: AccountId,
    dna: Seq<u8>,
    price: u32,
    new_dna: Seq<u8>,
) -> Outcome {
    if s.kitties.dom().contains(dna) {
        (s, Err(DispatchError::Module(Error::DuplicateKitty)))
    } else if s.kitty_id == u32::MAX {
        (s, Err(DispatchError::Arithmetic(ArithmeticError::Overflow)))
    } else if !below_limit(s, who) {
        (s, Err(DispatchError::Module(Error::ExceedMaxKittyOwned)))
    } else {
        let t = append_owned(s, who, dna);
        (
            PalletView {
                nonce: next_nonce(s.nonce),
                kitty_id: (s.kitty_id + 1) as u32,
                kitties: s.kitties.insert(dna, new_kitty(who, dna, price, new_dna)),
                events: s.events.push(EventView::Created { dna, owner: who }),
                ..t
            },
            Ok(()),
        )
    }
}

/// `list` without the first occurrence of `dna`, the last item taking its place.
pub open spec fn without_first(list: Seq<Seq<u8>>, dna: Seq<u8>) -> Seq<Seq<u8>> {
    let i = list.index_of_first(dna).unwrap();
    list.update(i, list.last()).drop_last()
}

/// `transfer` of the kitty under `dna` to `to`.
pub open spec fn transfer_outcome(s: PalletView, origin: Origin, dna: Seq<u8>, to: AccountId) -> Outcome {
    match signer(origin) {
        None => (s, Err(DispatchError::BadOrigin)),
        Some(who) => if !s.kitties.dom().contains(dna) {
            (s, Err(DispatchError::Module(Error::NoKitty)))
        } else if s.kitties[dna].owner != who {
            (s, Err(DispatchError::Module(Error::NotOwner)))
        } else if who == to {
            (s, Err(DispatchError::Module(Error::TransferToSelf)))
        } else if !owned_of(s, who).contains(dna) {
            (s, Err(DispatchError::Module(Error::NoKitty)))
        } else if !below_limit(s, to) {
            (s, Err(DispatchError::Module(Error::ExceedMaxKittyOwned)))
        } else {
            (
                PalletView {
                    kitties: s.kitties.insert(dna, KittyView { owner: to, ..s.kitties[dna] }),
                    kitties_owned: s.kitties_owned.insert(to, owned_of(s, to).push(dna)).insert(
                        who,
                        without_first(owned_of(s, who), dna),
                    ),
                    events: s.events.push(EventView::Transfer { from: who, to, dna }),
                    ..s
                },
                Ok(()),
            )
        },
    }
}

} // verus!
