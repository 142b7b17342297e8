//! The pallet's genesis configuration: kitties that exist from the first block.
use vstd::prelude::*;
use crate::origin::AccountId;
use crate::kitties_v2::types::{Gender, Kitty, Config, KittyView};
use crate::codec::scale_option_u32;
use crate::kitties_v2::model::{next_nonce, nonce_after, nonce_count, PalletView};
use crate::kitties_v2::pallet::Pallet;
use crate::kitties_v2::laws::lemma_genesis_kitties;

verus! {

broadcast use crate::assoc::lemma_bytes_deep_view;

/// The genesis configuration: a kitty is created under each listed key, all
/// owned by `owner` and dated `current_time`.
pub struct GenesisConfig {
    pub genesis_kitties: Vec<Vec<u8>>,
    pub owner: Option<AccountId>,
    pub current_time: u64,
}

/// The kitty genesis stores, with DNA `new_dna` drawn from the randomness.
pub open spec fn genesis_kitty(owner: AccountId, current_time: u64, new_dna: Seq<u8>) -> KittyView {
    KittyView { dna: new_dna, owner, price: 1, gender: Gender::Male, created_date: current_time }
}

/// Storage after genesis has stored a kitty under each of `keys` in turn, the
/// randomness having returned `dnas` (one per key, in the same order); each
/// kitty advances the nonce, and a later key overwrites an earlier equal one.
pub open spec fn build_outcome(
    s: PalletView,
    keys: Seq<Seq<u8>>,
    owner: AccountId,
    current_time: u64,
    dnas: Seq<Seq<u8>>,
) -> PalletView
    decreases keys.len(),
{
    if keys.len() == 0 {
        s
    } else {
        let prev = build_outcome(s, keys.drop_last(), owner, current_time, dnas.drop_last());
        PalletView {
            nonce: next_nonce(prev.nonce),
            kitties: prev.kitties.insert(keys.last(), genesis_kitty(owner, current_time, dnas.last())),
            ..prev
        }
    }
}

/// The `k` DNAs that `config` gives when asked in turn about the encodings of
/// `nonce` and the nonces that follow it.
pub open spec fn drawn_dnas<T: Config>(config: T, nonce: Option<u32>, k: nat) -> Seq<Seq<u8>> {
    Seq::new(k, |j: int| config.randomness_of(scale_option_u32(nonce_after(nonce, j as nat))))
}

impl Default for GenesisConfig {
    fn default() -> (c: GenesisConfig)
        ensures
            c.genesis_kitties@.len() == 0,
            c.owner == None::<AccountId>,
            c.current_time == 0,
    {
        GenesisConfig { genesis_kitties: Vec::new(), owner: None, current_time: 0 }
    }
}

impl GenesisConfig {
    /// The owner named by the configuration (zero where there is none, which
    /// only an empty list may have).
    pub open spec fn owner_account(&self) -> AccountId {
        match self.owner {
            Some(o) => o,
            None => 0,
        }
    }

    /// What `build` needs: an owner when there are kitties, and room in the
    /// nonce for one use per kitty.
    pub open spec fn buildable(&self, s: PalletView) -> bool {
        &&& self.genesis_kitties.len() > 0 ==> self.owner is Some
        &&& nonce_count(s.nonce) + self.genesis_kitties.len() <= u32::MAX
    }

    /// Genesis with the DNAs the randomness returned given as `dnas`, one per
    /// listed key.
    pub fn build_with_dnas(&self, pallet: &mut Pallet, dnas: Vec<Vec<u8>>)
        requires
            old(pallet).wf(),
            self.buildable(old(pallet)@),
            dnas.len() == self.genesis_kitties.len(),
        ensures
            final(pallet).wf(),
            final(pallet)@ == build_outcome(
                old(pallet)@,
                self.genesis_kitties.deep_view(),
                self.owner_account(),
                self.current_time,
                dnas.deep_view(),
            ),
            forall|k: Seq<u8>| #[trigger] self.genesis_kitties.deep_view().contains(k) ==> {
                &&& final(pallet)@.kitties.dom().contains(k)
                &&& final(pallet)@.kitties[k].gender == Gender::Male
                &&& final(pallet)@.kitties[k].price == 1
                &&& final(pallet)@.kitties[k].owner == self.owner_account()
                &&& final(pallet)@.kitties[k].created_date == self.current_time
            },
    {
        let ghost keys = self.genesis_kitties.deep_view();
        let ghost ds = dnas.deep_view();
        let ghost start = pallet@;
        let mut i: usize = 0;
        while i < self.genesis_kitties.len()
            invariant
                old(pallet)@ == start,
                self.buildable(start),
                keys == self.genesis_kitties.deep_view(),
                ds == dnas.deep_view(),
                dnas.len() == self.genesis_kitties.len(),
                i <= self.genesis_kitties.len(),
                pallet.wf(),
                pallet@ == build_outcome(start, keys.take(i as int), self.owner_account(), self.current_time, ds.take(i as int)),
                nonce_count(pallet@.nonce) == nonce_count(start.nonce) + i,
            decreases self.genesis_kitties.len() - i,
        {
            let owner = match self.owner {
                Some(o) => o,
                None => 0,
            };
            let _subject = pallet.get_and_increment_nonce();
            let kitty = Kitty::new(dnas[i].clone(), owner, 1, Gender::Male, self.current_time);
            pallet.insert_kitty(self.genesis_kitties[i].clone(), kitty);
            proof {
                assert(keys.take(i + 1).drop_last() =~= keys.take(i as int));
                assert(ds.take(i + 1).drop_last() =~= ds.take(i as int));
                assert(pallet@ == build_outcome(start, keys.take(i + 1), self.owner_account(), self.current_time, ds.take(i + 1)));
            }
            i = i + 1;
        }
        assert(keys.take(i as int) =~= keys);
        assert(ds.take(i as int) =~= ds);
        proof {
            lemma_genesis_kitties(start, keys, self.owner_account(), self.current_time, ds);
        }
    }

    /// Genesis: stores a kitty under each listed key, in order, each with a
    /// DNA drawn from the randomness of `config` on the encoded nonce, which
    /// advances each time: the outcome is that of `build_with_dnas` on those
    /// answers.
    pub fn build<T: Config>(&self, pallet: &mut Pallet, config: &T)
        requires
            old(pallet).wf(),
            self.buildable(old(pallet)@),
        ensures
            final(pallet).wf(),
            final(pallet)@ == build_outcome(
                old(pallet)@,
                self.genesis_kitties.deep_view(),
                self.owner_account(),
                self.current_time,
                drawn_dnas(*config, old(pallet)@.nonce, self.genesis_kitties.len() as nat),
            ),
            forall|j: int|
                0 <= j < self.genesis_kitties.len() ==> (#[trigger] drawn_dnas(
                    *config,
                    old(pallet)@.nonce,
                    self.genesis_kitties.len() as nat,
                )[j]).len() == config.randomness_len(),
            forall|k: Seq<u8>| #[trigger] self.genesis_kitties.deep_view().contains(k) ==> {
                &&& final(pallet)@.kitties.dom().contains(k)
                &&& final(pallet)@.kitties[k].gender == Gender::Male
                &&& final(pallet)@.kitties[k].price == 1
                &&& final(pallet)@.kitties[k].owner == self.owner_account()
                &&& final(pallet)@.kitties[k].created_date == self.current_time
            },
    {
        let ghost keys = self.genesis_kitties.deep_view();
        let ghost start = pallet@;
        let ghost mut ds: Seq<Seq<u8>> = Seq::empty();
        let mut i: usize = 0;
        while i < self.genesis_kitties.len()
            invariant
                old(pallet)@ == start,
                self.buildable(start),
                keys == self.genesis_kitties.deep_view(),
                i <= self.genesis_kitties.len(),
                ds == drawn_dnas(*config, start.nonce, i as nat),
                forall|j: int| 0 <= j < i ==> (#[trigger] ds[j]).len() == config.randomness_len(),
                pallet@.nonce == nonce_after(start.nonce, i as nat),
                pallet.wf(),
                pallet@ == build_outcome(start, keys.take(i as int), self.owner_account(), self.current_time, ds),
                nonce_count(pallet@.nonce) == nonce_count(start.nonce) + i,
            decreases self.genesis_kitties.len() - i,
        {
            let owner = match self.owner {
                Some(o) => o,
                None => 0,
            };
            let new_dna = pallet.gen_dna(config);
            let ghost d = new_dna@;
            let kitty = Kitty::new(new_dna, owner, 1, Gender::Male, self.current_time);
            pallet.insert_kitty(self.genesis_kitties[i].clone(), kitty);
            proof {
                assert(keys.take(i + 1).drop_last() =~= keys.take(i as int));
                assert(ds.push(d).drop_last() =~= ds);
                assert(ds.push(d) =~= drawn_dnas(*config, start.nonce, (i + 1) as nat));
                ds = ds.push(d);
            }
            i = i + 1;
        }
        assert(keys.take(i as int) =~= keys);
        assert(ds == drawn_dnas(*config, start.nonce, self.genesis_kitties.len() as nat));
        proof {
            lemma_genesis_kitties(start, keys, self.owner_account(), self.current_time, ds);
        }
    }
}

} // verus!
