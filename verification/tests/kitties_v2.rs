use pallet_kitties::kitties_v2::{Config, Error, Event, Gender, GenesisConfig, Pallet};
use pallet_kitties::origin::{DispatchError, Origin};

/// Randomness that echoes the subject it was asked about, padded with zeros
/// to seven bytes and followed by a marker: always eight bytes.
struct EchoRandomness;

impl Config for EchoRandomness {
    // specification-only items of the trait, never run
    fn randomness_of(&self, _subject: vstd::seq::Seq<u8>) -> vstd::seq::Seq<u8> {
        unreachable!()
    }

    fn randomness_len(&self) -> vstd::prelude::nat {
        unreachable!()
    }

    fn kitty_randomness(&self, subject: &Vec<u8>) -> Vec<u8> {
        let mut out = subject.clone();
        out.resize(7, 0);
        out.push(0xAA);
        out
    }
}

/// What `EchoRandomness` returns for `subject`.
fn echo(subject: &[u8]) -> Vec<u8> {
    let mut out = subject.to_vec();
    out.resize(7, 0);
    out.push(0xAA);
    out
}

fn module_err(e: Error) -> Result<(), DispatchError<Error>> {
    Err(DispatchError::Module(e))
}

#[test]
fn create_kitty() {
    let mut pallet = Pallet::new(10);
    let mut vec = Vec::new();
    vec.push(1);
    assert_eq!(pallet.create_kitty(&EchoRandomness, Origin::signed(1), vec, 1), Ok(()));
}

#[test]
fn create_kitty_stores_kitty_and_lists_it() {
    let mut pallet = Pallet::new(10);
    assert_eq!(pallet.create_kitty(&EchoRandomness, Origin::signed(1), vec![1, 2], 7), Ok(()));
    let kitty = pallet.get_kitty(&vec![1, 2]).unwrap();
    assert_eq!(kitty.owner(), 1);
    assert_eq!(kitty.price(), 7);
    assert_eq!(kitty.gender(), Gender::Male);
    assert_eq!(kitty.created_date(), 0);
    // the DNA is what the randomness returned for the encoded unset nonce
    assert_eq!(kitty.dna(), &echo(&[0]));
    assert_eq!(kitty.dna().len(), 8);
    assert_eq!(pallet.kitty_id(), 1);
    assert_eq!(pallet.nonce(), Some(1));
    assert_eq!(pallet.kitty_owned(1), vec![vec![1u8, 2]]);
    assert_eq!(pallet.events(), &vec![Event::Created { dna: vec![1, 2], owner: 1 }]);
}

#[test]
fn second_kitty_gets_encoded_nonce_subject() {
    let mut pallet = Pallet::new(10);
    assert_eq!(pallet.create_kitty(&EchoRandomness, Origin::signed(1), vec![1], 1), Ok(()));
    assert_eq!(pallet.create_kitty(&EchoRandomness, Origin::signed(1), vec![2], 1), Ok(()));
    let kitty = pallet.get_kitty(&vec![2]).unwrap();
    assert_eq!(kitty.dna(), &echo(&[1, 1, 0, 0, 0]));
    assert_eq!(kitty.gender(), Gender::Female);
    assert_eq!(pallet.nonce(), Some(2));
}

#[test]
fn create_kitty_unsigned_is_bad_origin() {
    let mut pallet = Pallet::new(10);
    assert_eq!(pallet.create_kitty(&EchoRandomness, Origin::Unsigned, vec![1], 1), Err(DispatchError::BadOrigin));
    assert_eq!(pallet.create_kitty(&EchoRandomness, Origin::Root, vec![1], 1), Err(DispatchError::BadOrigin));
    assert_eq!(pallet.kitty_id(), 0);
    assert_eq!(pallet.nonce(), None);
}

#[test]
fn create_kitty_duplicate_changes_nothing() {
    let mut pallet = Pallet::new(10);
    assert_eq!(pallet.create_kitty(&EchoRandomness, Origin::signed(1), vec![1], 1), Ok(()));
    assert_eq!(pallet.create_kitty(&EchoRandomness, Origin::signed(2), vec![1], 5), module_err(Error::DuplicateKitty));
    assert_eq!(pallet.kitty_id(), 1);
    assert_eq!(pallet.nonce(), Some(1));
    assert_eq!(pallet.get_kitty(&vec![1]).unwrap().owner(), 1);
    assert_eq!(pallet.kitty_owned(2), Vec::<Vec<u8>>::new());
    assert_eq!(pallet.events().len(), 1);
}

#[test]
fn create_kitty_beyond_limit_is_refused() {
    let mut pallet = Pallet::new(2);
    assert_eq!(pallet.create_kitty(&EchoRandomness, Origin::signed(1), vec![1], 1), Ok(()));
    assert_eq!(pallet.create_kitty(&EchoRandomness, Origin::signed(1), vec![2], 1), Ok(()));
    assert_eq!(pallet.create_kitty(&EchoRandomness, Origin::signed(1), vec![3], 1), module_err(Error::ExceedMaxKittyOwned));
    assert!(pallet.get_kitty(&vec![3]).is_none());
    assert_eq!(pallet.kitty_id(), 2);
    assert_eq!(pallet.nonce(), Some(2));
    assert_eq!(pallet.kitty_owned(1).len(), 2);
}

#[test]
fn zero_limit_refuses_every_kitty() {
    let mut pallet = Pallet::new(0);
    assert_eq!(pallet.create_kitty_with_dna(1, vec![9], 1, vec![4, 4]), module_err(Error::ExceedMaxKittyOwned));
    assert_eq!(pallet.kitty_id(), 0);
    assert_eq!(pallet.nonce(), None);
    assert!(pallet.get_kitty(&vec![9]).is_none());
}

#[test]
fn create_kitty_with_dna_uses_given_dna() {
    let mut pallet = Pallet::new(5);
    assert_eq!(pallet.create_kitty_with_dna(3, vec![9, 9, 9], 4, vec![7, 7]), Ok(()));
    let kitty = pallet.get_kitty(&vec![9, 9, 9]).unwrap();
    assert_eq!(kitty.dna(), &vec![7u8, 7]);
    assert_eq!(kitty.gender(), Gender::Female);
    assert_eq!(kitty.owner(), 3);
    assert_eq!(pallet.nonce(), Some(1));
}

#[test]
fn transfer_moves_kitty() {
    let mut pallet = Pallet::new(10);
    assert_eq!(pallet.create_kitty(&EchoRandomness, Origin::signed(1), vec![1], 1), Ok(()));
    assert_eq!(pallet.create_kitty(&EchoRandomness, Origin::signed(1), vec![2], 1), Ok(()));
    assert_eq!(pallet.create_kitty(&EchoRandomness, Origin::signed(1), vec![3], 1), Ok(()));
    assert_eq!(pallet.transfer(Origin::signed(1), vec![1], 2), Ok(()));
    assert_eq!(pallet.get_kitty(&vec![1]).unwrap().owner(), 2);
    // swap_remove: the last entry takes the removed one's place
    assert_eq!(pallet.kitty_owned(1), vec![vec![3u8], vec![2]]);
    assert_eq!(pallet.kitty_owned(2), vec![vec![1u8]]);
    assert_eq!(pallet.events().last().unwrap(), &Event::Transfer { from: 1, to: 2, dna: vec![1] });
    assert_eq!(pallet.kitty_id(), 3);
}

#[test]
fn transfer_errors() {
    let mut pallet = Pallet::new(1);
    assert_eq!(pallet.create_kitty(&EchoRandomness, Origin::signed(1), vec![1], 1), Ok(()));
    assert_eq!(pallet.create_kitty(&EchoRandomness, Origin::signed(2), vec![2], 1), Ok(()));
    assert_eq!(pallet.transfer(Origin::Unsigned, vec![1], 2), Err(DispatchError::BadOrigin));
    assert_eq!(pallet.transfer(Origin::signed(1), vec![5], 2), module_err(Error::NoKitty));
    assert_eq!(pallet.transfer(Origin::signed(2), vec![1], 3), module_err(Error::NotOwner));
    assert_eq!(pallet.transfer(Origin::signed(1), vec![1], 1), module_err(Error::TransferToSelf));
    assert_eq!(pallet.transfer(Origin::signed(1), vec![1], 2), module_err(Error::ExceedMaxKittyOwned));
    assert_eq!(pallet.get_kitty(&vec![1]).unwrap().owner(), 1);
    assert_eq!(pallet.kitty_owned(1), vec![vec![1u8]]);
    assert_eq!(pallet.events().len(), 2);
}

#[test]
fn transfer_of_unlisted_kitty_is_no_kitty() {
    let mut pallet = Pallet::new(10);
    let genesis = GenesisConfig { genesis_kitties: vec![vec![8]], owner: Some(4), current_time: 0 };
    genesis.build(&mut pallet, &EchoRandomness);
    // genesis kitties are not listed for their owner
    assert_eq!(pallet.transfer(Origin::signed(4), vec![8], 5), module_err(Error::NoKitty));
}

#[test]
fn transfer_round_trip_restores_owner() {
    let mut pallet = Pallet::new(10);
    assert_eq!(pallet.create_kitty(&EchoRandomness, Origin::signed(1), vec![1], 3), Ok(()));
    let before = pallet.get_kitty(&vec![1]).unwrap();
    assert_eq!(pallet.transfer(Origin::signed(1), vec![1], 2), Ok(()));
    assert_eq!(pallet.transfer(Origin::signed(2), vec![1], 1), Ok(()));
    let after = pallet.get_kitty(&vec![1]).unwrap();
    assert_eq!(before, after);
    assert_eq!(pallet.kitty_owned(1).len(), 1);
    assert_eq!(pallet.kitty_owned(2).len(), 0);
}

#[test]
fn transfer_back_restores_lists_up_to_order() {
    let mut pallet = Pallet::new(10);
    for d in 1u8..=3 {
        assert_eq!(pallet.create_kitty(&EchoRandomness, Origin::signed(1), vec![d], 1), Ok(()));
    }
    assert_eq!(pallet.create_kitty(&EchoRandomness, Origin::signed(2), vec![9], 1), Ok(()));
    assert_eq!(pallet.transfer(Origin::signed(1), vec![1], 2), Ok(()));
    assert_eq!(pallet.transfer(Origin::signed(2), vec![1], 1), Ok(()));
    assert_eq!(pallet.kitty_owned(2), vec![vec![9u8]]);
    let mut a = pallet.kitty_owned(1);
    assert_eq!(a, vec![vec![3u8], vec![2], vec![1]]);
    a.sort();
    assert_eq!(a, vec![vec![1u8], vec![2], vec![3]]);
}

#[test]
fn successive_nonce_subjects_differ() {
    let mut pallet = Pallet::new(10);
    let mut seen: Vec<Vec<u8>> = Vec::new();
    for _ in 0..300 {
        let s = pallet.get_and_increment_nonce();
        assert!(!seen.contains(&s));
        seen.push(s);
    }
    assert_eq!(pallet.nonce(), Some(300));
    assert_eq!(seen[299], vec![1u8, 43, 1, 0, 0]);
}

#[test]
fn do_something_stores_and_emits() {
    let mut pallet = Pallet::new(10);
    assert_eq!(pallet.do_something(Origin::signed(7), 42), Ok(()));
    assert_eq!(pallet.something(), Some(42));
    assert_eq!(pallet.events(), &vec![Event::SomethingStored(42, 7)]);
    assert_eq!(pallet.do_something(Origin::Root, 1), Err(DispatchError::BadOrigin));
    assert_eq!(pallet.something(), Some(42));
}

#[test]
fn cause_error_cases() {
    let mut pallet = Pallet::new(10);
    assert_eq!(pallet.cause_error(Origin::signed(1)), module_err(Error::NoneValue));
    assert_eq!(pallet.cause_error(Origin::Unsigned), Err(DispatchError::BadOrigin));
    assert_eq!(pallet.do_something(Origin::signed(1), 5), Ok(()));
    assert_eq!(pallet.cause_error(Origin::signed(1)), Ok(()));
    assert_eq!(pallet.something(), Some(6));
    assert_eq!(pallet.do_something(Origin::signed(1), u32::MAX), Ok(()));
    assert_eq!(pallet.cause_error(Origin::signed(1)), module_err(Error::StorageOverflow));
    assert_eq!(pallet.something(), Some(u32::MAX));
}

#[test]
fn gen_gender_by_length_parity() {
    assert_eq!(Pallet::gen_gender(&vec![]), Ok(Gender::Male));
    assert_eq!(Pallet::gen_gender(&vec![1]), Ok(Gender::Female));
    assert_eq!(Pallet::gen_gender(&vec![1, 2]), Ok(Gender::Male));
}

#[test]
fn nonce_subjects_are_scale_encoded() {
    let mut pallet = Pallet::new(10);
    assert_eq!(pallet.get_and_increment_nonce(), vec![0u8]);
    assert_eq!(pallet.get_and_increment_nonce(), vec![1u8, 1, 0, 0, 0]);
    assert_eq!(pallet.nonce(), Some(2));
    assert_eq!(pallet.gen_dna(&EchoRandomness), echo(&[1, 2, 0, 0, 0]));
    assert_eq!(pallet.nonce(), Some(3));
}

#[test]
fn fix_kitty_for_alice_appends() {
    let mut pallet = Pallet::new(1);
    assert_eq!(pallet.fixKittyForAlice(1, vec![5]), Ok(()));
    assert_eq!(pallet.fixKittyForAlice(1, vec![5]), Ok(()));
    assert_eq!(pallet.kitty_owned(1), vec![vec![5u8], vec![5]]);
    assert!(pallet.get_kitty(&vec![5]).is_none());
}

#[test]
fn genesis_builds_kitties() {
    let mut pallet = Pallet::new(10);
    let genesis = GenesisConfig { genesis_kitties: vec![vec![1], vec![2, 2]], owner: Some(9), current_time: 77 };
    genesis.build(&mut pallet, &EchoRandomness);
    let k1 = pallet.get_kitty(&vec![1]).unwrap();
    let k2 = pallet.get_kitty(&vec![2, 2]).unwrap();
    assert_eq!(k1.owner(), 9);
    assert_eq!(k1.price(), 1);
    assert_eq!(k1.gender(), Gender::Male);
    assert_eq!(k1.created_date(), 77);
    assert_eq!(k1.dna(), &echo(&[0]));
    assert_eq!(k2.dna(), &echo(&[1, 1, 0, 0, 0]));
    assert_eq!(pallet.nonce(), Some(2));
    assert_eq!(pallet.kitty_id(), 0);
    assert_eq!(pallet.kitty_owned(9).len(), 0);
}

#[test]
fn genesis_with_dnas() {
    let mut pallet = Pallet::new(10);
    let genesis = GenesisConfig { genesis_kitties: vec![vec![1], vec![1]], owner: Some(3), current_time: 5 };
    genesis.build_with_dnas(&mut pallet, vec![vec![10], vec![20]]);
    assert_eq!(pallet.get_kitty(&vec![1]).unwrap().dna(), &vec![20u8]);
    assert_eq!(pallet.nonce(), Some(2));
}

#[test]
fn genesis_default_is_empty() {
    let genesis = GenesisConfig::default();
    assert!(genesis.genesis_kitties.is_empty());
    assert_eq!(genesis.owner, None);
    assert_eq!(genesis.current_time, 0);
    let mut pallet = Pallet::new(1);
    genesis.build(&mut pallet, &EchoRandomness);
    assert_eq!(pallet.nonce(), None);
}

#[test]
fn kitty_debug_lists_fields() {
    let mut pallet = Pallet::new(10);
    assert_eq!(pallet.create_kitty_with_dna(1, vec![1], 2, vec![3]), Ok(()));
    let kitty = pallet.get_kitty(&vec![1]).unwrap();
    assert_eq!(
        format!("{:?}", kitty),
        "Kitty { dna: [3], owner: 1, price: 2, gender: Female, created_date: 0 }"
    );
}

#[test]
fn storage_getters_start_empty() {
    let pallet = Pallet::new(4);
    assert_eq!(pallet.something(), None);
    assert_eq!(pallet.kitty_id(), 0);
    assert_eq!(pallet.kitty_owned_genesis(1), Vec::<u8>::new());
    assert_eq!(pallet.max_kitty_owned(), 4);
    assert!(pallet.events().is_empty());
}
