use pallet_kitties::exercise::{Error, Event, Gender, Kitty, Pallet};
use pallet_kitties::origin::{DispatchError, Origin};

#[test]
fn exercise_create_kitty_numbers_kitties() {
    let mut pallet = Pallet::new();
    assert_eq!(pallet.create_kitty(Origin::signed(1), vec![1, 2], 10), Ok(()));
    assert_eq!(pallet.create_kitty(Origin::signed(2), vec![3], 20), Ok(()));
    assert_eq!(pallet.kitty_id(), 2);
    let k0 = pallet.kitty(0).unwrap();
    assert_eq!(k0.owner(), 1);
    assert_eq!(k0.dna(), &vec![1u8, 2]);
    assert_eq!(k0.gender(), Gender::Male);
    let k1 = pallet.kitty(1).unwrap();
    assert_eq!(k1.price(), 20);
    assert_eq!(k1.gender(), Gender::Female);
    assert_eq!(pallet.Infokitty(&vec![3]).unwrap().owner(), 2);
    assert!(pallet.kitty(2).is_none());
    assert_eq!(pallet.events(), &vec![Event::KittyStored(vec![1, 2], 10), Event::KittyStored(vec![3], 20)]);
}

#[test]
fn exercise_ids_are_dense() {
    let mut pallet = Pallet::new();
    for i in 0u8..5 {
        assert_eq!(pallet.create_kitty(Origin::signed(1), vec![i], 1), Ok(()));
    }
    assert_eq!(pallet.change_owner_kitty(Origin::signed(1), 2, 7), Ok(()));
    for id in 0..5 {
        assert!(pallet.kitty(id).is_some());
    }
    assert!(pallet.kitty(5).is_none());
    assert_eq!(pallet.kitty_id(), 5);
}

#[test]
fn exercise_create_kitty_unsigned() {
    let mut pallet = Pallet::new();
    assert_eq!(pallet.create_kitty(Origin::Root, vec![1], 1), Err(DispatchError::BadOrigin));
    assert_eq!(pallet.kitty_id(), 0);
}

#[test]
fn exercise_change_owner() {
    let mut pallet = Pallet::new();
    assert_eq!(pallet.create_kitty(Origin::signed(1), vec![4], 3), Ok(()));
    assert_eq!(pallet.change_owner_kitty(Origin::signed(2), 0, 3), Err(DispatchError::Module(Error::NotOwner)));
    assert_eq!(pallet.kitty(0).unwrap().owner(), 1);
    assert_eq!(pallet.change_owner_kitty(Origin::signed(1), 0, 3), Ok(()));
    assert_eq!(pallet.kitty(0).unwrap().owner(), 3);
    assert_eq!(pallet.Infokitty(&vec![4]).unwrap().owner(), 3);
    assert_eq!(pallet.kitty(0).unwrap().price(), 3);
    assert_eq!(pallet.change_owner_kitty(Origin::Unsigned, 0, 1), Err(DispatchError::BadOrigin));
}

#[test]
fn exercise_defaults_and_gender() {
    assert_eq!(Gender::default(), Gender::Female);
    let k = Kitty::default();
    assert_eq!(k.dna(), &Vec::<u8>::new());
    assert_eq!(k.owner(), 0);
    assert_eq!(k.price(), 0);
    assert_eq!(k.gender(), Gender::Female);
    assert_eq!(Pallet::gen_gender(vec![1, 2, 3, 4]), Ok(Gender::Male));
    assert_eq!(Pallet::gen_gender(vec![1, 2, 3]), Ok(Gender::Female));
    let pallet = Pallet::new();
    assert_eq!(pallet.Ownerkitty(1), None);
}
