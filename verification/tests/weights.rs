use pallet_kitties::weights::{RuntimeDbWeight, WeightInfo};

#[test]
fn weights_of_calls() {
    let db = RuntimeDbWeight { read: 25_000_000, write: 100_000_000 };
    assert_eq!(WeightInfo::create_kitty(&db), 31_000_000 + 6 * 25_000_000 + 4 * 100_000_000);
    assert_eq!(WeightInfo::transfer(&db), 21_000_000 + 3 * 25_000_000 + 3 * 100_000_000);
    assert_eq!(db.reads(2), 50_000_000);
    assert_eq!(db.writes(0), 0);
}

#[test]
fn weights_saturate() {
    let db = RuntimeDbWeight { read: u64::MAX / 2, write: 1 };
    assert_eq!(db.reads(3), u64::MAX);
    assert_eq!(WeightInfo::create_kitty(&db), u64::MAX);
}
