//! Properties of the pallet that span calls.
use vstd::prelude::*;
use crate::origin::{AccountId, Origin};
use crate::codec::scale_option_u32;
use crate::kitties_v2::types::{Error, EventView, Gender, KittyView};
use crate::origin::{ArithmeticError, DispatchError};
use crate::kitties_v2::model::{
    append_owned, cause_error_outcome, create_kitty_outcome, do_something_outcome, gender_of,
    nonce_after, nonce_count, owned_of, transfer_outcome, without_first, PalletView,
};
use crate::kitties_v2::genesis::build_outcome;

verus! {

/// Every listed DNA names a stored kitty owned by the account it is listed
/// for, no list names a DNA twice, and every stored kitty is listed for its
/// owner.
pub open spec fn ownership_consistent(s: PalletView) -> bool {
    &&& forall|a: AccountId, i: int|
        0 <= i < owned_of(s, a).len() ==> s.kitties.dom().contains(#[trigger] owned_of(s, a)[i])
            && s.kitties[owned_of(s, a)[i]].owner == a
    &&& forall|a: AccountId| #[trigger] owned_of(s, a).no_duplicates()
    &&& forall|d: Seq<u8>|
        #[trigger] s.kitties.dom().contains(d) ==> owned_of(s, s.kitties[d].owner).contains(d)
}

/// No account lists more kitties than `MaxKittyOwned`.
pub open spec fn within_limit(s: PalletView) -> bool {
    forall|a: AccountId| #[trigger] owned_of(s, a).len() <= s.max_kitty_owned
}

/// Empty storage is ownership-consistent and within the limit.
pub proof fn lemma_empty_storage_consistent(s: PalletView)
    requires
        s.kitties == Map::<Seq<u8>, KittyView>::empty(),
        s.kitties_owned == Map::<AccountId, Seq<Seq<u8>>>::empty(),
    ensures
        ownership_consistent(s),
        within_limit(s),
{
    assert forall|a: AccountId| #[trigger] owned_of(s, a).no_duplicates() by {}
}

/// Removing the first occurrence of `dna` from a list without duplicates
/// that holds it removes exactly `dna`.
pub proof fn lemma_without_first(list: Seq<Seq<u8>>, dna: Seq<u8>)
    requires
        list.no_duplicates(),
        list.contains(dna),
    ensures
        without_first(list, dna).len() == list.len() - 1,
        without_first(list, dna).no_duplicates(),
        forall|x: Seq<u8>| #[trigger] without_first(list, dna).contains(x) <==> (list.contains(x) && x != dna),
{
    list.index_of_first_ensures(dna);
    let i = list.index_of_first(dna).unwrap();
    let n = list.len() - 1;
    let r = without_first(list, dna);
    assert(r.len() == n);
    assert forall|j: int| 0 <= j < n implies #[trigger] r[j] == (if j == i { list[n] } else { list[j] }) by {}
    assert forall|j: int, k: int| 0 <= j < r.len() && 0 <= k < r.len() && j != k implies r[j] != r[k] by {
        let jj = if j == i { n } else { j };
        let kk = if k == i { n } else { k };
        assert(r[j] == list[jj]);
        assert(r[k] == list[kk]);
    }
    assert forall|x: Seq<u8>| #[trigger] r.contains(x) <==> (list.contains(x) && x != dna) by {
        if r.contains(x) {
            let j = choose|j: int| 0 <= j < r.len() && r[j] == x;
            let jj = if j == i { n } else { j };
            assert(list[jj] == x);
            assert(jj != i);
        }
        if list.contains(x) && x != dna {
            let j = choose|j: int| 0 <= j < list.len() && list[j] == x;
            assert(j != i);
            if j == n {
                assert(r[i] == x);
            } else {
                assert(r[j] == x);
            }
        }
    }
}

/// `create_kitty` keeps storage ownership-consistent, whatever it returns.
pub proof fn lemma_create_kitty_keeps_consistency(
    s: PalletView,
    who: AccountId,
    dna: Seq<u8>,
    price: u32,
    new_dna: Seq<u8>,
)
    requires
        ownership_consistent(s),
    ensures
        ownership_consistent(create_kitty_outcome(s, who, dna, price, new_dna).0),
{
    let (t, r) = create_kitty_outcome(s, who, dna, price, new_dna);
    if r is Ok {
        assert forall|a: AccountId, i: int| 0 <= i < owned_of(t, a).len() implies t.kitties.dom().contains(
            #[trigger] owned_of(t, a)[i],
        ) && t.kitties[owned_of(t, a)[i]].owner == a by {
            if a == who && i == owned_of(s, a).len() {
            } else {
                assert(owned_of(t, a)[i] == owned_of(s, a)[i]);
                assert(s.kitties.dom().contains(owned_of(s, a)[i]));
            }
        }
        assert forall|a: AccountId| #[trigger] owned_of(t, a).no_duplicates() by {
            assert(owned_of(s, a).no_duplicates());
            if a == who {
                assert forall|i: int| 0 <= i < owned_of(s, a).len() implies owned_of(s, a)[i] != dna by {
                    assert(s.kitties.dom().contains(owned_of(s, a)[i]));
                }
                assert forall|i: int, j: int|
                    0 <= i < owned_of(t, a).len() && 0 <= j < owned_of(t, a).len() && i != j implies
                    owned_of(t, a)[i] != owned_of(t, a)[j] by {}
            }
        }
        assert forall|d: Seq<u8>| #[trigger] t.kitties.dom().contains(d) implies owned_of(t, t.kitties[d].owner).contains(d) by {
            if d == dna {
                assert(owned_of(t, who)[owned_of(s, who).len() as int] == dna);
            } else {
                let o = s.kitties[d].owner;
                assert(owned_of(s, o).contains(d));
                let j = choose|j: int| 0 <= j < owned_of(s, o).len() && owned_of(s, o)[j] == d;
                assert(owned_of(t, o)[j] == d);
            }
        }
    }
}

/// `transfer` keeps storage ownership-consistent, whatever it returns.
pub proof fn lemma_transfer_keeps_consistency(s: PalletView, origin: Origin, dna: Seq<u8>, to: AccountId)
    requires
        ownership_consistent(s),
    ensures
        ownership_consistent(transfer_outcome(s, origin, dna, to).0),
{
    let (t, r) = transfer_outcome(s, origin, dna, to);
    if r is Ok {
        let who = origin->Signed_0;
        let from = owned_of(s, who);
        lemma_without_first(from, dna);
        assert(owned_of(t, who) == without_first(from, dna));
        assert(owned_of(t, to) == owned_of(s, to).push(dna));
        assert forall|a: AccountId, i: int| 0 <= i < owned_of(t, a).len() implies t.kitties.dom().contains(
            #[trigger] owned_of(t, a)[i],
        ) && t.kitties[owned_of(t, a)[i]].owner == a by {
            let x = owned_of(t, a)[i];
            if a == who {
                assert(owned_of(t, a).contains(x));
                let j = choose|j: int| 0 <= j < from.len() && from[j] == x;
                assert(s.kitties[from[j]].owner == who);
            } else if a == to {
                if i < owned_of(s, to).len() {
                    assert(x == owned_of(s, to)[i]);
                    assert(s.kitties[x].owner == to);
                }
            } else {
                assert(x == owned_of(s, a)[i]);
                assert(s.kitties[x].owner == a);
            }
        }
        assert forall|a: AccountId| #[trigger] owned_of(t, a).no_duplicates() by {
            assert(owned_of(s, a).no_duplicates());
            if a == to {
                assert forall|i: int| 0 <= i < owned_of(s, to).len() implies owned_of(s, to)[i] != dna by {
                    assert(s.kitties[owned_of(s, to)[i]].owner == to);
                }
                assert forall|i: int, j: int|
                    0 <= i < owned_of(t, a).len() && 0 <= j < owned_of(t, a).len() && i != j implies
                    owned_of(t, a)[i] != owned_of(t, a)[j] by {}
            }
        }
        assert forall|d: Seq<u8>| #[trigger] t.kitties.dom().contains(d) implies owned_of(t, t.kitties[d].owner).contains(d) by {
            if d == dna {
                assert(owned_of(t, to)[owned_of(s, to).len() as int] == dna);
            } else {
                let o = s.kitties[d].owner;
                assert(owned_of(s, o).contains(d));
                if o == who {
                    assert(without_first(from, dna).contains(d));
                } else if o == to {
                    let j = choose|j: int| 0 <= j < owned_of(s, o).len() && owned_of(s, o)[j] == d;
                    assert(owned_of(t, o)[j] == d);
                } else {
                    assert(owned_of(t, o) == owned_of(s, o));
                }
            }
        }
    }
}

/// `create_kitty` never takes an account past `MaxKittyOwned`.
pub proof fn lemma_create_kitty_keeps_limit(s: PalletView, who: AccountId, dna: Seq<u8>, price: u32, new_dna: Seq<u8>)
    requires
        within_limit(s),
    ensures
        within_limit(create_kitty_outcome(s, who, dna, price, new_dna).0),
{
    let t = create_kitty_outcome(s, who, dna, price, new_dna).0;
    assert forall|a: AccountId| #[trigger] owned_of(t, a).len() <= t.max_kitty_owned by {
        assert(owned_of(s, a).len() <= s.max_kitty_owned);
        assert(owned_of(s, who).len() <= s.max_kitty_owned);
    }
}

/// `transfer` never takes an account past `MaxKittyOwned`.
pub proof fn lemma_transfer_keeps_limit(s: PalletView, origin: Origin, dna: Seq<u8>, to: AccountId)
    requires
        within_limit(s),
    ensures
        within_limit(transfer_outcome(s, origin, dna, to).0),
{
    let (t, r) = transfer_outcome(s, origin, dna, to);
    if r is Ok {
        let who = origin->Signed_0;
        assert(owned_of(s, to).len() <= s.max_kitty_owned);
        assert forall|a: AccountId| #[trigger] owned_of(t, a).len() <= t.max_kitty_owned by {
            assert(owned_of(s, a).len() <= s.max_kitty_owned);
            if a == who {
                owned_of(s, who).index_of_first_ensures(dna);
            }
        }
    }
}

/// A successful `create_kitty` adds exactly the kitty under `dna`, owned by
/// its creator, and advances the counter by one.
pub proof fn lemma_create_kitty_adds_one(s: PalletView, who: AccountId, dna: Seq<u8>, price: u32, new_dna: Seq<u8>)
    requires
        create_kitty_outcome(s, who, dna, price, new_dna).1 is Ok,
    ensures
        ({
            let t = create_kitty_outcome(s, who, dna, price, new_dna).0;
            &&& !s.kitties.dom().contains(dna)
            &&& t.kitties.dom() == s.kitties.dom().insert(dna)
            &&& forall|d: Seq<u8>| s.kitties.dom().contains(d) ==> #[trigger] t.kitties[d] == s.kitties[d]
            &&& t.kitties[dna].owner == who
            &&& t.kitty_id == s.kitty_id + 1
        }),
{
    let t = create_kitty_outcome(s, who, dna, price, new_dna).0;
    assert(t.kitties.dom() =~= s.kitties.dom().insert(dna));
}

/// A successful `transfer` changes the owner of that one kitty to the
/// receiver and nothing else about the stored kitties or the counter.
pub proof fn lemma_transfer_moves_only_owner(s: PalletView, origin: Origin, dna: Seq<u8>, to: AccountId)
    requires
        transfer_outcome(s, origin, dna, to).1 is Ok,
    ensures
        ({
            let t = transfer_outcome(s, origin, dna, to).0;
            &&& t.kitties.dom() == s.kitties.dom()
            &&& forall|d: Seq<u8>| d != dna ==> #[trigger] t.kitties[d] == s.kitties[d]
            &&& t.kitties[dna] == (KittyView { owner: to, ..s.kitties[dna] })
            &&& t.kitty_id == s.kitty_id
            &&& t.nonce == s.nonce
        }),
{
    let t = transfer_outcome(s, origin, dna, to).0;
    assert(t.kitties.dom() =~= s.kitties.dom());
}

/// Distinct nonces are encoded as distinct subjects, so successive draws of
/// randomness are asked about different subjects.
pub proof fn lemma_nonce_subjects_distinct(x: Option<u32>, y: Option<u32>)
    requires
        x != y,
    ensures
        scale_option_u32(x) != scale_option_u32(y),
{
    if x is Some && y is Some {
        let u = x->0;
        let v = y->0;
        if scale_option_u32(x) == scale_option_u32(y) {
            assert(scale_option_u32(x)[1] == scale_option_u32(y)[1]);
            assert(scale_option_u32(x)[2] == scale_option_u32(y)[2]);
            assert(scale_option_u32(x)[3] == scale_option_u32(y)[3]);
            assert(scale_option_u32(x)[4] == scale_option_u32(y)[4]);
            assert(u % 256 == v % 256);
            assert((u / 256) % 256 == (v / 256) % 256);
            assert((u / 65536) % 256 == (v / 65536) % 256);
            assert(u / 16777216 == v / 16777216);
            assert(u == v) by (bit_vector)
                requires
                    u % 256 == v % 256,
                    (u / 256) % 256 == (v / 256) % 256,
                    (u / 65536) % 256 == (v / 65536) % 256,
                    u / 16777216 == v / 16777216,
            ;
        }
    } else if x is Some || y is Some {
        assert(scale_option_u32(x)[0] != scale_option_u32(y)[0]);
    }
}

/// The nonce after `k` uses, starting from `n`, is `n`'s count plus `k`.
pub proof fn lemma_nonce_after_value(n: Option<u32>, k: nat)
    requires
        k >= 1,
        nonce_count(n) + k <= u32::MAX,
    ensures
        nonce_after(n, k) == Some((nonce_count(n) + k) as u32),
    decreases k,
{
    assert(nonce_after(n, 0) == n);
    if k > 1 {
        lemma_nonce_after_value(n, (k - 1) as nat);
    }
}

/// Used `k` times from `n`, the nonce ends at `n`'s count plus `k`, and the
/// `k` subjects handed out (the encodings of the nonce before each use) are
/// pairwise distinct: the randomness is never asked about the same subject
/// twice.
pub proof fn lemma_nonce_subjects_never_repeat(n: Option<u32>, k: nat)
    requires
        nonce_count(n) + k <= u32::MAX,
    ensures
        k >= 1 ==> nonce_after(n, k) == Some((nonce_count(n) + k) as u32),
        forall|i: nat, j: nat|
            i < j < k ==> scale_option_u32(#[trigger] nonce_after(n, i)) != scale_option_u32(
                #[trigger] nonce_after(n, j),
            ),
{
    if k >= 1 {
        lemma_nonce_after_value(n, k);
    }
    assert forall|i: nat, j: nat| i < j < k implies scale_option_u32(#[trigger] nonce_after(n, i))
        != scale_option_u32(#[trigger] nonce_after(n, j)) by {
        lemma_nonce_after_value(n, j);
        if i >= 1 {
            lemma_nonce_after_value(n, i);
        }
        lemma_nonce_subjects_distinct(nonce_after(n, i), nonce_after(n, j));
    }
}

/// The invariant that creating and transferring kitties keep: ownership is
/// consistent and no account is past the limit.
pub open spec fn storage_invariant(s: PalletView) -> bool {
    ownership_consistent(s) && within_limit(s)
}

/// Under consistent ownership no DNA is listed for two accounts.
pub proof fn lemma_lists_disjoint(s: PalletView, a: AccountId, b: AccountId, d: Seq<u8>)
    requires
        ownership_consistent(s),
        a != b,
        owned_of(s, a).contains(d),
    ensures
        !owned_of(s, b).contains(d),
{
    let i = choose|i: int| 0 <= i < owned_of(s, a).len() && owned_of(s, a)[i] == d;
    assert(s.kitties[owned_of(s, a)[i]].owner == a);
    if owned_of(s, b).contains(d) {
        let j = choose|j: int| 0 <= j < owned_of(s, b).len() && owned_of(s, b)[j] == d;
        assert(s.kitties[owned_of(s, b)[j]].owner == b);
    }
}

/// `create_kitty` keeps the storage invariant, whatever it returns.
pub proof fn lemma_create_kitty_keeps_invariant(s: PalletView, who: AccountId, dna: Seq<u8>, price: u32, new_dna: Seq<u8>)
    requires
        storage_invariant(s),
    ensures
        storage_invariant(create_kitty_outcome(s, who, dna, price, new_dna).0),
{
    lemma_create_kitty_keeps_consistency(s, who, dna, price, new_dna);
    lemma_create_kitty_keeps_limit(s, who, dna, price, new_dna);
}

/// `transfer` keeps the storage invariant, whatever it returns.
pub proof fn lemma_transfer_keeps_invariant(s: PalletView, origin: Origin, dna: Seq<u8>, to: AccountId)
    requires
        storage_invariant(s),
    ensures
        storage_invariant(transfer_outcome(s, origin, dna, to).0),
{
    lemma_transfer_keeps_consistency(s, origin, dna, to);
    lemma_transfer_keeps_limit(s, origin, dna, to);
}

/// `do_something` and `cause_error` leave kitties and lists alone, so they
/// keep the storage invariant.
pub proof fn lemma_value_calls_keep_invariant(s: PalletView, origin: Origin, something: u32)
    requires
        storage_invariant(s),
    ensures
        storage_invariant(do_something_outcome(s, origin, something).0),
        storage_invariant(cause_error_outcome(s, origin).0),
{
    let t = do_something_outcome(s, origin, something).0;
    let u = cause_error_outcome(s, origin).0;
    assert forall|a: AccountId| owned_of(t, a) == owned_of(s, a) && owned_of(u, a) == owned_of(s, a) by {}
}

/// Two sequences without duplicates that hold the same items are
/// permutations of each other.
pub proof fn lemma_same_items_same_multiset(x: Seq<Seq<u8>>, y: Seq<Seq<u8>>)
    requires
        x.no_duplicates(),
        y.no_duplicates(),
        forall|e: Seq<u8>| x.contains(e) <==> y.contains(e),
    ensures
        x.to_multiset() == y.to_multiset(),
{
    broadcast use vstd::seq_lib::group_to_multiset_ensures;

    x.lemma_multiset_has_no_duplicates();
    y.lemma_multiset_has_no_duplicates();
    assert forall|e: Seq<u8>| x.to_multiset().count(e) == y.to_multiset().count(e) by {
        if x.contains(e) {
            assert(x.to_multiset().contains(e));
            assert(y.to_multiset().contains(e));
        } else {
            assert(!y.contains(e));
        }
    }
    assert(x.to_multiset() =~= y.to_multiset());
}

/// Under the storage invariant, once a kitty has gone from `a` to `b`, the
/// transfer straight back succeeds; it restores the stored kitties and the
/// list of `b` exactly, and the list of `a` up to order.
pub proof fn lemma_transfer_back_restores(s: PalletView, a: AccountId, b: AccountId, dna: Seq<u8>)
    requires
        storage_invariant(s),
        transfer_outcome(s, Origin::Signed(a), dna, b).1 is Ok,
    ensures
        ({
            let s1 = transfer_outcome(s, Origin::Signed(a), dna, b).0;
            let (s2, r2) = transfer_outcome(s1, Origin::Signed(b), dna, a);
            &&& r2 is Ok
            &&& s2.kitties == s.kitties
            &&& owned_of(s2, b) == owned_of(s, b)
            &&& owned_of(s2, a).to_multiset() == owned_of(s, a).to_multiset()
        }),
{
    let s1 = transfer_outcome(s, Origin::Signed(a), dna, b).0;
    let (s2, r2) = transfer_outcome(s1, Origin::Signed(b), dna, a);
    let la = owned_of(s, a);
    let lb = owned_of(s, b);
    assert(la.no_duplicates());
    lemma_without_first(la, dna);
    assert(owned_of(s1, a) == without_first(la, dna));
    assert(owned_of(s1, b) == lb.push(dna));
    // the reverse transfer is accepted
    assert(lb.push(dna)[lb.len() as int] == dna);
    assert(la.len() <= s.max_kitty_owned);
    assert(owned_of(s1, a).len() < s.max_kitty_owned);
    assert(r2 is Ok);
    // kitties come back
    assert(s2.kitties =~= s.kitties);
    // the list of b comes back
    lemma_lists_disjoint(s, a, b, dna);
    let pb = lb.push(dna);
    pb.index_of_first_ensures(dna);
    let k = pb.index_of_first(dna).unwrap();
    if k < lb.len() {
        assert(lb[k] == dna);
        assert(lb.contains(dna));
    }
    assert(without_first(pb, dna) =~= lb);
    assert(owned_of(s2, b) == lb);
    // the list of a comes back up to order
    let back = without_first(la, dna).push(dna);
    assert(owned_of(s2, a) == back);
    assert forall|i: int, j: int| 0 <= i < j < back.len() implies back[i] != back[j] by {
        if j == back.len() - 1 {
            assert(without_first(la, dna).contains(back[i]));
        }
    }
    assert(back.no_duplicates());
    assert forall|e: Seq<u8>| back.contains(e) <==> la.contains(e) by {
        if back.contains(e) && e != dna {
            let i = choose|i: int| 0 <= i < back.len() && back[i] == e;
            assert(i < back.len() - 1);
            assert(back[i] == without_first(la, dna)[i]);
            assert(without_first(la, dna).contains(e));
        }
        if la.contains(e) {
            if e == dna {
                assert(back[back.len() - 1] == e);
            } else {
                assert(without_first(la, dna).contains(e));
                let i = choose|i: int| 0 <= i < without_first(la, dna).len() && without_first(la, dna)[i] == e;
                assert(back[i] == without_first(la, dna)[i]);
                assert(back[i] == e);
            }
        }
    }
    lemma_same_items_same_multiset(back, la);
}

/// A DNA of even length gives a male kitty and one of odd length a female
/// kitty, whatever the length.
pub proof fn lemma_gender_by_parity(dna: Seq<u8>)
    ensures
        (gender_of(dna) == Gender::Male) <==> dna.len() % 2 == 0,
        (gender_of(dna) == Gender::Female) <==> dna.len() % 2 == 1,
{
}

/// A kitty created under `dna` is male exactly when `dna` has even length,
/// and it is priced, owned and dated as asked, whatever DNA the randomness
/// returned.
pub proof fn lemma_created_kitty_fields(s: PalletView, who: AccountId, dna: Seq<u8>, price: u32, new_dna: Seq<u8>)
    requires
        create_kitty_outcome(s, who, dna, price, new_dna).1 is Ok,
    ensures
        ({
            let k = create_kitty_outcome(s, who, dna, price, new_dna).0.kitties[dna];
            &&& (k.gender == Gender::Male) <==> dna.len() % 2 == 0
            &&& k.owner == who
            &&& k.price == price
            &&& k.created_date == 0
            &&& k.dna == new_dna
        }),
{
}

/// A fresh DNA key is always accepted while the counter has room and the
/// creator is below the limit, whatever the key, price or random DNA.
pub proof fn lemma_create_kitty_succeeds(s: PalletView, who: AccountId, dna: Seq<u8>, price: u32, new_dna: Seq<u8>)
    requires
        !s.kitties.dom().contains(dna),
        s.kitty_id < u32::MAX,
        owned_of(s, who).len() < s.max_kitty_owned,
    ensures
        create_kitty_outcome(s, who, dna, price, new_dna).1 is Ok,
        create_kitty_outcome(s, who, dna, price, new_dna).0.kitties.dom().contains(dna),
{
}

/// Under the storage invariant, the owner of a stored kitty can always send
/// it to another account whose list is below the limit, whatever the kitty's
/// DNA, gender, price or date: the call succeeds, the receiver owns it and
/// lists it, the sender no longer lists it, and nothing else about the kitty
/// changes.
pub proof fn lemma_owner_can_transfer(s: PalletView, who: AccountId, dna: Seq<u8>, to: AccountId)
    requires
        storage_invariant(s),
        s.kitties.dom().contains(dna),
        s.kitties[dna].owner == who,
        who != to,
        owned_of(s, to).len() < s.max_kitty_owned,
    ensures
        ({
            let (t, r) = transfer_outcome(s, Origin::Signed(who), dna, to);
            &&& r is Ok
            &&& t.kitties.dom().contains(dna)
            &&& t.kitties[dna].owner == to
            &&& t.kitties[dna].dna == s.kitties[dna].dna
            &&& t.kitties[dna].gender == s.kitties[dna].gender
            &&& t.kitties[dna].price == s.kitties[dna].price
            &&& t.kitties[dna].created_date == s.kitties[dna].created_date
            &&& owned_of(t, to).contains(dna)
            &&& !owned_of(t, who).contains(dna)
        }),
{
    let (t, r) = transfer_outcome(s, Origin::Signed(who), dna, to);
    assert(owned_of(s, who).contains(dna));
    assert(r is Ok);
    lemma_without_first(owned_of(s, who), dna);
    assert(owned_of(t, to) == owned_of(s, to).push(dna));
    assert(owned_of(t, to)[owned_of(s, to).len() as int] == dna);
    assert(owned_of(t, who) == without_first(owned_of(s, who), dna));
}

/// Every kitty genesis stores is male, priced 1, owned by the configured
/// owner and dated at the configured time, whatever DNA the randomness
/// returned; keys genesis does not list keep what they held.
pub proof fn lemma_genesis_kitties(
    s: PalletView,
    keys: Seq<Seq<u8>>,
    owner: AccountId,
    current_time: u64,
    dnas: Seq<Seq<u8>>,
)
    ensures
        ({
            let t = build_outcome(s, keys, owner, current_time, dnas);
            &&& forall|k: Seq<u8>| #[trigger] keys.contains(k) ==> {
                &&& t.kitties.dom().contains(k)
                &&& t.kitties[k].gender == Gender::Male
                &&& t.kitties[k].price == 1
                &&& t.kitties[k].owner == owner
                &&& t.kitties[k].created_date == current_time
            }
            &&& forall|k: Seq<u8>| !keys.contains(k) ==> {
                &&& #[trigger] t.kitties.dom().contains(k) == s.kitties.dom().contains(k)
                &&& s.kitties.dom().contains(k) ==> t.kitties[k] == s.kitties[k]
            }
        }),
    decreases keys.len(),
{
    if keys.len() > 0 {
        let front = keys.drop_last();
        lemma_genesis_kitties(s, front, owner, current_time, dnas.drop_last());
        assert forall|k: Seq<u8>| #[trigger] keys.contains(k) && k != keys.last() implies front.contains(k) by {
            let i = choose|i: int| 0 <= i < keys.len() && keys[i] == k;
            assert(front[i] == k);
        }
        assert forall|k: Seq<u8>| #[trigger] front.contains(k) implies keys.contains(k) by {
            let i = choose|i: int| 0 <= i < front.len() && front[i] == k;
            assert(keys[i] == k);
        }
        assert(keys.contains(keys.last())) by {
            assert(keys[keys.len() - 1] == keys.last());
        }
    }
}

/// A successful `create_kitty` lists the new key last for its creator and
/// leaves every other account's list alone, advances the nonce and the
/// counter by one, and records the creation.
pub proof fn lemma_create_kitty_effects(s: PalletView, who: AccountId, dna: Seq<u8>, price: u32, new_dna: Seq<u8>)
    requires
        create_kitty_outcome(s, who, dna, price, new_dna).1 is Ok,
        nonce_count(s.nonce) < u32::MAX,
    ensures
        ({
            let t = create_kitty_outcome(s, who, dna, price, new_dna).0;
            &&& owned_of(t, who) == owned_of(s, who).push(dna)
            &&& forall|a: AccountId| a != who ==> #[trigger] owned_of(t, a) == owned_of(s, a)
            &&& nonce_count(t.nonce) == nonce_count(s.nonce) + 1
            &&& t.kitty_id == s.kitty_id + 1
            &&& t.events == s.events.push(EventView::Created { dna, owner: who })
            &&& t.something == s.something
        }),
{
}

/// `create_kitty` refuses, leaving storage as it was: a key already stored
/// (`DuplicateKitty`), then a full counter (overflow), then a creator at the
/// limit (`ExceedMaxKittyOwned`).
pub proof fn lemma_create_kitty_refusals(s: PalletView, who: AccountId, dna: Seq<u8>, price: u32, new_dna: Seq<u8>)
    ensures
        s.kitties.dom().contains(dna) ==> create_kitty_outcome(s, who, dna, price, new_dna) == (
            s,
            Err::<(), DispatchError<Error>>(DispatchError::Module(Error::DuplicateKitty)),
        ),
        !s.kitties.dom().contains(dna) && s.kitty_id == u32::MAX ==> create_kitty_outcome(
            s,
            who,
            dna,
            price,
            new_dna,
        ) == (s, Err::<(), DispatchError<Error>>(DispatchError::Arithmetic(ArithmeticError::Overflow))),
        !s.kitties.dom().contains(dna) && s.kitty_id < u32::MAX && s.max_kitty_owned <= owned_of(
            s,
            who,
        ).len() < u32::MAX ==> create_kitty_outcome(s, who, dna, price, new_dna) == (
            s,
            Err::<(), DispatchError<Error>>(DispatchError::Module(Error::ExceedMaxKittyOwned)),
        ),
{
}

/// `transfer` refuses, leaving storage as it was: an unsigned call, a key
/// with no kitty, a caller that does not own the kitty, a transfer to oneself
/// and a receiver at the limit.
pub proof fn lemma_transfer_refusals(s: PalletView, origin: Origin, dna: Seq<u8>, to: AccountId)
    ensures
        !(origin is Signed) ==> transfer_outcome(s, origin, dna, to) == (
            s,
            Err::<(), DispatchError<Error>>(DispatchError::BadOrigin),
        ),
        origin is Signed && !s.kitties.dom().contains(dna) ==> transfer_outcome(s, origin, dna, to) == (
            s,
            Err::<(), DispatchError<Error>>(DispatchError::Module(Error::NoKitty)),
        ),
        origin is Signed && s.kitties.dom().contains(dna) && s.kitties[dna].owner != origin->Signed_0
            ==> transfer_outcome(s, origin, dna, to) == (
            s,
            Err::<(), DispatchError<Error>>(DispatchError::Module(Error::NotOwner)),
        ),
        origin == Origin::Signed(to) && s.kitties.dom().contains(dna) && s.kitties[dna].owner == to
            ==> transfer_outcome(s, origin, dna, to) == (
            s,
            Err::<(), DispatchError<Error>>(DispatchError::Module(Error::TransferToSelf)),
        ),
        origin is Signed && s.kitties.dom().contains(dna) && s.kitties[dna].owner == origin->Signed_0
            && origin->Signed_0 != to && owned_of(s, origin->Signed_0).contains(dna) && s.max_kitty_owned
            <= owned_of(s, to).len() < u32::MAX ==> transfer_outcome(s, origin, dna, to) == (
            s,
            Err::<(), DispatchError<Error>>(DispatchError::Module(Error::ExceedMaxKittyOwned)),
        ),
{
}

/// A successful `transfer` appends the key to the receiver's list, takes it
/// off the sender's list (which otherwise keeps its keys), leaves other
/// accounts' lists alone and records the transfer.
pub proof fn lemma_transfer_effects(s: PalletView, who: AccountId, dna: Seq<u8>, to: AccountId)
    requires
        storage_invariant(s),
        transfer_outcome(s, Origin::Signed(who), dna, to).1 is Ok,
    ensures
        ({
            let t = transfer_outcome(s, Origin::Signed(who), dna, to).0;
            &&& owned_of(t, to) == owned_of(s, to).push(dna)
            &&& owned_of(t, who).len() == owned_of(s, who).len() - 1
            &&& forall|d: Seq<u8>| #[trigger] owned_of(t, who).contains(d) <==> (owned_of(s, who).contains(d) && d != dna)
            &&& forall|a: AccountId| a != who && a != to ==> #[trigger] owned_of(t, a) == owned_of(s, a)
            &&& t.events == s.events.push(EventView::Transfer { from: who, to, dna })
            &&& t.nonce == s.nonce
            &&& t.something == s.something
        }),
{
    lemma_without_first(owned_of(s, who), dna);
}

/// `do_something` signed by `who` stores exactly `something` and records that
/// `who` stored it; unsigned, it is refused and changes nothing.
pub proof fn lemma_do_something(s: PalletView, who: AccountId, something: u32)
    ensures
        do_something_outcome(s, Origin::Signed(who), something).1 is Ok,
        do_something_outcome(s, Origin::Signed(who), something).0.something == Some(something),
        do_something_outcome(s, Origin::Signed(who), something).0.events == s.events.push(
            EventView::SomethingStored(something, who),
        ),
        do_something_outcome(s, Origin::Signed(who), something).0.kitties == s.kitties,
        do_something_outcome(s, Origin::Unsigned, something) == (s, Err::<(), DispatchError<Error>>(DispatchError::BadOrigin)),
{
}

/// `cause_error` signed by anyone adds one to a stored value below the
/// maximum; it is refused with `NoneValue` when nothing is stored and with
/// `StorageOverflow` at the maximum, changing nothing.
pub proof fn lemma_cause_error(s: PalletView, who: AccountId)
    ensures
        s.something == None::<u32> ==> cause_error_outcome(s, Origin::Signed(who)) == (
            s,
            Err::<(), DispatchError<Error>>(DispatchError::Module(Error::NoneValue)),
        ),
        s.something == Some(u32::MAX) ==> cause_error_outcome(s, Origin::Signed(who)) == (
            s,
            Err::<(), DispatchError<Error>>(DispatchError::Module(Error::StorageOverflow)),
        ),
        forall|v: u32| v < u32::MAX && s.something == Some(v) ==> {
            let (t, r) = #[trigger] cause_error_outcome(s, Origin::Signed(who));
            &&& r is Ok
            &&& t.something == Some((v + 1) as u32)
            &&& t.kitties == s.kitties
            &&& t.events == s.events
        },
{
}

/// Appending to an account's list (as `fixKittyForAlice` does) puts the key
/// last in that list and touches nothing else.
pub proof fn lemma_append_owned(s: PalletView, who: AccountId, dna: Seq<u8>)
    ensures
        owned_of(append_owned(s, who, dna), who) == owned_of(s, who).push(dna),
        forall|a: AccountId| a != who ==> #[trigger] owned_of(append_owned(s, who, dna), a) == owned_of(s, a),
        append_owned(s, who, dna).kitties == s.kitties,
        append_owned(s, who, dna).nonce == s.nonce,
        append_owned(s, who, dna).events == s.events,
{
}

/// Genesis uses the nonce once per listed key.
pub proof fn lemma_genesis_uses_nonce(
    s: PalletView,
    keys: Seq<Seq<u8>>,
    owner: AccountId,
    current_time: u64,
    dnas: Seq<Seq<u8>>,
)
    requires
        nonce_count(s.nonce) + keys.len() <= u32::MAX,
    ensures
        nonce_count(build_outcome(s, keys, owner, current_time, dnas).nonce) == nonce_count(s.nonce) + keys.len(),
        build_outcome(s, keys, owner, current_time, dnas).kitty_id == s.kitty_id,
        build_outcome(s, keys, owner, current_time, dnas).kitties_owned == s.kitties_owned,
    decreases keys.len(),
{
    if keys.len() > 0 {
        lemma_genesis_uses_nonce(s, keys.drop_last(), owner, current_time, dnas.drop_last());
    }
}

} // verus!
