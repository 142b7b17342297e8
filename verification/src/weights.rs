//! Benchmarked weights of the kitties dispatchables.
use vstd::prelude::*;

verus! {

/// A weight: an amount of execution time.
pub type Weight = u64;

/// `a * b`, or the largest weight where that does not fit.
pub open spec fn saturating_product(a: u64, b: u64) -> Weight {
    if a * b > u64::MAX {
        u64::MAX
    } else {
        (a * b) as u64
    }
}

/// `a + b`, or the largest weight where that does not fit.
pub open spec fn saturating_sum(a: u64, b: u64) -> Weight {
    if a + b > u64::MAX {
        u64::MAX
    } else {
        (a + b) as u64
    }
}

/// The weight of one storage read and of one storage write in the runtime.
#[derive(Clone, Copy, Debug, PartialEq, Eq, Structural)]
pub struct RuntimeDbWeight {
    pub read: u64,
    pub write: u64,
}

impl RuntimeDbWeight {
    /// The weight of `r` reads.
    pub fn reads(&self, r: u64) -> (w: Weight)
        ensures
            w == saturating_product(self.read, r),
    {
        match self.read.checked_mul(r) {
            Some(w) => w,
            None => u64::MAX,
        }
    }

    /// The weight of `w` writes.
    pub fn writes(&self, w: u64) -> (weight: Weight)
        ensures
            weight == saturating_product(self.write, w),
    {
        match self.write.checked_mul(w) {
            Some(x) => x,
            None => u64::MAX,
        }
    }
}

/// The weight of a call: a base time, then `reads` reads and `writes` writes,
/// each step saturating.
pub open spec fn call_weight(db: RuntimeDbWeight, base: u64, reads: u64, writes: u64) -> Weight {
    saturating_sum(saturating_sum(base, saturating_product(db.read, reads)), saturating_product(db.write, writes))
}

/// The benchmarked weights of the pallet's dispatchables.
pub struct WeightInfo;

impl WeightInfo {
    /// `create_kitty`: 31 000 000, six reads and four writes.
    pub fn create_kitty(db: &RuntimeDbWeight) -> (w: Weight)
        ensures
            w == call_weight(*db, 31_000_000, 6, 4),
            w >= 31_000_000,
            31_000_000 + db.read * 6 + db.write * 4 <= u64::MAX ==> w == 31_000_000 + db.read * 6 + db.write * 4,
    {
        proof {
            lemma_call_weight_at_least_base(*db, 31_000_000, 6, 4);
            if 31_000_000 + db.read * 6 + db.write * 4 <= u64::MAX {
                lemma_call_weight_exact(*db, 31_000_000, 6, 4);
            }
        }
        let base: Weight = 31_000_000;
        base.saturating_add(db.reads(6)).saturating_add(db.writes(4))
    }

    /// `transfer`: 21 000 000, three reads and three writes.
    pub fn transfer(db: &RuntimeDbWeight) -> (w: Weight)
        ensures
            w == call_weight(*db, 21_000_000, 3, 3),
            w >= 21_000_000,
            21_000_000 + db.read * 3 + db.write * 3 <= u64::MAX ==> w == 21_000_000 + db.read * 3 + db.write * 3,
    {
        proof {
            lemma_call_weight_at_least_base(*db, 21_000_000, 3, 3);
            if 21_000_000 + db.read * 3 + db.write * 3 <= u64::MAX {
                lemma_call_weight_exact(*db, 21_000_000, 3, 3);
            }
        }
        let base: Weight = 21_000_000;
        base.saturating_add(db.reads(3)).saturating_add(db.writes(3))
    }
}

/// Where nothing saturates, a call's weight is its base plus the reads and
/// writes at their unit weights.
pub proof fn lemma_call_weight_exact(db: RuntimeDbWeight, base: u64, reads: u64, writes: u64)
    requires
        base + db.read * reads + db.write * writes <= u64::MAX,
    ensures
        call_weight(db, base, reads, writes) == base + db.read * reads + db.write * writes,
{
    assert(db.read * reads >= 0 && db.write * writes >= 0) by (nonlinear_arith);
}

/// A call's weight never falls below its base.
pub proof fn lemma_call_weight_at_least_base(db: RuntimeDbWeight, base: u64, reads: u64, writes: u64)
    ensures
        call_weight(db, base, reads, writes) >= base,
{
    assert(db.read * reads >= 0 && db.write * writes >= 0) by (nonlinear_arith);
}

} // verus!
