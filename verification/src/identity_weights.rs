//! The weights of the identity pallet's calls on this runtime, from its
//! benchmarks: a base cost, a cost per registrar, sub-account or field, and
//! the cost of the database reads and writes, all saturating.

use vstd::prelude::*;

verus! {

/// A weight, in picoseconds of execution time.
pub type Weight = u64;

/// The cost of one database read and of one database write.
#[derive(PartialEq, Eq, Structural, Clone, Copy, Debug)]
pub struct RuntimeDbWeight {
    pub read: u64,
    pub write: u64,
}

/// `x`, or the largest weight when `x` does not fit.
pub open spec fn saturate(x: int) -> u64 {
    if x > u64::MAX {
        u64::MAX
    } else {
        x as u64
    }
}

/// `a * b`, saturating at the largest weight.
pub fn mul_weight(a: u64, b: u64) -> (r: u64)
    ensures
        r == saturate(a * b),
{
    match a.checked_mul(b) {
        Some(v) => v,
        None => u64::MAX,
    }
}

fn add_weight(acc: u64, t: u64, Ghost(x): Ghost<int>, Ghost(y): Ghost<int>) -> (r: u64)
    requires
        x >= 0,
        y >= 0,
        acc == saturate(x),
        t == saturate(y),
    ensures
        r == saturate(x + y),
{
    acc.saturating_add(t)
}

impl RuntimeDbWeight {
    /// The weight of `n` reads.
    pub fn reads(&self, n: u64) -> (w: Weight)
        ensures
            w == saturate(self.read * n),
    {
        mul_weight(self.read, n)
    }

    /// The weight of `n` writes.
    pub fn writes(&self, n: u64) -> (w: Weight)
        ensures
            w == saturate(self.write * n),
    {
        mul_weight(self.write, n)
    }
}

/// The weight of `add_registrar`.
pub open spec fn add_registrar_weight(db: RuntimeDbWeight, r: u32) -> u64 {
    saturate(21_283_000 + 303_000 * r + db.read * 1 + db.write * 1)
}

/// The weight of `set_identity`.
pub open spec fn set_identity_weight(db: RuntimeDbWeight, r: u32, x: u32) -> u64 {
    saturate(53_184_000 + 255_000 * r + 1_055_000 * x + db.read * 1 + db.write * 1)
}

/// The weight of `set_subs_new`.
pub open spec fn set_subs_new_weight(db: RuntimeDbWeight, s: u32) -> u64 {
    saturate(41_073_000 + 6_793_000 * s + db.read * 2 + db.read * s + db.write * 1 + db.write * s)
}

/// The weight of `set_subs_old`.
pub open spec fn set_subs_old_weight(db: RuntimeDbWeight, p: u32) -> u64 {
    saturate(42_051_000 + 2_309_000 * p + db.read * 2 + db.write * 1 + db.write * p)
}

/// The weight of `clear_identity`.
pub open spec fn clear_identity_weight(db: RuntimeDbWeight, r: u32, s: u32, x: u32) -> u64 {
    saturate(49_465_000 + 205_000 * r + 2_317_000 * s + 716_000 * x + db.read * 2 + db.write * 2 + db.write * s)
}

/// The weight of `request_judgement`.
pub open spec fn request_judgement_weight(db: RuntimeDbWeight, r: u32, x: u32) -> u64 {
    saturate(54_855_000 + 310_000 * r + 1_368_000 * x + db.read * 2 + db.write * 1)
}

/// The weight of `cancel_request`.
pub open spec fn cancel_request_weight(db: RuntimeDbWeight, r: u32, x: u32) -> u64 {
    saturate(49_913_000 + 215_000 * r + 1_347_000 * x + db.read * 1 + db.write * 1)
}

/// The weight of `set_fee`.
pub open spec fn set_fee_weight(db: RuntimeDbWeight, r: u32) -> u64 {
    saturate(7_665_000 + 300_000 * r + db.read * 1 + db.write * 1)
}

/// The weight of `set_account_id`.
pub open spec fn set_account_id_weight(db: RuntimeDbWeight, r: u32) -> u64 {
    saturate(8_757_000 + 306_000 * r + db.read * 1 + db.write * 1)
}

/// The weight of `set_fields`.
pub open spec fn set_fields_weight(db: RuntimeDbWeight, r: u32) -> u64 {
    saturate(7_661_000 + 302_000 * r + db.read * 1 + db.write * 1)
}

/// The weight of `provide_judgement`.
pub open spec fn provide_judgement_weight(db: RuntimeDbWeight, r: u32, x: u32) -> u64 {
    saturate(34_837_000 + 284_000 * r + 1_366_000 * x + db.read * 2 + db.write * 1)
}

/// The weight of `kill_identity`.
pub open spec fn kill_identity_weight(db: RuntimeDbWeight, r: u32, s: u32, x: u32) -> u64 {
    saturate(66_368_000 + 107_000 * r + 2_314_000 * s + 1_000 * x + db.read * 3 + db.write * 3 + db.write * s)
}

/// The weight of `add_sub`.
pub open spec fn add_sub_weight(db: RuntimeDbWeight, s: u32) -> u64 {
    saturate(55_474_000 + 221_000 * s + db.read * 3 + db.write * 2)
}

/// The weight of `rename_sub`.
pub open spec fn rename_sub_weight(db: RuntimeDbWeight, s: u32) -> u64 {
    saturate(16_929_000 + 25_000 * s + db.read * 2 + db.write * 1)
}

/// The weight of `remove_sub`.
pub open spec fn remove_sub_weight(db: RuntimeDbWeight, s: u32) -> u64 {
    saturate(56_833_000 + 193_000 * s + db.read * 3 + db.write * 2)
}

/// The weight of `quit_sub`.
pub open spec fn quit_sub_weight(db: RuntimeDbWeight, s: u32) -> u64 {
    saturate(34_255_000 + 187_000 * s + db.read * 2 + db.write * 2)
}

/// The identity pallet's weights on a runtime whose database costs are
/// `db_weight`.
pub struct WeightInfo {
    pub db_weight: RuntimeDbWeight,
}

impl WeightInfo {
    /// The weight of `add_registrar`: the benchmarked base and per-item costs plus
    /// the database reads and writes, saturating at the largest weight.
    pub fn add_registrar(&self, r: u32) -> (w: Weight)
        ensures
            w == add_registrar_weight(self.db_weight, r),
    {
        let db = &self.db_weight;
        let w: u64 = 21_283_000;
        let w = add_weight(w, mul_weight(303_000, r as u64), Ghost(21_283_000), Ghost(303_000 * r));
        let w = add_weight(w, db.reads(1), Ghost(21_283_000 + 303_000 * r), Ghost(db.read * 1));
        let w = add_weight(w, db.writes(1), Ghost(21_283_000 + 303_000 * r + db.read * 1), Ghost(db.write * 1));
        w
    }

    /// The weight of `set_identity`: the benchmarked base and per-item costs plus
    /// the database reads and writes, saturating at the largest weight.
    pub fn set_identity(&self, r: u32, x: u32) -> (w: Weight)
        ensures
            w == set_identity_weight(self.db_weight, r, x),
    {
        let db = &self.db_weight;
        let w: u64 = 53_184_000;
        let w = add_weight(w, mul_weight(255_000, r as u64), Ghost(53_184_000), Ghost(255_000 * r));
        let w = add_weight(w, mul_weight(1_055_000, x as u64), Ghost(53_184_000 + 255_000 * r), Ghost(1_055_000 * x));
        let w = add_weight(w, db.reads(1), Ghost(53_184_000 + 255_000 * r + 1_055_000 * x), Ghost(db.read * 1));
        let w = add_weight(w, db.writes(1), Ghost(53_184_000 + 255_000 * r + 1_055_000 * x + db.read * 1), Ghost(db.write * 1));
        w
    }

    /// The weight of `set_subs_new`: the benchmarked base and per-item costs plus
    /// the database reads and writes, saturating at the largest weight.
    pub fn set_subs_new(&self, s: u32) -> (w: Weight)
        ensures
            w == set_subs_new_weight(self.db_weight, s),
    {
        let db = &self.db_weight;
        let w: u64 = 41_073_000;
        let w = add_weight(w, mul_weight(6_793_000, s as u64), Ghost(41_073_000), Ghost(6_793_000 * s));
        let w = add_weight(w, db.reads(2), Ghost(41_073_000 + 6_793_000 * s), Ghost(db.read * 2));
        let w = add_weight(w, db.reads(mul_weight(1, s as u64)), Ghost(41_073_000 + 6_793_000 * s + db.read * 2), Ghost(db.read * s));
        let w = add_weight(w, db.writes(1), Ghost(41_073_000 + 6_793_000 * s + db.read * 2 + db.read * s), Ghost(db.write * 1));
        let w = add_weight(w, db.writes(mul_weight(1, s as u64)), Ghost(41_073_000 + 6_793_000 * s + db.read * 2 + db.read * s + db.write * 1), Ghost(db.write * s));
        w
    }

    /// The weight of `set_subs_old`: the benchmarked base and per-item costs plus
    /// the database reads and writes, saturating at the largest weight.
    pub fn set_subs_old(&self, p: u32) -> (w: Weight)
        ensures
            w == set_subs_old_weight(self.db_weight, p),
    {
        let db = &self.db_weight;
        let w: u64 = 42_051_000;
        let w = add_weight(w, mul_weight(2_309_000, p as u64), Ghost(42_051_000), Ghost(2_309_000 * p));
        let w = add_weight(w, db.reads(2), Ghost(42_051_000 + 2_309_000 * p), Ghost(db.read * 2));
        let w = add_weight(w, db.writes(1), Ghost(42_051_000 + 2_309_000 * p + db.read * 2), Ghost(db.write * 1));
        let w = add_weight(w, db.writes(mul_weight(1, p as u64)), Ghost(42_051_000 + 2_309_000 * p + db.read * 2 + db.write * 1), Ghost(db.write * p));
        w
    }

    /// The weight of `clear_identity`: the benchmarked base and per-item costs plus
    /// the database reads and writes, saturating at the largest weight.
    pub fn clear_identity(&self, r: u32, s: u32, x: u32) -> (w: Weight)
        ensures
            w == clear_identity_weight(self.db_weight, r, s, x),
    {
        let db = &self.db_weight;
        let w: u64 = 49_465_000;
        let w = add_weight(w, mul_weight(205_000, r as u64), Ghost(49_465_000), Ghost(205_000 * r));
        let w = add_weight(w, mul_weight(2_317_000, s as u64), Ghost(49_465_000 + 205_000 * r), Ghost(2_317_000 * s));
        let w = add_weight(w, mul_weight(716_000, x as u64), Ghost(49_465_000 + 205_000 * r + 2_317_000 * s), Ghost(716_000 * x));
        let w = add_weight(w, db.reads(2), Ghost(49_465_000 + 205_000 * r + 2_317_000 * s + 716_000 * x), Ghost(db.read * 2));
        let w = add_weight(w, db.writes(2), Ghost(49_465_000 + 205_000 * r + 2_317_000 * s + 716_000 * x + db.read * 2), Ghost(db.write * 2));
        let w = add_weight(w, db.writes(mul_weight(1, s as u64)), Ghost(49_465_000 + 205_000 * r + 2_317_000 * s + 716_000 * x + db.read * 2 + db.write * 2), Ghost(db.write * s));
        w
    }

    /// The weight of `request_judgement`: the benchmarked base and per-item costs plus
    /// the database reads and writes, saturating at the largest weight.
    pub fn request_judgement(&self, r: u32, x: u32) -> (w: Weight)
        ensures
            w == request_judgement_weight(self.db_weight, r, x),
    {
        let db = &self.db_weight;
        let w: u64 = 54_855_000;
        let w = add_weight(w, mul_weight(310_000, r as u64), Ghost(54_855_000), Ghost(310_000 * r));
        let w = add_weight(w, mul_weight(1_368_000, x as u64), Ghost(54_855_000 + 310_000 * r), Ghost(1_368_000 * x));
        let w = add_weight(w, db.reads(2), Ghost(54_855_000 + 310_000 * r + 1_368_000 * x), Ghost(db.read * 2));
        let w = add_weight(w, db.writes(1), Ghost(54_855_000 + 310_000 * r + 1_368_000 * x + db.read * 2), Ghost(db.write * 1));
        w
    }

    /// The weight of `cancel_request`: the benchmarked base and per-item costs plus
    /// the database reads and writes, saturating at the largest weight.
    pub fn cancel_request(&self, r: u32, x: u32) -> (w: Weight)
        ensures
            w == cancel_request_weight(self.db_weight, r, x),
    {
        let db = &self.db_weight;
        let w: u64 = 49_913_000;
        let w = add_weight(w, mul_weight(215_000, r as u64), Ghost(49_913_000), Ghost(215_000 * r));
        let w = add_weight(w, mul_weight(1_347_000, x as u64), Ghost(49_913_000 + 215_000 * r), Ghost(1_347_000 * x));
        let w = add_weight(w, db.reads(1), Ghost(49_913_000 + 215_000 * r + 1_347_000 * x), Ghost(db.read * 1));
        let w = add_weight(w, db.writes(1), Ghost(49_913_000 + 215_000 * r + 1_347_000 * x + db.read * 1), Ghost(db.write * 1));
        w
    }

    /// The weight of `set_fee`: the benchmarked base and per-item costs plus
    /// the database reads and writes, saturating at the largest weight.
    pub fn set_fee(&self, r: u32) -> (w: Weight)
        ensures
            w == set_fee_weight(self.db_weight, r),
    {
        let db = &self.db_weight;
        let w: u64 = 7_665_000;
        let w = add_weight(w, mul_weight(300_000, r as u64), Ghost(7_665_000), Ghost(300_000 * r));
        let w = add_weight(w, db.reads(1), Ghost(7_665_000 + 300_000 * r), Ghost(db.read * 1));
        let w = add_weight(w, db.writes(1), Ghost(7_665_000 + 300_000 * r + db.read * 1), Ghost(db.write * 1));
        w
    }

    /// The weight of `set_account_id`: the benchmarked base and per-item costs plus
    /// the database reads and writes, saturating at the largest weight.
    pub fn set_account_id(&self, r: u32) -> (w: Weight)
        ensures
            w == set_account_id_weight(self.db_weight, r),
    {
        let db = &self.db_weight;
        let w: u64 = 8_757_000;
        let w = add_weight(w, mul_weight(306_000, r as u64), Ghost(8_757_000), Ghost(306_000 * r));
        let w = add_weight(w, db.reads(1), Ghost(8_757_000 + 306_000 * r), Ghost(db.read * 1));
        let w = add_weight(w, db.writes(1), Ghost(8_757_000 + 306_000 * r + db.read * 1), Ghost(db.write * 1));
        w
    }

    /// The weight of `set_fields`: the benchmarked base and per-item costs plus
    /// the database reads and writes, saturating at the largest weight.
    pub fn set_fields(&self, r: u32) -> (w: Weight)
        ensures
            w == set_fields_weight(self.db_weight, r),
    {
        let db = &self.db_weight;
        let w: u64 = 7_661_000;
        let w = add_weight(w, mul_weight(302_000, r as u64), Ghost(7_661_000), Ghost(302_000 * r));
        let w = add_weight(w, db.reads(1), Ghost(7_661_000 + 302_000 * r), Ghost(db.read * 1));
        let w = add_weight(w, db.writes(1), Ghost(7_661_000 + 302_000 * r + db.read * 1), Ghost(db.write * 1));
        w
    }

    /// The weight of `provide_judgement`: the benchmarked base and per-item costs plus
    /// the database reads and writes, saturating at the largest weight.
    pub fn provide_judgement(&self, r: u32, x: u32) -> (w: Weight)
        ensures
            w == provide_judgement_weight(self.db_weight, r, x),
    {
        let db = &self.db_weight;
        let w: u64 = 34_837_000;
        let w = add_weight(w, mul_weight(284_000, r as u64), Ghost(34_837_000), Ghost(284_000 * r));
        let w = add_weight(w, mul_weight(1_366_000, x as u64), Ghost(34_837_000 + 284_000 * r), Ghost(1_366_000 * x));
        let w = add_weight(w, db.reads(2), Ghost(34_837_000 + 284_000 * r + 1_366_000 * x), Ghost(db.read * 2));
        let w = add_weight(w, db.writes(1), Ghost(34_837_000 + 284_000 * r + 1_366_000 * x + db.read * 2), Ghost(db.write * 1));
        w
    }

    /// The weight of `kill_identity`: the benchmarked base and per-item costs plus
    /// the database reads and writes, saturating at the largest weight.
    pub fn kill_identity(&self, r: u32, s: u32, x: u32) -> (w: Weight)
        ensures
            w == kill_identity_weight(self.db_weight, r, s, x),
    {
        let db = &self.db_weight;
        let w: u64 = 66_368_000;
        let w = add_weight(w, mul_weight(107_000, r as u64), Ghost(66_368_000), Ghost(107_000 * r));
        let w = add_weight(w, mul_weight(2_314_000, s as u64), Ghost(66_368_000 + 107_000 * r), Ghost(2_314_000 * s));
        let w = add_weight(w, mul_weight(1_000, x as u64), Ghost(66_368_000 + 107_000 * r + 2_314_000 * s), Ghost(1_000 * x));
        let w = add_weight(w, db.reads(3), Ghost(66_368_000 + 107_000 * r + 2_314_000 * s + 1_000 * x), Ghost(db.read * 3));
        let w = add_weight(w, db.writes(3), Ghost(66_368_000 + 107_000 * r + 2_314_000 * s + 1_000 * x + db.read * 3), Ghost(db.write * 3));
        let w = add_weight(w, db.writes(mul_weight(1, s as u64)), Ghost(66_368_000 + 107_000 * r + 2_314_000 * s + 1_000 * x + db.read * 3 + db.write * 3), Ghost(db.write * s));
        w
    }

    /// The weight of `add_sub`: the benchmarked base and per-item costs plus
    /// the database reads and writes, saturating at the largest weight.
    pub fn add_sub(&self, s: u32) -> (w: Weight)
        ensures
            w == add_sub_weight(self.db_weight, s),
    {
        let db = &self.db_weight;
        let w: u64 = 55_474_000;
        let w = add_weight(w, mul_weight(221_000, s as u64), Ghost(55_474_000), Ghost(221_000 * s));
        let w = add_weight(w, db.reads(3), Ghost(55_474_000 + 221_000 * s), Ghost(db.read * 3));
        let w = add_weight(w, db.writes(2), Ghost(55_474_000 + 221_000 * s + db.read * 3), Ghost(db.write * 2));
        w
    }

    /// The weight of `rename_sub`: the benchmarked base and per-item costs plus
    /// the database reads and writes, saturating at the largest weight.
    pub fn rename_sub(&self, s: u32) -> (w: Weight)
        ensures
            w == rename_sub_weight(self.db_weight, s),
    {
        let db = &self.db_weight;
        let w: u64 = 16_929_000;
        let w = add_weight(w, mul_weight(25_000, s as u64), Ghost(16_929_000), Ghost(25_000 * s));
        let w = add_weight(w, db.reads(2), Ghost(16_929_000 + 25_000 * s), Ghost(db.read * 2));
        let w = add_weight(w, db.writes(1), Ghost(16_929_000 + 25_000 * s + db.read * 2), Ghost(db.write * 1));
        w
    }

    /// The weight of `remove_sub`: the benchmarked base and per-item costs plus
    /// the database reads and writes, saturating at the largest weight.
    pub fn remove_sub(&self, s: u32) -> (w: Weight)
        ensures
            w == remove_sub_weight(self.db_weight, s),
    {
        let db = &self.db_weight;
        let w: u64 = 56_833_000;
        let w = add_weight(w, mul_weight(193_000, s as u64), Ghost(56_833_000), Ghost(193_000 * s));
        let w = add_weight(w, db.reads(3), Ghost(56_833_000 + 193_000 * s), Ghost(db.read * 3));
        let w = add_weight(w, db.writes(2), Ghost(56_833_000 + 193_000 * s + db.read * 3), Ghost(db.write * 2));
        w
    }

    /// The weight of `quit_sub`: the benchmarked base and per-item costs plus
    /// the database reads and writes, saturating at the largest weight.
    pub fn quit_sub(&self, s: u32) -> (w: Weight)
        ensures
            w == quit_sub_weight(self.db_weight, s),
    {
        let db = &self.db_weight;
        let w: u64 = 34_255_000;
        let w = add_weight(w, mul_weight(187_000, s as u64), Ghost(34_255_000), Ghost(187_000 * s));
        let w = add_weight(w, db.reads(2), Ghost(34_255_000 + 187_000 * s), Ghost(db.read * 2));
        let w = add_weight(w, db.writes(2), Ghost(34_255_000 + 187_000 * s + db.read * 2), Ghost(db.write * 2));
        w
    }

}

} // verus!
