use moonrabbit::identity_weights::{mul_weight, RuntimeDbWeight, WeightInfo};

fn info() -> WeightInfo {
    WeightInfo { db_weight: RuntimeDbWeight { read: 25_000_000, write: 100_000_000 } }
}

#[test]
fn db_weights_multiply_and_saturate() {
    let db = RuntimeDbWeight { read: 7, write: 11 };
    assert_eq!(db.reads(3), 21);
    assert_eq!(db.writes(0), 0);
    assert_eq!(RuntimeDbWeight { read: u64::MAX, write: 1 }.reads(2), u64::MAX);
    assert_eq!(mul_weight(u64::MAX / 2, 3), u64::MAX);
    assert_eq!(mul_weight(6, 7), 42);
}

#[test]
fn add_registrar_weight() {
    let w = info();
    assert_eq!(w.add_registrar(0), 21_283_000 + 25_000_000 + 100_000_000);
    assert_eq!(w.add_registrar(5), 21_283_000 + 5 * 303_000 + 25_000_000 + 100_000_000);
}

#[test]
fn per_item_weights() {
    let w = info();
    let (r, x, s, p) = (3u64, 4u64, 5u64, 6u64);
    let (rd, wr) = (25_000_000u64, 100_000_000u64);
    assert_eq!(w.set_identity(3, 4), 53_184_000 + 255_000 * r + 1_055_000 * x + rd + wr);
    assert_eq!(w.set_subs_new(5), 41_073_000 + 6_793_000 * s + 2 * rd + s * rd + wr + s * wr);
    assert_eq!(w.set_subs_old(6), 42_051_000 + 2_309_000 * p + 2 * rd + wr + p * wr);
    assert_eq!(w.clear_identity(3, 5, 4), 49_465_000 + 205_000 * r + 2_317_000 * s + 716_000 * x + 2 * rd + 2 * wr + s * wr);
    assert_eq!(w.request_judgement(3, 4), 54_855_000 + 310_000 * r + 1_368_000 * x + 2 * rd + wr);
    assert_eq!(w.cancel_request(3, 4), 49_913_000 + 215_000 * r + 1_347_000 * x + rd + wr);
    assert_eq!(w.set_fee(3), 7_665_000 + 300_000 * r + rd + wr);
    assert_eq!(w.set_account_id(3), 8_757_000 + 306_000 * r + rd + wr);
    assert_eq!(w.set_fields(3), 7_661_000 + 302_000 * r + rd + wr);
    assert_eq!(w.provide_judgement(3, 4), 34_837_000 + 284_000 * r + 1_366_000 * x + 2 * rd + wr);
    assert_eq!(w.kill_identity(3, 5, 4), 66_368_000 + 107_000 * r + 2_314_000 * s + 1_000 * x + 3 * rd + 3 * wr + s * wr);
    assert_eq!(w.add_sub(5), 55_474_000 + 221_000 * s + 3 * rd + 2 * wr);
    assert_eq!(w.rename_sub(5), 16_929_000 + 25_000 * s + 2 * rd + wr);
    assert_eq!(w.remove_sub(5), 56_833_000 + 193_000 * s + 3 * rd + 2 * wr);
    assert_eq!(w.quit_sub(5), 34_255_000 + 187_000 * s + 2 * rd + 2 * wr);
}

#[test]
fn weights_saturate_at_the_largest() {
    let w = WeightInfo { db_weight: RuntimeDbWeight { read: u64::MAX / 2, write: u64::MAX / 2 } };
    assert_eq!(w.set_subs_new(u32::MAX), u64::MAX);
    assert_eq!(w.add_sub(0), u64::MAX);
    let free = WeightInfo { db_weight: RuntimeDbWeight { read: 0, write: 0 } };
    assert_eq!(free.quit_sub(u32::MAX), 34_255_000 + 187_000 * u32::MAX as u64);
}
