//! Behavior of the pooled mixture registry and its access helpers.

use atmospherics::gas::{with_mix, with_mix_mut, with_mixes, with_mixes_mut, GasMixtures};
use atmospherics::gas_mixture::GasMixture;
use atmospherics::runtime::AtmosError;

#[test]
fn register_grows_then_recycles() {
    let mut reg = GasMixtures::new();
    let a = reg.register_gasmix();
    let b = reg.register_gasmix();
    assert_eq!(a, 0);
    assert_eq!(b, 1);
    assert_eq!(reg.pool_size(), 2);
    assert_eq!(reg.unregister_gasmix(a as i64), Ok(true));
    let c = reg.register_gasmix();
    assert_eq!(c, a);
    assert_eq!(reg.pool_size(), 2);
}

#[test]
fn recycled_slot_holds_a_fresh_mixture() {
    let mut reg = GasMixtures::new();
    let h = reg.register_gasmix();
    with_mix_mut(&mut reg, h, |mut m: GasMixture| {
        m.set_moles(0, 90_000).unwrap();
        m.set_temperature(3_000_000).unwrap();
        (m, Ok::<(), AtmosError>(()))
    })
    .unwrap();
    assert_eq!(reg.unregister_gasmix(h as i64), Ok(true));
    let h2 = reg.register_gasmix();
    assert_eq!(h2, h);
    let total = with_mix(&reg, h2, |m: &GasMixture| Ok::<u64, AtmosError>(m.total_moles()))
        .unwrap();
    assert_eq!(total, 0);
    let temp = with_mix(&reg, h2, |m: &GasMixture| Ok::<u64, AtmosError>(m.get_temperature()))
        .unwrap();
    assert_eq!(temp, 0);
}

#[test]
fn negative_handle_unregister_is_a_no_op() {
    let mut reg = GasMixtures::new();
    reg.register_gasmix();
    assert_eq!(reg.unregister_gasmix(-1), Ok(true));
    // The slot was not recycled, so the next registration appends.
    assert_eq!(reg.register_gasmix(), 1);
}

#[test]
fn out_of_pool_handles_are_invalid() {
    let mut reg = GasMixtures::new();
    reg.register_gasmix();
    assert_eq!(reg.unregister_gasmix(7), Err(AtmosError::InvalidHandle));
    let r = with_mix(&reg, 7, |m: &GasMixture| Ok::<u64, AtmosError>(m.total_moles()));
    assert_eq!(r, Err(AtmosError::InvalidHandle));
    let r2 = with_mix_mut(&mut reg, 7, |m: GasMixture| (m, Ok::<(), AtmosError>(())));
    assert_eq!(r2, Err(AtmosError::InvalidHandle));
}

#[test]
fn with_mix_mut_stores_the_replacement() {
    let mut reg = GasMixtures::new();
    let h = reg.register_gasmix();
    with_mix_mut(&mut reg, h, |mut m: GasMixture| {
        m.set_moles(1, 40_000).unwrap();
        (m, Ok::<(), AtmosError>(()))
    })
    .unwrap();
    let v = with_mix(&reg, h, |m: &GasMixture| Ok::<u64, AtmosError>(m.get_moles(1))).unwrap();
    assert_eq!(v, 40_000);
}

#[test]
fn with_mixes_reads_two_slots() {
    let mut reg = GasMixtures::new();
    let h1 = reg.register_gasmix();
    let h2 = reg.register_gasmix();
    with_mix_mut(&mut reg, h1, |mut m: GasMixture| {
        m.set_moles(0, 10_000).unwrap();
        (m, Ok::<(), AtmosError>(()))
    })
    .unwrap();
    with_mix_mut(&mut reg, h2, |mut m: GasMixture| {
        m.set_moles(0, 25_000).unwrap();
        (m, Ok::<(), AtmosError>(()))
    })
    .unwrap();
    let sum = with_mixes(&reg, h1, h2, |a: &GasMixture, b: &GasMixture| {
        Ok::<u64, AtmosError>(a.total_moles() + b.total_moles())
    })
    .unwrap();
    assert_eq!(sum, 35_000);
}

#[test]
fn with_mixes_mut_updates_both_slots() {
    let mut reg = GasMixtures::new();
    let h1 = reg.register_gasmix();
    let h2 = reg.register_gasmix();
    with_mixes_mut(&mut reg, h1, h2, |mut a: GasMixture, mut b: GasMixture| {
        a.set_moles(0, 11_000).unwrap();
        b.set_moles(0, 22_000).unwrap();
        (a, b, Ok::<(), AtmosError>(()))
    })
    .unwrap();
    let va = with_mix(&reg, h1, |m: &GasMixture| Ok::<u64, AtmosError>(m.get_moles(0))).unwrap();
    let vb = with_mix(&reg, h2, |m: &GasMixture| Ok::<u64, AtmosError>(m.get_moles(0))).unwrap();
    assert_eq!(va, 11_000);
    assert_eq!(vb, 22_000);
    // The same slot on both sides is refused.
    let dup = with_mixes_mut(&mut reg, h1, h1, |a: GasMixture, b: GasMixture| {
        (a, b, Ok::<(), AtmosError>(()))
    });
    assert_eq!(dup, Err(AtmosError::InvalidHandle));
}
