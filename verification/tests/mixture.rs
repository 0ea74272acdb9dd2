//! Behavior of the gas-mixture algorithms on concrete values.
//!
//! Raw quantities count units of `1 / 10_000`: `50_000` raw is `5.0` moles
//! or `5.0` kelvin.

use atmospherics::constants::{CELL_VOLUME, QUANTITY_CAP, SCALE, TEMP_MIN};
use atmospherics::gas::{GasCatalog, GasTypeDescriptor};
use atmospherics::gas_mixture::{GasCompareResult, GasMixture};
use atmospherics::runtime::AtmosError;

fn two_gas_catalog() -> GasCatalog {
    // Two species with the default specific heat of 20.0.
    let descriptors = vec![
        GasTypeDescriptor { type_id: 101, specific_heat: None },
        GasTypeDescriptor { type_id: 102, specific_heat: None },
    ];
    GasCatalog::from_descriptors(&descriptors).unwrap()
}

#[test]
fn set_moles_round_trips() {
    let mut m = GasMixture::new();
    assert_eq!(m.set_moles(2, 50_000), Ok(()));
    assert_eq!(m.get_moles(2), 50_000);
    assert_eq!(m.get_moles(0), 0);
    assert_eq!(m.get_moles(9999), 0);
}

#[test]
fn set_moles_rejects_negative_and_out_of_domain() {
    let mut m = GasMixture::new();
    assert_eq!(m.set_moles(0, 30_000), Ok(()));
    assert_eq!(m.set_moles(0, -1), Err(AtmosError::InvalidNumericInput));
    assert_eq!(
        m.set_moles(0, QUANTITY_CAP as i64 + 1),
        Err(AtmosError::InvalidNumericInput)
    );
    assert_eq!(m.set_moles(1_000_000, 5), Err(AtmosError::OutOfRangeIndex));
    // A rejected write leaves the moles unchanged.
    assert_eq!(m.get_moles(0), 30_000);
}

#[test]
fn set_temperature_clamps_and_rejects() {
    let mut m = GasMixture::new();
    assert_eq!(m.get_temperature(), 0);
    assert_eq!(m.set_temperature(10_000), Ok(()));
    assert_eq!(m.get_temperature(), TEMP_MIN);
    assert_eq!(m.set_temperature(2_930_000), Ok(()));
    assert_eq!(m.get_temperature(), 2_930_000);
    assert_eq!(
        m.set_temperature(QUANTITY_CAP as i64 + 1),
        Err(AtmosError::InvalidNumericInput)
    );
    assert_eq!(m.get_temperature(), 2_930_000);
}

#[test]
fn total_moles_sums_all_species() {
    let mut m = GasMixture::new();
    m.set_moles(0, 100_000).unwrap();
    m.set_moles(1, 400_000).unwrap();
    assert_eq!(m.total_moles(), 500_000);
}

#[test]
fn heat_capacity_uses_catalog_and_floor() {
    let cat = two_gas_catalog();
    let mut m = GasMixture::new();
    m.set_moles(0, 100_000).unwrap(); // 10.0 moles at heat 20.0
    m.set_moles(1, 400_000).unwrap(); // 40.0 moles at heat 20.0
    // 50.0 * 20.0 = 1000.0
    assert_eq!(m.heat_capacity(&cat), 10_000_000);
    m.set_min_heat_capacity(20_000_000).unwrap();
    assert_eq!(m.heat_capacity(&cat), 20_000_000);
}

#[test]
fn thermal_energy_is_capacity_times_temperature() {
    let cat = two_gas_catalog();
    let mut m = GasMixture::new();
    m.set_moles(0, 100_000).unwrap();
    m.set_moles(1, 400_000).unwrap();
    m.set_temperature(2_930_000).unwrap();
    // 1000.0 * 293.0 = 293000.0
    assert_eq!(m.thermal_energy(&cat), 2_930_000_000);
}

#[test]
fn pressure_follows_the_gas_law() {
    let mut m = GasMixture::new();
    m.set_moles(0, 100_000).unwrap(); // 10.0 moles
    m.set_temperature(2_930_000).unwrap(); // 293.0 K
    assert_eq!(m.get_volume(), CELL_VOLUME); // 2500.0
    // 10 * 8.314 * 293 / 2500 = 9.744008 -> 9.7440 raw-floored
    assert_eq!(m.return_pressure(), 97_440);
    m.set_volume(0).unwrap();
    assert_eq!(m.return_pressure(), 0);
}

#[test]
fn merge_adds_moles_and_averages_temperature() {
    let cat = two_gas_catalog();
    let mut a = GasMixture::new();
    a.set_moles(0, 100_000).unwrap(); // 10.0 of species 0
    a.set_moles(1, 400_000).unwrap(); // 40.0 of species 1
    a.set_temperature(2_930_000).unwrap(); // 293.0 K
    let mut b = GasMixture::new();
    b.set_moles(1, 100_000).unwrap(); // 10.0 of species 1
    b.set_temperature(3_500_000).unwrap(); // 350.0 K
    a.merge(&b, &cat);
    assert_eq!(a.total_moles(), 600_000); // 60.0 moles
    assert_eq!(a.get_moles(0), 100_000);
    assert_eq!(a.get_moles(1), 500_000);
    // Weighted by heat capacities 1000.0 and 200.0:
    // (1000*293 + 200*350) / 1200 = 302.5, closer to the larger side.
    assert_eq!(a.get_temperature(), 3_025_000);
    // The giver is untouched.
    assert_eq!(b.total_moles(), 100_000);
    assert_eq!(b.get_temperature(), 3_500_000);
}

#[test]
fn remove_then_merge_back_restores_total() {
    let cat = two_gas_catalog();
    let mut m = GasMixture::new();
    m.set_moles(0, 100_000).unwrap();
    m.set_moles(1, 400_000).unwrap();
    m.set_temperature(2_930_000).unwrap();
    let removed = m.remove(250_000); // half of the 50.0 total
    assert_eq!(removed.total_moles(), 250_000);
    assert_eq!(removed.get_moles(0), 50_000);
    assert_eq!(removed.get_moles(1), 200_000);
    assert_eq!(removed.get_temperature(), 2_930_000);
    assert_eq!(m.total_moles(), 250_000);
    m.merge(&removed, &cat);
    assert_eq!(m.total_moles(), 500_000);
    assert_eq!(m.get_moles(0), 100_000);
    assert_eq!(m.get_moles(1), 400_000);
}

#[test]
fn remove_never_takes_more_than_available() {
    let mut m = GasMixture::new();
    m.set_moles(0, 30_000).unwrap();
    let removed = m.remove(1_000_000);
    assert_eq!(removed.total_moles(), 30_000);
    assert_eq!(m.total_moles(), 0);
    let mut empty = GasMixture::new();
    let nothing = empty.remove(50_000);
    assert_eq!(nothing.total_moles(), 0);
}

#[test]
fn remove_ratio_zero_and_one() {
    let mut m = GasMixture::new();
    m.set_moles(0, 100_000).unwrap();
    m.set_moles(1, 400_000).unwrap();
    m.set_temperature(2_930_000).unwrap();
    let none = m.remove_ratio(0);
    assert_eq!(none.total_moles(), 0);
    assert_eq!(m.total_moles(), 500_000);
    let all = m.remove_ratio(SCALE as i64);
    assert_eq!(all.get_moles(0), 100_000);
    assert_eq!(all.get_moles(1), 400_000);
    assert_eq!(all.get_temperature(), 2_930_000);
    assert_eq!(m.total_moles(), 0);
}

#[test]
fn remove_ratio_clamps_out_of_range_fractions() {
    let mut m = GasMixture::new();
    m.set_moles(0, 80_000).unwrap();
    let none = m.remove_ratio(-42);
    assert_eq!(none.total_moles(), 0);
    assert_eq!(m.get_moles(0), 80_000);
    let all = m.remove_ratio(3 * SCALE as i64);
    assert_eq!(all.get_moles(0), 80_000);
    assert_eq!(m.get_moles(0), 0);
}

#[test]
fn immutable_mixture_ignores_guarded_mutators() {
    let cat = two_gas_catalog();
    let mut m = GasMixture::new();
    m.set_moles(0, 100_000).unwrap();
    m.set_temperature(2_930_000).unwrap();
    m.mark_immutable();
    assert!(m.is_immutable());

    assert_eq!(m.set_moles(0, 999), Ok(()));
    assert_eq!(m.get_moles(0), 100_000);

    assert_eq!(m.set_temperature(3_000_000), Ok(()));
    assert_eq!(m.get_temperature(), 2_930_000);

    let mut giver = GasMixture::new();
    giver.set_moles(1, 50_000).unwrap();
    m.merge(&giver, &cat);
    assert_eq!(m.get_moles(1), 0);
    assert_eq!(m.get_temperature(), 2_930_000);

    m.clear();
    assert_eq!(m.get_moles(0), 100_000);

    let mut source = GasMixture::new();
    source.set_moles(1, 70_000).unwrap();
    m.copy_from_mutable(&source);
    assert_eq!(m.get_moles(0), 100_000);
    assert_eq!(m.get_moles(1), 0);
}

#[test]
fn clear_resets_to_defaults() {
    let mut m = GasMixture::new();
    m.set_moles(0, 100_000).unwrap();
    m.set_temperature(2_930_000).unwrap();
    m.set_volume(10_000_000).unwrap();
    m.clear();
    assert_eq!(m.total_moles(), 0);
    assert_eq!(m.get_temperature(), 0);
    assert_eq!(m.get_volume(), CELL_VOLUME);
}

#[test]
fn copy_from_mutable_replaces_state() {
    let mut src = GasMixture::new();
    src.set_moles(1, 60_000).unwrap();
    src.set_temperature(3_100_000).unwrap();
    src.set_volume(11_000_000).unwrap();
    let mut dst = GasMixture::new();
    dst.set_moles(0, 5_000).unwrap();
    dst.copy_from_mutable(&src);
    assert_eq!(dst.get_moles(0), 0);
    assert_eq!(dst.get_moles(1), 60_000);
    assert_eq!(dst.get_temperature(), 3_100_000);
    assert_eq!(dst.get_volume(), 11_000_000);
}

#[test]
fn multiply_scales_every_species() {
    let mut m = GasMixture::new();
    m.set_moles(0, 100_000).unwrap();
    m.set_moles(1, 30_000).unwrap();
    m.multiply(2 * SCALE); // factor 2.0
    assert_eq!(m.get_moles(0), 200_000);
    assert_eq!(m.get_moles(1), 60_000);
    m.multiply(SCALE / 2); // factor 0.5
    assert_eq!(m.get_moles(0), 100_000);
    assert_eq!(m.get_moles(1), 30_000);
}

#[test]
fn compare_reports_temperature_only_difference() {
    let mut a = GasMixture::new();
    a.set_moles(0, 100_000).unwrap();
    a.set_temperature(2_930_000).unwrap();
    let mut b = GasMixture::new();
    b.set_moles(0, 100_000).unwrap();
    b.set_temperature(3_500_000).unwrap();
    assert_eq!(a.compare(&b), GasCompareResult::TemperatureDiffers);
}

#[test]
fn compare_reports_first_differing_species() {
    let mut a = GasMixture::new();
    a.set_moles(0, 100_000).unwrap();
    a.set_moles(1, 100_000).unwrap();
    let mut b = GasMixture::new();
    b.set_moles(0, 100_000).unwrap();
    b.set_moles(1, 300_000).unwrap();
    assert_eq!(a.compare(&b), GasCompareResult::MolesDiffer(1));
}

#[test]
fn compare_reports_no_meaningful_difference() {
    let mut a = GasMixture::new();
    a.set_moles(0, 100_000).unwrap();
    a.set_temperature(2_930_000).unwrap();
    let mut b = GasMixture::new();
    b.set_moles(0, 100_000).unwrap();
    b.set_temperature(2_930_000).unwrap();
    assert_eq!(a.compare(&b), GasCompareResult::NoDifference);
}

#[test]
fn temperature_share_equalizes_equal_capacities() {
    let cat = two_gas_catalog();
    let mut a = GasMixture::new();
    a.set_moles(0, 100_000).unwrap(); // heat capacity 200.0
    a.set_temperature(3_000_000).unwrap(); // 300.0 K
    let mut b = GasMixture::new();
    b.set_moles(0, 100_000).unwrap(); // heat capacity 200.0
    b.set_temperature(3_500_000).unwrap(); // 350.0 K
    let sharer_temp = a.temperature_share(&mut b, SCALE as i64, &cat);
    // With equal capacities and a full conduction coefficient both sides
    // meet at the midpoint.
    assert_eq!(a.get_temperature(), 3_250_000);
    assert_eq!(b.get_temperature(), 3_250_000);
    assert_eq!(sharer_temp, 3_250_000);
}

#[test]
fn temperature_share_non_gas_moves_toward_reservoir() {
    let cat = two_gas_catalog();
    let mut a = GasMixture::new();
    a.set_moles(0, 100_000).unwrap(); // heat capacity 200.0 -> 2_000_000 raw
    a.set_temperature(3_000_000).unwrap();
    let reservoir_temp = a.temperature_share_non_gas(2_000_000, 3_500_000, SCALE as i64, &cat);
    assert_eq!(a.get_temperature(), 3_250_000);
    assert_eq!(reservoir_temp, 3_250_000);
}

#[test]
fn get_gases_lists_positive_species_in_order() {
    let mut m = GasMixture::new();
    m.set_moles(2, 10_000).unwrap();
    m.set_moles(0, 5_000).unwrap();
    m.set_moles(1, 0).unwrap();
    assert_eq!(m.get_gases(), vec![0usize, 2usize]);
    assert_eq!(GasMixture::new().get_gases(), Vec::<usize>::new());
}

#[test]
fn scrub_into_moves_listed_species() {
    let cat = two_gas_catalog();
    let mut src = GasMixture::new();
    src.set_moles(0, 50_000).unwrap();
    src.set_moles(1, 70_000).unwrap();
    src.set_temperature(3_000_000).unwrap();
    let mut dst = GasMixture::new();
    src.scrub_into(&mut dst, &vec![0usize], &cat);
    assert_eq!(src.get_moles(0), 0);
    assert_eq!(src.get_moles(1), 70_000);
    assert_eq!(dst.get_moles(0), 50_000);
    assert_eq!(dst.get_moles(1), 0);
    // The buffer carried the source's temperature; the empty destination
    // takes it over entirely.
    assert_eq!(dst.get_temperature(), 3_000_000);
}

#[test]
fn merge_saturates_at_the_domain_cap() {
    let cat = two_gas_catalog();
    let mut a = GasMixture::new();
    a.set_moles(0, QUANTITY_CAP as i64).unwrap();
    let mut b = GasMixture::new();
    b.set_moles(0, QUANTITY_CAP as i64).unwrap();
    a.merge(&b, &cat);
    assert_eq!(a.get_moles(0), QUANTITY_CAP);
}

#[test]
fn remove_of_the_exact_total_empties_the_source() {
    let mut m = GasMixture::new();
    m.set_moles(0, 100_000).unwrap();
    m.set_moles(1, 400_000).unwrap();
    let removed = m.remove(500_000);
    assert_eq!(removed.total_moles(), 500_000);
    assert_eq!(m.total_moles(), 0);
}

#[test]
fn from_vol_sets_the_volume() {
    let m = GasMixture::from_vol(12_345_678);
    assert_eq!(m.get_volume(), 12_345_678);
    assert_eq!(m.total_moles(), 0);
}
