//! Reaction matching, dispatch ordering and result accumulation.

use atmospherics::constants::STOP_REACTIONS;
use atmospherics::gas::{GasCatalog, GasTypeDescriptor};
use atmospherics::gas_mixture::GasMixture;
use atmospherics::reaction::{absorb_reaction_result, Reaction, ReactionDescriptor, ReactionEngine};
use atmospherics::runtime::AtmosError;

fn one_gas_catalog() -> GasCatalog {
    let descriptors = vec![GasTypeDescriptor { type_id: 101, specific_heat: None }];
    GasCatalog::from_descriptors(&descriptors).unwrap()
}

fn plain_reaction(priority: i64, min_species0: i64) -> ReactionDescriptor {
    ReactionDescriptor {
        priority,
        min_temp_req: None,
        max_temp_req: None,
        min_ener_req: None,
        min_gas_reqs: vec![(0usize, min_species0)],
        behavior_id: 7,
    }
}

#[test]
fn gas_requirement_is_a_sharp_threshold() {
    let cat = one_gas_catalog();
    // Requires 5.0 moles of species 0, no temperature bounds.
    let rx = Reaction::from_descriptor(&plain_reaction(10_000, 50_000)).unwrap();
    let mut exactly_enough = GasMixture::new();
    exactly_enough.set_moles(0, 50_000).unwrap();
    assert!(rx.check_conditions(&exactly_enough, &cat));
    let mut just_short = GasMixture::new();
    just_short.set_moles(0, 49_990).unwrap(); // 4.999 moles
    assert!(!rx.check_conditions(&just_short, &cat));
}

#[test]
fn temperature_bounds_gate_the_reaction() {
    let cat = one_gas_catalog();
    let rx = Reaction::from_descriptor(&ReactionDescriptor {
        priority: 0,
        min_temp_req: Some(3_000_000),
        max_temp_req: Some(4_000_000),
        min_ener_req: None,
        min_gas_reqs: vec![],
        behavior_id: 1,
    })
    .unwrap();
    let mut cold = GasMixture::new();
    cold.set_temperature(2_900_000).unwrap();
    assert!(!rx.check_conditions(&cold, &cat));
    let mut warm = GasMixture::new();
    warm.set_temperature(3_500_000).unwrap();
    assert!(rx.check_conditions(&warm, &cat));
    let mut hot = GasMixture::new();
    hot.set_temperature(4_100_000).unwrap();
    assert!(!rx.check_conditions(&hot, &cat));
}

#[test]
fn energy_threshold_gates_the_reaction() {
    let cat = one_gas_catalog();
    let rx = Reaction::from_descriptor(&ReactionDescriptor {
        priority: 0,
        min_temp_req: None,
        max_temp_req: None,
        // 5000.0 raw-units of thermal energy.
        min_ener_req: Some(50_000_000),
        min_gas_reqs: vec![],
        behavior_id: 1,
    })
    .unwrap();
    // 10.0 moles at heat 20.0 is capacity 200.0; at 300.0 K the energy is
    // 60000.0, over the threshold; at 2.7 K it is 540.0, under it.
    let mut energetic = GasMixture::new();
    energetic.set_moles(0, 100_000).unwrap();
    energetic.set_temperature(3_000_000).unwrap();
    assert!(rx.check_conditions(&energetic, &cat));
    let mut faint = GasMixture::new();
    faint.set_moles(0, 100_000).unwrap();
    faint.set_temperature(27_000).unwrap();
    assert!(!rx.check_conditions(&faint, &cat));
}

#[test]
fn matching_reactions_orders_by_priority_then_registration() {
    let cat = one_gas_catalog();
    let engine = ReactionEngine::from_descriptors(&vec![
        plain_reaction(10_000, 0),
        plain_reaction(30_000, 0),
        plain_reaction(10_000, 0),
        plain_reaction(20_000, 600_000), // never satisfied below 60.0 moles
    ])
    .unwrap();
    assert_eq!(engine.reaction_count(), 4);
    let mut mix = GasMixture::new();
    mix.set_moles(0, 50_000).unwrap();
    let matching = engine.matching_reactions(&mix, &cat);
    assert_eq!(matching, vec![1usize, 0usize, 2usize]);
    assert_eq!(engine.priority_of(1), Ok(30_000));
    assert_eq!(engine.behavior_of(0), Ok(7));
    assert_eq!(engine.priority_of(9), Err(AtmosError::OutOfRangeIndex));
}

#[test]
fn descriptor_validation_is_fail_fast() {
    let bad = plain_reaction(10_000, -5);
    assert_eq!(
        Reaction::from_descriptor(&bad).map(|_| ()),
        Err(AtmosError::InvalidNumericInput)
    );
    let engine = ReactionEngine::from_descriptors(&vec![plain_reaction(0, 0), bad]);
    assert_eq!(engine.map(|_| ()), Err(AtmosError::InvalidNumericInput));
}

#[test]
fn dispatch_accumulator_ors_results_and_stops_on_the_stop_bit() {
    let (acc, stop) = absorb_reaction_result(0, 1);
    assert_eq!(acc, 1);
    assert!(!stop);
    let (acc, stop) = absorb_reaction_result(acc, STOP_REACTIONS);
    assert_eq!(acc, 1 | STOP_REACTIONS);
    assert!(stop);
    let (acc2, stop2) = absorb_reaction_result(4, 8);
    assert_eq!(acc2, 12);
    assert!(!stop2);
}
