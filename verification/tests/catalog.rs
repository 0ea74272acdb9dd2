//! The gas-type catalog and the error taxonomy.

use atmospherics::constants::DEFAULT_SPECIFIC_HEAT;
use atmospherics::gas::{GasCatalog, GasTypeDescriptor};
use atmospherics::runtime::{AtmosError, Runtime};

fn sample_catalog() -> GasCatalog {
    let descriptors = vec![
        GasTypeDescriptor { type_id: 101, specific_heat: Some(250_000) },
        GasTypeDescriptor { type_id: 205, specific_heat: None },
        GasTypeDescriptor { type_id: 310, specific_heat: Some(-3) },
    ];
    GasCatalog::from_descriptors(&descriptors).unwrap()
}

#[test]
fn catalog_assigns_dense_indices() {
    let cat = sample_catalog();
    assert_eq!(cat.total_num_gases(), 3);
    assert_eq!(cat.gas_id_from_type(101), Ok(0));
    assert_eq!(cat.gas_id_from_type(205), Ok(1));
    assert_eq!(cat.gas_id_from_type(310), Ok(2));
    assert_eq!(cat.gas_id_to_type(0), Ok(101));
    assert_eq!(cat.gas_id_to_type(2), Ok(310));
}

#[test]
fn unknown_type_and_out_of_range_index_are_typed_failures() {
    let cat = sample_catalog();
    assert_eq!(cat.gas_id_from_type(999), Err(AtmosError::UnknownGasType));
    assert_eq!(cat.gas_id_to_type(3), Err(AtmosError::OutOfRangeIndex));
}

#[test]
fn missing_or_out_of_domain_heat_falls_back_to_default() {
    let cat = sample_catalog();
    assert_eq!(cat.specific_heat(0), 250_000);
    assert_eq!(cat.specific_heat(1), DEFAULT_SPECIFIC_HEAT);
    assert_eq!(cat.specific_heat(2), DEFAULT_SPECIFIC_HEAT);
    assert_eq!(cat.specific_heat(99), 0);
}

#[test]
fn runtime_wraps_a_message() {
    let r = Runtime::new(String::from("tile out of bounds"));
    assert_eq!(r.message, "tile out of bounds");
}

#[test]
fn every_failure_renders_a_message() {
    assert_eq!(
        AtmosError::InvalidHandle.to_runtime().message,
        "invalid mixture reference"
    );
    assert_eq!(AtmosError::UnknownGasType.to_runtime().message, "unknown gas type");
    assert_eq!(
        AtmosError::OutOfRangeIndex.to_runtime().message,
        "gas species index out of range"
    );
    assert_eq!(
        AtmosError::InvalidNumericInput.to_runtime().message,
        "numeric input outside the accepted domain"
    );
    assert_eq!(AtmosError::MissingArgument.to_runtime().message, "missing argument");
}
