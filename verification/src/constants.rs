//! Fixed-point representation and the engine's physical constants.
//!
//! Every physical quantity (moles, kelvin, litres, heat capacity, thermal
//! energy, pressure) is stored as a non-negative integer counting units of
//! `1 / SCALE`. A stored quantity never exceeds [`QUANTITY_CAP`]; operations
//! whose mathematical result would pass the cap saturate there, and setters
//! reject out-of-domain input instead of storing it.

use vstd::prelude::*;

verus! {

/// Raw units per whole unit: a raw value of `10_000` is `1.0`.
pub const SCALE: u64 = 10_000;

/// Largest storable raw quantity (`100_000_000.0` in whole units).
pub const QUANTITY_CAP: u64 = 1_000_000_000_000;

/// Largest number of gas species the catalog (and hence a mixture) can hold.
pub const MAX_SPECIES: usize = 4096;

/// Coldest temperature a successful `set_temperature` may leave behind: `2.7` kelvin.
pub const TEMP_MIN: u64 = 27_000;

/// Specific heat used for a species whose descriptor gives none: `20.0`.
pub const DEFAULT_SPECIFIC_HEAT: u64 = 200_000;

/// Default volume of one simulation cell: `2500.0`.
pub const CELL_VOLUME: u64 = 25_000_000;

/// Ideal-gas constant: `8.314`.
pub const R_IDEAL_GAS: u64 = 83_140;

/// Absolute part of the mole-comparison tolerance: `0.1` moles.
pub const MOLES_TOLERANCE: u64 = 1_000;

/// Denominator of the relative part of the mole-comparison tolerance
/// (one tenth of the compared mixture's own amount).
pub const MOLES_TOLERANCE_RATIO: u64 = 10;

/// Absolute temperature tolerance for `compare` and for `temperature_share`
/// to bother exchanging heat at all: `0.5` kelvin.
pub const TEMP_TOLERANCE: u64 = 5_000;

/// Bit a reaction's host behavior sets to halt further reaction processing.
pub const STOP_REACTIONS: u32 = 2;

} // verus!
