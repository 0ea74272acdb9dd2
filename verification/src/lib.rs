//! A gas-mixture engine for cell-based atmospheric simulation.
//!
//! The crate models each simulation cell as a [`gas_mixture::GasMixture`]:
//! per-species mole counts, a temperature, a volume and a mutability latch.
//! Mixtures live in a pooled registry ([`gas::GasMixtures`]) addressed by
//! integer handles, species are described by a process-wide catalog
//! ([`gas::GasCatalog`]), and chemical reactions are matched against mixtures
//! by the [`reaction`] module.
//!
//! All physical quantities are fixed-point integers: a raw value counts units
//! of `1 / SCALE` (see [`constants`]), so `50_000` raw is `5.0` moles or
//! `5.0` kelvin. The host boundary decodes its own numeric format into this
//! representation before calling in.

pub mod constants;
pub mod gas;
pub mod gas_mixture;
pub mod laws;
pub mod reaction;
pub mod runtime;
pub mod turf_grid;
