//! A discrete-grid falling-sand simulation core.
//!
//! Particles occupy cells of a fixed-size 2D grid and migrate toward open or
//! displaceable neighboring cells once per simulation tick, based on
//! particle-kind movement rules and a density comparison.  Densities are kept
//! as fixed-point integers (`0` marks an empty cell); continuous pointer
//! positions are kept in integer sub-pixel units, so every quantity the rules
//! read is an exact value.
//!
//! The modules:
//! - [`grid`]: the dense 2D store of cell densities.
//! - [`particle`]: particle kinds, the catalog, and per-instance state.
//! - [`mapper`]: the pure pointer-position to grid-cell transform.
//! - [`sim`]: the placement controller and the two-phase tick simulator.

pub mod grid;
pub mod mapper;
pub mod particle;
pub mod sim;
