//! A particle-life simulation core: typed point particles that attract or
//! repel one another according to a per-type-pair rule table.
//!
//! One tick lets every pair of bodies interact, applies friction, moves the
//! bodies and wraps them into the viewport (`particles`), in a world that
//! owns the rule table, the configuration and the bodies (`world`). Windows,
//! drawing and the clock belong to the embedding program.
//!
//! The library is generic over the number type (`scalar::Scalar`), so the
//! same verified steps run on the exact fixed-point numbers of `fixed::Fixed`
//! and on whatever number type the embedding program supplies.

pub mod components;
pub mod exact;
pub mod fixed;
pub mod pairs;
pub mod particles;
pub mod scalar;
pub mod utils;
pub mod world;
