//! A verified Game of Life engine over a toroidal grid: a dense row-major
//! cell buffer with neighbor counting by modular walk, the standard
//! birth-and-survival transition rule applied simultaneously to every cell,
//! and mutators (resize, reseed, toggle, seed a pattern) that keep the
//! buffer exactly `width * height` cells. The laws module proves the
//! engine-wide properties: determinism, still-life stability, toggling as a
//! self-inverse, and the speed multiplier's equivalence to repeated ticks.

pub mod cell;
pub mod laws;
pub mod universe;

pub use cell::Cell;
pub use universe::Universe;
