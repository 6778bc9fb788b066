//! Discrete core of a 3x3x3 combination-puzzle animation.
//!
//! The library keeps the logical state of the 27 sub-cubes exact: integer
//! lattice positions, per-axis color slots, the rotation algebra that a
//! completed face turn applies to them, and the move-queue state machine
//! that sequences turns over time. Continuous concerns (easing curves,
//! transform matrices, rendering) are left to the embedding program, which
//! drives [`rubik::Cube::animate`] once per frame and reads the resulting
//! discrete state back.

pub mod rubik;
