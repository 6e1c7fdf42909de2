//! A cellular-automaton fire effect: a grid of heat intensities seeded along
//! its bottom edge and carried upward step by step with random decay and a
//! leftward drift, then mapped through a fixed colour ramp.
pub mod decay;
pub mod event;
pub mod fire;
pub mod grid;
pub mod palette;
