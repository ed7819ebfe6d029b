//! A verified core for a command wrapper that prints a randomly selected,
//! templated, styled affirmation after the wrapped command exits.
//!
//! The library holds the logic: configuration resolution from an
//! environment snapshot, mood-keyed affirmation resolution and mixing,
//! uniform random selection, template substitution, and the decisions of
//! one run.  Process spawning, environment access, file reading, JSON
//! decoding and terminal rendering stay with the embedding program.

pub mod affirmations;
pub mod color;
pub mod config;
pub mod mommy;
pub mod numbers;
pub mod rand;
pub mod strings;
pub mod utils;
