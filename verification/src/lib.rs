//! A verified note-parameter evaluation and audio-rendering pipeline for a
//! grid-based music sequencer.
//!
//! A project is an ordered list of columns (voices); a column is an ordered
//! list of notes plus a list of post-column effects; a note carries three
//! ratios (frequency, duration, velocity), the name of a user-authored
//! synthesis function, and a chain of effect invocations.  Rendering walks
//! each column's notes in order, threads a committed
//! (frequency, duration, velocity) state across them, applies each note's
//! effect chain, asks a synthesis function for the samples of every parameter
//! tuple, sums layered tuples, cycles repeats, concatenates notes,
//! applies post-column effects, and mixes the columns into one stereo buffer.
//!
//! Samples and parameters are IEEE-754 single-precision values carried as
//! their raw 32-bit patterns, so the whole pipeline stays within integer
//! reasoning; the arithmetic on those patterns goes through `rustc_apfloat`
//! behind a handful of trusted wrappers.  Calling the dynamically loaded
//! synthesis functions is the one step the library cannot take itself: the
//! planner ([`plan`]) says which calls to make, the caller makes them and
//! hands every answer back (an unresolved name hands back `None`), and the
//! assembler ([`render`]) turns plan and answers into the final buffer.

pub mod bits;
pub mod eval;
pub mod laws;
pub mod model;
pub mod parse;
pub mod plan;
pub mod registry;
pub mod render;
