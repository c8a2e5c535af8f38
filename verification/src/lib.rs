//! Telemetry push core.
//!
//! A batch of JSON records is read from the text of a data file
//! ([`loader`]), each record is turned into the values of one telemetry
//! payload ([`transform`], with the random values of [`synth`]), the payload
//! is made ready for posting and the answer of the server is judged
//! ([`dispatch`], with the clock readings of [`clock`]), and the sends are
//! put in sequence, round after round ([`controller`]). Reading the file and
//! the clocks, posting, and pausing are left to the caller.
//!
//! JSON values are held as a tree of the library's own ([`json`]); the text is
//! parsed by serde_json ([`parse`]).

pub mod clock;
pub mod controller;
pub mod dispatch;
pub mod json;
pub mod loader;
pub mod parse;
pub mod synth;
pub mod transform;
