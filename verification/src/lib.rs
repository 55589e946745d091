//! Constrained-random password generation.
//!
//! A request names a password length, a number of passwords and the symbol
//! characters the caller enabled. Each generated password holds at least one
//! upper-case letter, one lower-case letter and one digit, at least one enabled
//! symbol when any is enabled, and nothing else. The contracts state these
//! guarantees for every outcome of the random source.

pub mod error;
pub mod random;
pub mod alphabet;
pub mod partition;
pub mod text;
pub mod composition;
pub mod generator;
pub mod model;
pub mod decimal;
pub mod input;
