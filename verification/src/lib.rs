//! An interactive greeting, as a verified library.
//!
//! The dialogue asks for a name, an excitement rating between 1 and 10 and a
//! year between 1900 and 2100, asks again whenever a numeric answer is not
//! acceptable, and closes with a handful of personalised lines. Everything
//! that decides or computes lives here, from plain values to plain values;
//! reading and printing are left to the caller.

pub mod decimal;
pub mod dialogue;
pub mod message;
pub mod prompt;
pub mod session;
pub mod text;
pub mod tier;
