//! The wrapper around the compiler: its errors, its cache of compiled
//! files, and what it decides before and after the compiler runs.

pub mod cache;
pub mod error;
pub mod run;
