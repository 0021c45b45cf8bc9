//! Random passwords from configurable character classes.
//!
//! A password is filled position by position. Each position first chooses a
//! class among those that the [`Config`] enables, every class being as
//! likely as any other, and then a character of that class. With the guard
//! on, a class that already fills two of the last three positions has its
//! character drawn a second time.
//!
//! All randomness comes through a [`random::RandomSource`], which records
//! what it hands out. [`generate`] states which password follows from the
//! configuration and the recorded draws; [`model`] holds the definitions
//! behind that statement and the laws that follow from them.

pub mod characters;
pub mod config;
pub mod generator;
pub mod model;
pub mod random;
pub mod symbols;

pub use crate::config::Config;
pub use crate::generator::{generate, run, GenerateError};
