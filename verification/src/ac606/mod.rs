//! Integer parts of the 606-style engines: their repeatable random streams.
use vstd::prelude::*;

pub mod clap;
pub mod common;

pub use common::Random;
