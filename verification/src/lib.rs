//! Verified discrete core of the breakup, rendezvous and deep-space planning suite.

pub mod autoorbit;
pub mod cli;
pub mod cr3bp;
pub mod json;
pub mod json_laws;
pub mod ranking;
pub mod rng;
pub mod rpo;
pub mod service;
pub mod text;
pub mod types;
