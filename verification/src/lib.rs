//! Versioned guest/native wire contract and strict scenario formats for the
//! first OpenStrike vertical slice.

pub mod contract;
pub mod text;
pub mod scenario;
pub mod runner;
pub mod host;
pub mod json;
