//! A verified auction engine: bid admission and cancellation, ascending and
//! descending price strategies, anti-snipe extension, sealed-bid commit and
//! reveal gating, resolution and settlement.
//!
//! The engine never moves funds itself. Every operation returns the list of
//! transfers that the host must carry out, all of them or none, and the
//! library proves that this list keeps the custody account balanced.

pub mod types;
pub mod pricing;
pub mod behavior;
pub mod contract;
pub mod conservation;
pub mod lifecycle;
pub mod sealed;
pub mod compensation;
