//! fastpasta: validation, filtering and inspection of ALICE readout data.
//!
//! The library scans a raw byte stream of fixed-format Raw Data Headers
//! (RDHs) followed by variable-length payload, checks protocol invariants
//! on the RDH stream and on the ITS detector payload down to the ALPIDE
//! chip layer, filters packets by link, FEE ID or ITS layer/stave, and
//! renders human-readable views and a summary report.

pub mod alpide;
pub mod alpide_words;
pub mod config;
pub mod counters;
pub mod dedup;
pub mod its;
pub mod pipeline;
pub mod rdh;
pub mod report;
pub mod running;
pub mod scan;
pub mod stats;
pub mod text;
pub mod views;
