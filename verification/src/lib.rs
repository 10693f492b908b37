//! Verified core of a LAN scanner: target expansion, packet layouts,
//! incoming packet classification, OUI lookup tables, command line
//! handling and terminal UI state.
use vstd::prelude::*;

pub mod cli;
pub mod error;
pub mod net;
pub mod oui;
pub mod packet;
pub mod report;
pub mod scanners;
pub mod text;
pub mod targets;
pub mod term;

verus! {


} // verus!
