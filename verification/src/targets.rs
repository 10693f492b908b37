//! Helpers for managing IP and port target lists
pub mod ips;
pub mod ports;
