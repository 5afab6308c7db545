//! A crash-consistent store for one fixed-size record, kept as two
//! independently versioned and checksummed copies in a memory-mapped file.

pub mod checksum;
pub mod fingerprint;
pub mod laws;
pub mod layout;
pub mod records;
pub mod store;

pub use checksum::crc32c;
pub use fingerprint::{hasher, layout_fingerprint};
pub use layout::RtaError;
pub use store::{Rta, RTA};
