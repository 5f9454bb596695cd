//! A registry of files uploaded to a time-limited object store.
//!
//! The library keeps the local table of upload records, decides the
//! two-sided delete protocol (local transaction, remote revocation), and
//! holds the rules on file sizes, record availability and expiry dates.
//! Network transfers, prompts and the on-disk database are driven by the
//! caller, which hands the library plain values.
pub mod errors;
pub mod record;
pub mod store;
pub mod clock;
pub mod size;
pub mod remote;
pub mod prompt;
pub mod level;
