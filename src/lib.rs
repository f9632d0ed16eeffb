//! Decisions and formats of a batch job that mints NFT tokens on a remote
//! contract: log settings, configuration checks, work-item validation, the
//! metadata sent with each mint, how each outcome is settled, and the result
//! line written for every processed item.

pub mod text;
pub mod principal;
pub mod types;
pub mod config;
pub mod logger;
pub mod job;
