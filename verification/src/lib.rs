//! Mount indexing engine: a per-mount metadata store that records every
//! discovered filesystem entry, queues entries for content hashing, and
//! reports aggregate status, together with the pure decision logic of the
//! directory scanner, the filesystem watcher, and the hash processor.

pub mod config;
pub mod digest;
pub mod disk_types;
pub mod laws;
pub mod oauth;
pub mod processor;
pub mod records;
pub mod remote;
pub mod report;
pub mod scan;
pub mod store;
pub mod textfmt;
pub mod watch;
