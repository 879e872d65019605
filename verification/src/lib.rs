//! Core of a small content site: an in-memory, queryable content index
//! (routing table, date-ordered post list, tag index, redirect table, feed
//! metadata) built from configuration records, served to concurrent readers
//! through a reader/writer container, and refreshed through a debounced
//! reload state machine.

pub mod config;
pub mod feed;
pub mod laws;
pub mod maps;
pub mod service;
pub mod site;
pub mod sorting;
pub mod timestamp;
pub mod util;
pub mod watcher;
