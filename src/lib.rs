//! Change-data-capture handling for a table of monitored streams: classifying
//! stream records, projecting their snapshots, and the decisions of a batch
//! dispatcher that drives the per-record handlers.
pub mod event_name;
pub mod model;
pub mod dispatch;
