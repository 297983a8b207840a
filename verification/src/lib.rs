//! Anonymous usage-telemetry reporting for a graph-federation router.
//!
//! The library collects a shape-only summary of the host's configuration
//! and command-line invocation, assembles it into a report together with
//! persistent machine and per-process session identifiers, and renders the
//! report as the JSON document that is posted to the collector.  All logic
//! is verified; the host performs the surrounding I/O (reading the
//! environment, the machine-id file, and sending the report).

pub mod args;
pub mod config;
pub mod factory;
pub mod ident;
pub mod jsonfmt;
pub mod platform;
pub mod report;
pub mod usage;
pub mod walker;
