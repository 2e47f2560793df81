//! Synchronizes a local collection of downloadable content items with a
//! remote catalog and a manifest file, driving an external download helper.
//!
//! The crate holds the engine itself: the content-addressed checksum over
//! directory trees, the decision logic of the supervised helper process, the
//! iterative remote-dependency-closure resolver, and the reconciliation
//! algorithm that turns local/remote/manifest state into a download plan and
//! tracks its partially-failing execution.  All I/O (filesystem walking,
//! HTTP, process spawning) lives with the caller, which hands plain values in
//! and carries actions out.

pub mod batch;
pub mod checksum;
pub mod command;
pub mod config;
pub mod error;
pub mod order;
pub mod process;
pub mod reconcile;
pub mod resolver;
pub mod schemas;
pub mod ui;
