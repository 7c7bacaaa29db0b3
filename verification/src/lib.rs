//! A verified core for a run-tracking dashboard.
//!
//! Experimental data "runs" move through a fixed two-step processing
//! workflow.  The canonical record of every run and of its two processing
//! steps lives in [`store::Store`]; the workflow state machine, the legacy
//! import loader and the mirror-synchronization protocol are built on top of
//! it.  Each operation carries a contract describing exactly what it returns
//! and how it changes the store, and the laws the system is meant to obey
//! (atomic step creation, idempotent transitions, partial updates, upsert
//! semantics on import, single-use mirror tokens) are proved here.

pub mod text;
pub mod state;
pub mod date;
pub mod store;
pub mod machine;
pub mod import;
pub mod json;
pub mod mirror;
pub mod api;
