//! Reconciliation of two mail stores: a remote one and its local cache.
//!
//! The planner compares listings of both stores and produces patches of
//! hunks; the applier records what became of each hunk; the session ties both
//! into one synchronization run, driven from outside by whoever talks to the
//! stores. Beside each of them stands a module of laws: what Verus proves of
//! every plan, every application and every run.

// What is synchronized
pub mod names;
pub mod strategy;
pub mod hunk;
pub mod listing;
pub mod snapshot;
pub mod patch;

// Planning
pub mod planner;
pub mod settle;
pub mod plan_laws;
pub mod envelope_laws;

// Applying
pub mod applier;
pub mod apply_laws;
pub mod report;

// Running
pub mod resolver;
pub mod progress;
pub mod session;
pub mod session_laws;
pub mod world;
pub mod run_laws;

// The commands and what they show
pub mod text;
pub mod account;
pub mod message;
pub mod folder;
pub mod board;
pub mod output;
