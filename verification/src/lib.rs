//! Verified core of the managed-daemon library: DAEMON.md policy validation,
//! package layout rules, binding-store rules, durable run-record lifecycle,
//! the UTC cron scheduler, and the loopback daemon control plane.

pub mod bindings;
pub mod completion;
pub mod control;
pub mod direct;
pub mod foreign;
pub mod history;
pub mod laws;
pub mod order;
pub mod package;
pub mod runs;
pub mod schedule;
pub mod text;
pub mod types;
pub mod validation;
