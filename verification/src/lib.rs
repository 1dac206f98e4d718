//! Verified core of gitwasm: the decisions of the host and the rules of its
//! stock hook modules, proved against their contracts.

pub mod text;
pub mod gitutil;
pub mod runner;
pub mod commit_lint;
pub mod secret_scan;
pub mod commands;

pub use gitutil::git_string;
pub use runner::Sandbox;
