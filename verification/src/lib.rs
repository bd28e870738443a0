//! Engine for scripted acceptance tests against a browser-like target.

pub mod adapter;
pub mod cef;
pub mod feedback;
pub mod harness;
pub mod inlining;
pub mod instructions;
pub mod json_runner;
pub mod launch;
pub mod policy;
pub mod runner;
pub mod scripted;
pub mod structure;
pub mod tab_lookup;
pub mod text;
pub mod value;
