//! Mikros: a service runtime that supervises several backend workloads under
//! one coordinated start/stop lifecycle, together with a capability-based
//! feature registry and a structured, privacy-aware error model.

pub mod args;
pub mod builder;
pub mod context;
pub mod definition;
pub mod env;
pub mod errors;
pub mod features;
pub mod header;
pub mod logger;
pub mod name;
pub mod plugin;
pub mod registry;
pub mod service;
pub mod text;
pub mod wire;

use vstd::prelude::*;

verus! {

} // verus!
