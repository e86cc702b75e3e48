//! Core of a cluster automation agent that watches notification rules and
//! workload rollouts, and fires one outbound notification per completed
//! rollout per matching rule.
//!
//! The library holds the verified logic: the rule index, the completion
//! detector, the generation-based deduplication, the match engine, and the
//! construction of the dispatch actions. The surrounding process (watch
//! streams, HTTP delivery) lives outside and hands this library plain values.

use vstd::prelude::*;

pub mod dedupe;
pub mod deployment;
pub mod engine;
pub mod json;
pub mod kvmap;
pub mod labels;
pub mod rule;
pub mod rule_index;

verus! {

/// Error raised by the reconciliation entry points.
///
/// The reconciliation of a rule itself is total, so this is reserved for
/// failures of the surrounding machinery.
#[derive(Debug, Clone, Copy, PartialEq, Eq, Structural)]
pub enum Error {
    Unknown,
}

} // verus!
