//! One-shot loading gate for a process-wide recognizer handle.
//!
//! The host keeps a single `EngineGate` behind its global synchronization
//! primitive. One caller wins the right to build the recognizer
//! (`try_claim_loading`), everybody else polls `is_loading` until the winner
//! calls `finish_loading` and publishes the engine (`mark_engine_loaded`).

use vstd::prelude::*;

verus! {

/// State of the process-wide engine slot: whether an engine has been
/// published, and whether some caller currently holds the load claim.
#[derive(Clone, Copy, Debug, PartialEq, Eq, Structural)]
pub struct EngineGate {
    pub loaded: bool,
    pub loading: bool,
}

impl EngineGate {
    /// A fresh gate: nothing published, nobody loading.
    pub fn new() -> (r: EngineGate)
        ensures
            !r.loaded,
            !r.loading,
    {
        EngineGate { loaded: false, loading: false }
    }
}

/// Whether an engine has been published to the global slot.
pub fn is_engine_loaded(gate: &EngineGate) -> (r: bool)
    ensures
        r == gate.loaded,
{
    gate.loaded
}

/// Records that an engine was published to the global slot.
pub fn mark_engine_loaded(gate: &mut EngineGate)
    ensures
        final(gate).loaded,
        final(gate).loading == old(gate).loading,
{
    gate.loaded = true;
}

/// Atomically claims the right to load: succeeds exactly when nobody else
/// holds the claim, and then takes it.
pub fn try_claim_loading(gate: &mut EngineGate) -> (won: bool)
    ensures
        won == !old(gate).loading,
        final(gate).loading,
        final(gate).loaded == old(gate).loaded,
{
    if !gate.loading {
        gate.loading = true;
        true
    } else {
        false
    }
}

/// Releases the load claim.
pub fn finish_loading(gate: &mut EngineGate)
    ensures
        !final(gate).loading,
        final(gate).loaded == old(gate).loaded,
{
    gate.loading = false;
}

/// Whether some caller currently holds the load claim.
pub fn is_loading(gate: &EngineGate) -> (r: bool)
    ensures
        r == gate.loading,
{
    gate.loading
}

/// Scoped holder of the load claim. The host's wrapper releases the claim
/// when the guard is dropped; in this core the release is `finish_loading`.
pub struct LoadingGuard {
}

impl LoadingGuard {
    /// Takes the load claim if it is free; `None` when another caller
    /// already holds it.
    pub fn new(gate: &mut EngineGate) -> (r: Option<LoadingGuard>)
        ensures
            r is Some <==> !old(gate).loading,
            final(gate).loading,
            final(gate).loaded == old(gate).loaded,
    {
        if try_claim_loading(gate) {
            Some(LoadingGuard {  })
        } else {
            None
        }
    }
}

} // verus!
