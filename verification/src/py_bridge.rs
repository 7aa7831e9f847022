//! The shared input of the Python bridge, which keeps a copy of its own.
use vstd::prelude::*;

use crate::evm_input::{is_initial_input, EvmInput};

verus! {

/// The bridge's shared state.
pub struct BridgeGlobals {
    pub global_input: EvmInput,
}

impl BridgeGlobals {
    /// The state before any input was shared.
    pub fn new() -> (r: BridgeGlobals)
        ensures
            is_initial_input(r.global_input),
    {
        BridgeGlobals { global_input: EvmInput::default() }
    }
}

/// The shared input.
pub fn get_global_input(g: &BridgeGlobals) -> (r: EvmInput)
    ensures
        r.same_as(g.global_input),
{
    g.global_input.duplicate()
}

/// Replaces the shared input.
pub fn set_global_input(g: &mut BridgeGlobals, new_input: EvmInput)
    ensures
        final(g).global_input == new_input,
{
    g.global_input = new_input;
}

} // verus!
