//! Simulation outputs: markers for what to save, and keys of saved waveforms.
use vstd::prelude::*;

verus! {

/// Saves the raw output of a simulation.
#[derive(Debug, Clone, Copy, PartialEq, Eq, Structural)]
pub struct SaveOutput;

/// Saves the transient time waveform.
#[derive(Debug, Clone, Copy, PartialEq, Eq, Structural)]
pub struct SaveTime;

impl SaveOutput {
    /// The view of the marker inside an instance: the marker itself.
    pub fn nested_view(&self, _parent: &Vec<String>) -> (r: SaveOutput)
        ensures
            r == *self,
    {
        *self
    }
}

impl SaveTime {
    /// The view of the marker inside an instance: the marker itself.
    pub fn nested_view(&self, _parent: &Vec<String>) -> (r: SaveTime)
        ensures
            r == *self,
    {
        *self
    }
}

/// An identifier for a saved transient voltage.
#[derive(Debug, Clone, Copy, Hash, PartialEq, Eq, Structural)]
pub struct VoltageKey(pub u64);

/// An identifier for a saved transient current: the keys of the currents it sums.
#[derive(Debug, Clone, Hash, PartialEq, Eq)]
pub struct CurrentKey(pub Vec<u64>);

} // verus!
