//! Scoring inputs that are exact: the severity of a flag and the category
//! weights. The weighted score itself is floating point and is computed by
//! the application around this library.

use vstd::prelude::*;

verus! {

/// Severity of a fraud/consistency flag.
#[derive(Debug, Clone, Copy, PartialEq, Eq, Structural, PartialOrd, Ord)]
pub enum FlagSeverity {
    /// Surfaced in report only; no scoring effect.
    Info,
    /// Reduces relevant category score; no overall cap.
    Warning,
    /// Caps the overall score regardless of everything else.
    Critical,
}

/// Relative category weights. A category's share of the overall score is
/// its weight divided by the sum of all five, so the shares sum to one.
#[derive(Debug, Clone, Copy, PartialEq, Eq, Structural)]
pub struct StorageWeights {
    pub storage: u32,
    pub cpu_gpu_sanity: u32,
    pub battery: u32,
    pub display: u32,
    pub ports_connectivity: u32,
}

/// The weights of the scoring model, in percent: storage 25, CPU/GPU 25,
/// battery 20, display 15, ports 10. They total 95 (fraud consistency is a
/// gate, not a weighted category), and the score divides by that total.
pub fn weights() -> (w: StorageWeights)
    ensures
        w == (StorageWeights {
            storage: 25,
            cpu_gpu_sanity: 25,
            battery: 20,
            display: 15,
            ports_connectivity: 10,
        }),
{
    StorageWeights { storage: 25, cpu_gpu_sanity: 25, battery: 20, display: 15, ports_connectivity: 10 }
}

/// The sum of the five weights.
pub open spec fn weight_total(w: StorageWeights) -> int {
    w.storage + w.cpu_gpu_sanity + w.battery + w.display + w.ports_connectivity
}

impl StorageWeights {
    /// The sum of the five weights, by which each is divided to get its
    /// share.
    pub fn total(&self) -> (t: u64)
        ensures
            t == weight_total(*self),
    {
        self.storage as u64 + self.cpu_gpu_sanity as u64 + self.battery as u64 + self.display as u64
            + self.ports_connectivity as u64
    }
}

} // verus!
