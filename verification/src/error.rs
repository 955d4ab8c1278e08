//! Errors raised while a simulation is configured or stepped.

use vstd::prelude::*;
use crate::tracker::KernelHandle;

verus! {

/// A fault of the configuration, found before anything is allocated.
#[derive(Debug, Clone, Copy, PartialEq, Eq, Structural)]
pub enum ConfigurationError {
    /// A grid dimension is zero or not a multiple of the workgroup tile.
    MisalignedGrid { width: u32, height: u32 },
    /// A kernel binds a slot for which its variant has no place left: the
    /// slot is not declared, or is declared before a slot bound earlier.
    BindingLayoutMismatch { position: usize, slot: u32 },
}

/// A fault that ends a frame before anything of it is submitted.
#[derive(Debug, PartialEq, Eq)]
pub enum SimulationError {
    /// A kernel that the current phase waits for failed to build. The
    /// simulation stays where it is; the fault does not go away.
    CompileFailure { kernel: KernelHandle, reason: String },
    /// The submission queue refused the frame, which needed more room than it
    /// had. The simulation is as it was before the frame, which may be tried
    /// again.
    RuntimeDispatchError { needed: usize, room: usize },
}

} // verus!
