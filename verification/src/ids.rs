//! Identities by which the pipeline refers to things it does not own.

use vstd::prelude::*;

verus! {

/// A device-resident resource that a transfer reads from. It may not be
/// resolvable yet when a request is made.
#[derive(Clone, Copy, Debug, PartialEq, Eq, Structural, Hash)]
pub struct SourceRef(pub u64);

/// The slot of the host store that a resolved transfer is written to. The
/// pipeline never keeps such a slot alive.
#[derive(Clone, Copy, Debug, PartialEq, Eq, Structural, Hash)]
pub struct DestinationId(pub u64);

/// The identity of a device buffer, independent of what the buffer holds.
#[derive(Clone, Copy, Debug, PartialEq, Eq, Structural, Hash)]
pub struct BufferRef(pub u64);

/// Where a resolved source lives on the device: its buffer and its size in bytes.
#[derive(Clone, Copy, Debug, PartialEq, Eq, Structural)]
pub struct GpuResourceDescriptor {
    pub buffer: BufferRef,
    pub size: u64,
}

} // verus!
