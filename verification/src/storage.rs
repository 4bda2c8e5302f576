//! Memory-storage bookkeeping for a compute backend: a handle describes
//! whether a resource uses a full chunk or a slice of one, and storage
//! implementations allocate and release chunks by id.

use vstd::prelude::*;

verus! {

/// Identity of one allocated memory chunk.
#[derive(Clone, Copy, Debug, PartialEq, Eq, Structural)]
pub struct StorageId {
    /// The underlying counter value.
    pub value: u64,
}

/// Defines if data uses a full memory chunk or a slice of it.
#[derive(Clone, Copy, Debug)]
pub enum StorageUtilization {
    /// Full memory chunk of the given size.
    Full(usize),
    /// Slice of a memory chunk with start index and size.
    Slice(usize, usize),
}

/// The size in memory units that a utilization covers.
pub open spec fn spec_utilization_size(u: StorageUtilization) -> usize {
    match u {
        StorageUtilization::Full(size) => size,
        StorageUtilization::Slice(_, size) => size,
    }
}

/// The storage id of a resource together with the way it is used.
#[derive(Clone, Copy, Debug)]
pub struct StorageHandle {
    /// Storage id.
    pub id: StorageId,
    /// How the storage is used.
    pub utilization: StorageUtilization,
}

impl StorageHandle {
    /// The size the handle is pointing to in memory.
    pub fn size(&self) -> (r: usize)
        ensures
            r == spec_utilization_size(self.utilization),
    {
        match self.utilization {
            StorageUtilization::Full(size) => size,
            StorageUtilization::Slice(_, size) => size,
        }
    }
}

/// Contract of a storage implementation: allocating and deallocating memory
/// chunks. Backends implement this for their own resource kind.
pub trait ComputeStorage {
    /// The resource type handed to kernels.
    type Resource;

    /// The underlying resource for a given storage handle.
    fn get(&mut self, handle: &StorageHandle) -> Self::Resource;

    /// Allocate `size` units of memory and return a handle to them.
    fn allocate(&mut self, size: usize) -> (h: StorageHandle)
        ensures
            spec_utilization_size(h.utilization) == size,
    ;

    /// Release the memory behind the given storage id.
    fn dealloc(&mut self, id: StorageId);
}

} // verus!
