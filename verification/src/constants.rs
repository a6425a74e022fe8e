use vstd::prelude::*;

verus! {

/// Ceiling, in bytes, on the guest linear memory that a memory-slice
/// descriptor may address. Descriptors whose `ptr + len` exceeds this
/// bound are rejected before any guest memory is touched.
pub const MAX_WASM_MEMORY_SIZE: usize = 0x8000_0000;

} // verus!
