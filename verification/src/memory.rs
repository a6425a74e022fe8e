use vstd::prelude::*;
use vstd::bytes::{spec_u32_from_le_bytes, u32_from_le_bytes};
use vstd::slice::slice_subrange;
use crate::constants::MAX_WASM_MEMORY_SIZE;

verus! {

/// Why a memory-slice operation was refused. The host maps any of these to
/// a guest trap carrying the error's textual form.
#[derive(Debug, Clone, PartialEq, Eq)]
pub enum MemorySliceError {
    /// The descriptor addresses memory past the fixed ceiling.
    ExceedMaxWASMMemorySize,
    /// A payload is larger than the slice it must fit in, or the slice is
    /// larger than the caller's limit.
    ExceedMemorySliceSize,
    /// The guest memory could not be read at the described location.
    ReadError(String),
    /// The guest memory could not be written at the described location.
    WriteError(String),
    /// The descriptor's pointer is zero.
    NullPointer,
}

impl MemorySliceError {
    /// The error's textual form, as a sequence of characters.
    pub open spec fn text(&self) -> Seq<char> {
        match self {
            MemorySliceError::ExceedMaxWASMMemorySize => {
                "memory slice exceeds the maximum WASM memory size"@
            },
            MemorySliceError::ExceedMemorySliceSize => "data exceeds the memory slice size"@,
            MemorySliceError::ReadError(msg) => "failed to read WASM memory: "@ + msg@,
            MemorySliceError::WriteError(msg) => "failed to write WASM memory: "@ + msg@,
            MemorySliceError::NullPointer => "memory slice pointer is null"@,
        }
    }

    /// The error's textual form, as surfaced to the guest in a trap.
    pub fn describe(&self) -> (s: String)
        ensures
            s@ == self.text(),
    {
        match self {
            MemorySliceError::ExceedMaxWASMMemorySize => String::from_str(
                "memory slice exceeds the maximum WASM memory size",
            ),
            MemorySliceError::ExceedMemorySliceSize => String::from_str(
                "data exceeds the memory slice size",
            ),
            MemorySliceError::ReadError(msg) => String::from_str("failed to read WASM memory: ")
                .concat(msg.as_str()),
            MemorySliceError::WriteError(msg) => String::from_str("failed to write WASM memory: ")
                .concat(msg.as_str()),
            MemorySliceError::NullPointer => String::from_str("memory slice pointer is null"),
        }
    }
}

/// A block of memory in the WASM (guest) memory.
#[derive(Debug, Clone, Copy, PartialEq, Eq, Structural)]
pub struct MemorySlice {
    /// A pointer to the start of this memory slice, measured in bytes from
    /// the beginning of the WASM (guest) memory.
    pub ptr: u32,
    /// The number of bytes in this memory slice.
    pub len: u32,
}

/// Address of an 8-byte descriptor in guest memory.
pub type MemorySlicePtr = u32;

/// The descriptor encoded in its 8-byte wire form: `ptr` then `len`,
/// both little-endian `u32`.
pub open spec fn spec_slice_of(bytes: Seq<u8>) -> MemorySlice
    recommends
        bytes.len() == 8,
{
    MemorySlice {
        ptr: spec_u32_from_le_bytes(bytes.subrange(0, 4)),
        len: spec_u32_from_le_bytes(bytes.subrange(4, 8)),
    }
}

/// A descriptor is in bounds when its pointer is non-null and the block it
/// describes stays under the memory ceiling.
pub open spec fn slice_in_bounds(s: MemorySlice) -> bool {
    s.ptr != 0 && s.ptr + s.len <= MAX_WASM_MEMORY_SIZE
}

impl MemorySlice {
    /// Decode a `MemorySlice` from the 8 bytes found at its descriptor
    /// address in the WASM (guest) memory.
    pub fn from_memory_slice_ptr_bytes(bytes: [u8; 8]) -> (s: Self)
        ensures
            s == spec_slice_of(bytes@),
    {
        let ptr = u32_from_le_bytes(slice_subrange(bytes.as_slice(), 0, 4));
        let len = u32_from_le_bytes(slice_subrange(bytes.as_slice(), 4, 8));
        MemorySlice { ptr, len }
    }

    /// Validate the memory slice: the pointer must be non-null and the
    /// described block must end at or before the memory ceiling.
    pub fn validate(memory_slice: &MemorySlice) -> (r: Result<(), MemorySliceError>)
        ensures
            r is Ok <==> slice_in_bounds(*memory_slice),
            memory_slice.ptr == 0 ==> (r matches Err(e) && e is NullPointer),
            memory_slice.ptr != 0 && memory_slice.ptr + memory_slice.len > MAX_WASM_MEMORY_SIZE
                ==> (r matches Err(e) && e is ExceedMaxWASMMemorySize),
    {
        if memory_slice.ptr == 0 {
            return Err(MemorySliceError::NullPointer);
        }

        if (memory_slice.ptr as u64) + (memory_slice.len as u64) > (MAX_WASM_MEMORY_SIZE as u64) {
            return Err(MemorySliceError::ExceedMaxWASMMemorySize);
        }

        Ok(())
    }

    /// Decode a descriptor from its 8-byte wire form and validate it.
    pub fn new(bytes: [u8; 8]) -> (r: Result<Self, MemorySliceError>)
        ensures
            r is Ok <==> slice_in_bounds(spec_slice_of(bytes@)),
            r matches Ok(s) ==> s == spec_slice_of(bytes@),
            spec_slice_of(bytes@).ptr == 0 ==> (r matches Err(e) && e is NullPointer),
            spec_slice_of(bytes@).ptr != 0 && !slice_in_bounds(spec_slice_of(bytes@))
                ==> (r matches Err(e) && e is ExceedMaxWASMMemorySize),
    {
        let memory_slice = MemorySlice::from_memory_slice_ptr_bytes(bytes);
        match MemorySlice::validate(&memory_slice) {
            Ok(()) => Ok(memory_slice),
            Err(e) => Err(e),
        }
    }

    /// The size rule of a slice read: the slice must not exceed the
    /// caller's limit. Returns the number of bytes to read.
    pub fn check_read_len(&self, max_len: usize) -> (r: Result<usize, MemorySliceError>)
        ensures
            r is Ok <==> self.len <= max_len,
            r matches Ok(l) ==> l == self.len,
            r matches Err(e) ==> e is ExceedMemorySliceSize,
    {
        if self.len as usize > max_len {
            Err(MemorySliceError::ExceedMemorySliceSize)
        } else {
            Ok(self.len as usize)
        }
    }

    /// The size rule of a slice write: the payload must fit in the slice.
    pub fn check_write_len(&self, data_len: usize) -> (r: Result<(), MemorySliceError>)
        ensures
            r is Ok <==> data_len <= self.len,
            r matches Err(e) ==> e is ExceedMemorySliceSize,
    {
        if data_len > self.len as usize {
            Err(MemorySliceError::ExceedMemorySliceSize)
        } else {
            Ok(())
        }
    }

    /// Read the memory slice out of a view of the guest memory: exactly
    /// `len` bytes starting at `ptr`, refused if the slice is larger than
    /// `max_len`.
    pub fn read(&self, memory: &[u8], max_len: usize) -> (r: Result<Vec<u8>, MemorySliceError>)
        ensures
            self.len > max_len ==> (r matches Err(e) && e is ExceedMemorySliceSize),
            self.len <= max_len && self.ptr + self.len > memory@.len() ==> (r matches Err(e)
                && e is ReadError),
            self.len <= max_len && self.ptr + self.len <= memory@.len() ==> (r matches Ok(data)
                && data@ == memory@.subrange(self.ptr as int, self.ptr + self.len)),
    {
        if self.len as usize > max_len {
            return Err(MemorySliceError::ExceedMemorySliceSize);
        }

        if memory.len() < self.len as usize || (self.ptr as usize) > memory.len() - self.len as usize {
            return Err(MemorySliceError::ReadError(String::from_str(
                "slice is out of the memory bounds",
            )));
        }

        let start = self.ptr as usize;
        let m_len = memory.len();
        let mut data: Vec<u8> = Vec::new();
        let mut i: usize = 0;
        while i < self.len as usize
            invariant
                i <= self.len,
                start == self.ptr,
                m_len == memory@.len(),
                start + self.len <= m_len,
                data@ == memory@.subrange(start as int, start + i),
            decreases self.len - i,
        {
            data.push(*vstd::slice::slice_index_get(memory, start + i));
            i += 1;
            proof {
                assert(data@ =~= memory@.subrange(start as int, start + i));
            }
        }
        Ok(data)
    }

    /// Write the given data into the memory slice in a view of the guest
    /// memory, refused if the data is larger than the slice.
    pub fn write(&self, memory: &mut Vec<u8>, data: &[u8]) -> (r: Result<(), MemorySliceError>)
        ensures
            data@.len() > self.len ==> (r matches Err(e) && e is ExceedMemorySliceSize)
                && *final(memory) == *old(memory),
            data@.len() <= self.len && self.ptr + data@.len() > old(memory)@.len() ==> (
                r matches Err(e) && e is WriteError) && *final(memory) == *old(memory),
            data@.len() <= self.len && self.ptr + data@.len() <= old(memory)@.len() ==> r is Ok
                && final(memory)@ == Seq::new(
                old(memory)@.len(),
                |i: int|
                    if self.ptr <= i < self.ptr + data@.len() {
                        data@[i - self.ptr]
                    } else {
                        old(memory)@[i]
                    },
            ),
    {
        if data.len() > self.len as usize {
            return Err(MemorySliceError::ExceedMemorySliceSize);
        }

        if memory.len() < data.len() || (self.ptr as usize) > memory.len() - data.len() {
            return Err(MemorySliceError::WriteError(String::from_str(
                "slice is out of the memory bounds",
            )));
        }

        let start = self.ptr as usize;
        let m_len = memory.len();
        let ghost orig = memory@;
        let mut i: usize = 0;
        while i < data.len()
            invariant
                i <= data@.len(),
                start == self.ptr,
                m_len == orig.len(),
                start + data@.len() <= m_len,
                memory@.len() == orig.len(),
                forall|j: int|
                    0 <= j < orig.len() ==> memory@[j] == if start <= j < start + i {
                        data@[j - start]
                    } else {
                        orig[j]
                    },
            decreases data@.len() - i,
        {
            let b = *vstd::slice::slice_index_get(data, i);
            memory.set(start + i, b);
            i += 1;
        }
        proof {
            assert(memory@ =~= Seq::new(
                orig.len(),
                |i: int|
                    if self.ptr <= i < self.ptr + data@.len() {
                        data@[i - self.ptr]
                    } else {
                        orig[i]
                    },
            ));
        }
        Ok(())
    }
}

} // verus!
