use ramd_core::constants::MAX_WASM_MEMORY_SIZE;
use ramd_core::memory::{MemorySlice, MemorySliceError};

#[test]
fn decodes_little_endian_descriptor() {
    let s = MemorySlice::from_memory_slice_ptr_bytes([0x10, 0, 0, 0, 3, 0, 0, 0]);
    assert_eq!(s.ptr, 16);
    assert_eq!(s.len, 3);

    let s = MemorySlice::from_memory_slice_ptr_bytes([0x01, 0x02, 0x03, 0x04, 0xff, 0, 0, 0x80]);
    assert_eq!(s.ptr, 0x04030201);
    assert_eq!(s.len, 0x800000ff);
}

#[test]
fn null_pointer_is_refused() {
    let s = MemorySlice { ptr: 0, len: 1 };
    assert_eq!(MemorySlice::validate(&s), Err(MemorySliceError::NullPointer));
    assert_eq!(
        MemorySlice::new([0, 0, 0, 0, 1, 0, 0, 0]),
        Err(MemorySliceError::NullPointer)
    );
}

#[test]
fn descriptor_past_ceiling_is_refused() {
    let max = MAX_WASM_MEMORY_SIZE as u64;
    let s = MemorySlice { ptr: (max - 1) as u32, len: 2 };
    assert_eq!(
        MemorySlice::validate(&s),
        Err(MemorySliceError::ExceedMaxWASMMemorySize)
    );
    let s = MemorySlice { ptr: (max - 1) as u32, len: 1 };
    assert_eq!(MemorySlice::validate(&s), Ok(()));
}

#[test]
fn new_composes_decode_and_validate() {
    let s = MemorySlice::new([8, 0, 0, 0, 4, 0, 0, 0]).unwrap();
    assert_eq!((s.ptr, s.len), (8, 4));
}

#[test]
fn read_copies_exact_slice() {
    let memory: Vec<u8> = vec![9, 8, 7, 6, 5, 4, 3, 2];
    let s = MemorySlice { ptr: 2, len: 3 };
    assert_eq!(s.read(&memory, MAX_WASM_MEMORY_SIZE), Ok(vec![7, 6, 5]));
}

#[test]
fn read_refuses_slice_longer_than_limit() {
    let memory: Vec<u8> = vec![0; 16];
    let s = MemorySlice { ptr: 2, len: 3 };
    assert_eq!(s.read(&memory, 2), Err(MemorySliceError::ExceedMemorySliceSize));
}

#[test]
fn read_outside_memory_is_a_read_error() {
    let memory: Vec<u8> = vec![0; 4];
    let s = MemorySlice { ptr: 2, len: 3 };
    assert!(matches!(
        s.read(&memory, MAX_WASM_MEMORY_SIZE),
        Err(MemorySliceError::ReadError(_))
    ));
}

#[test]
fn write_copies_and_preserves_the_rest() {
    let mut memory: Vec<u8> = vec![0; 8];
    let s = MemorySlice { ptr: 3, len: 4 };
    s.write(&mut memory, &[1, 2, 3]).unwrap();
    assert_eq!(memory, vec![0, 0, 0, 1, 2, 3, 0, 0]);
}

#[test]
fn write_refuses_oversized_payload() {
    let mut memory: Vec<u8> = vec![0; 8];
    let s = MemorySlice { ptr: 3, len: 2 };
    assert_eq!(
        s.write(&mut memory, &[1, 2, 3]),
        Err(MemorySliceError::ExceedMemorySliceSize)
    );
    assert_eq!(memory, vec![0; 8]);
}

#[test]
fn write_outside_memory_is_a_write_error() {
    let mut memory: Vec<u8> = vec![0; 4];
    let s = MemorySlice { ptr: 3, len: 4 };
    assert!(matches!(
        s.write(&mut memory, &[1, 2]),
        Err(MemorySliceError::WriteError(_))
    ));
}

#[test]
fn check_read_and_write_lengths() {
    let s = MemorySlice { ptr: 8, len: 4 };
    assert_eq!(s.check_read_len(4), Ok(4));
    assert_eq!(
        s.check_read_len(3),
        Err(MemorySliceError::ExceedMemorySliceSize)
    );
    assert_eq!(s.check_write_len(4), Ok(()));
    assert_eq!(
        s.check_write_len(5),
        Err(MemorySliceError::ExceedMemorySliceSize)
    );
}
