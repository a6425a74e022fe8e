use ramd_core::live_object_info::{CodecError, LiveObjectInfo};
use sha3::{Digest, Keccak256};

const EMPTY_KECCAK: &str = "c5d2460186f7233c927e7db2dcc703c0e500b653ca82273b7bfad8045d85a470";

#[test]
fn id_of_the_empty_module_is_the_known_digest() {
    let info = LiveObjectInfo::new(Vec::new());
    assert_eq!(info.id, EMPTY_KECCAK);
    assert_eq!(info.hash, hex::decode(EMPTY_KECCAK).unwrap());
    assert_eq!(info.wasm_bytes, Vec::<u8>::new());
}

#[test]
fn record_is_content_addressed() {
    let wasm = vec![0x00, 0x61, 0x73, 0x6d, 1, 0, 0, 0];
    let info = LiveObjectInfo::new(wasm.clone());
    assert_eq!(info.wasm_bytes, wasm);
    assert_eq!(info.hash, Keccak256::digest(&wasm).to_vec());
    assert_eq!(info.id, hex::encode(&info.hash));
    assert_eq!(info.id.len(), 64);
    assert_eq!(info.id_bytes(), info.id.as_bytes().to_vec());
}

#[test]
fn creation_is_stable_across_calls() {
    let wasm = b"some module bytes".to_vec();
    let a = LiveObjectInfo::new(wasm.clone());
    let b = LiveObjectInfo::new(wasm);
    assert_eq!(a.id, b.id);
    assert_eq!(a.hash, b.hash);
}

#[test]
fn record_round_trips_through_the_codec() {
    let info = LiveObjectInfo::new(b"module".to_vec());
    let bytes = info.to_bytes();
    let back = LiveObjectInfo::from_bytes(&bytes).unwrap();
    assert_eq!(back.id, info.id);
    assert_eq!(back.hash, info.hash);
    assert_eq!(back.wasm_bytes, info.wasm_bytes);
}

#[test]
fn empty_module_round_trips() {
    let info = LiveObjectInfo::new(Vec::new());
    let bytes = info.to_bytes();
    let back = LiveObjectInfo::from_bytes(&bytes).unwrap();
    assert_eq!(back.id, info.id);
    assert_eq!(back.hash, info.hash);
    assert_eq!(back.wasm_bytes, info.wasm_bytes);
}

#[test]
fn truncated_record_is_refused() {
    let mut bytes = LiveObjectInfo::new(b"module".to_vec()).to_bytes();
    bytes.pop();
    assert!(matches!(
        LiveObjectInfo::from_bytes(&bytes),
        Err(CodecError::Truncated)
    ));
    assert!(matches!(
        LiveObjectInfo::from_bytes(&Vec::new()),
        Err(CodecError::Truncated)
    ));
}

#[test]
fn trailing_bytes_are_refused() {
    let mut bytes = LiveObjectInfo::new(b"module".to_vec()).to_bytes();
    bytes.push(0);
    assert!(matches!(
        LiveObjectInfo::from_bytes(&bytes),
        Err(CodecError::TrailingBytes)
    ));
}

fn chunk(data: &[u8]) -> Vec<u8> {
    let mut out = (data.len() as u64).to_le_bytes().to_vec();
    out.extend_from_slice(data);
    out
}

#[test]
fn invalid_utf8_id_is_refused() {
    let mut bytes = chunk(&[0xff, 0xfe]);
    bytes.extend_from_slice(&chunk(&[1, 2, 3]));
    bytes.extend_from_slice(&chunk(b"wasm"));
    assert!(matches!(
        LiveObjectInfo::from_bytes(&bytes),
        Err(CodecError::InvalidUtf8)
    ));
}

#[test]
fn hand_framed_record_decodes() {
    let mut bytes = chunk(b"some-id");
    bytes.extend_from_slice(&chunk(&[9, 9]));
    bytes.extend_from_slice(&chunk(b"wasm"));
    let back = LiveObjectInfo::from_bytes(&bytes).unwrap();
    assert_eq!(back.id, "some-id");
    assert_eq!(back.hash, vec![9, 9]);
    assert_eq!(back.wasm_bytes, b"wasm".to_vec());
}
