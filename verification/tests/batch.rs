use ramd_core::cache::InMemoryCache;
use ramd_core::context::Context;
use ramd_core::imports;
use ramd_core::live_object_info::LiveObjectInfo;
use ramd_core::processor::{
    Action, BatchStep, CreateLiveObjectAction, ExecuteLiveObjectAction, Message, MessageBatch,
    Processor,
};
use ramd_core::storage::{InMemoryStorage, Storage, StorageError};

fn create_msg(wasm: &[u8]) -> Message {
    Message { action: Action::CreateLiveObject(CreateLiveObjectAction { wasm_bytes: wasm.to_vec() }) }
}

fn execute_msg(id: &str, method: &str, args: &[u8]) -> Message {
    Message {
        action: Action::ExecuteLiveObject(ExecuteLiveObjectAction {
            live_object_id: id.to_string(),
            method: method.to_string(),
            args: args.to_vec(),
        }),
    }
}

/// Drive a batch that needs no guest execution to its end.
fn drive(processor: &mut Processor<InMemoryStorage>, messages: Vec<Message>) -> String {
    let mut batch = MessageBatch::new(messages);
    let mut cache = InMemoryCache::new();
    loop {
        match batch.step(&mut cache, &mut processor.storage) {
            BatchStep::Continue => {},
            BatchStep::Done(result) => return result,
            BatchStep::Run(_) => panic!("batch unexpectedly needs a guest"),
        }
    }
}

#[test]
fn create_batch_commits_the_record() {
    let mut processor = Processor::new(InMemoryStorage::new());
    let wasm = b"module bytes".to_vec();
    let result = drive(&mut processor, vec![create_msg(&wasm)]);

    let expected = LiveObjectInfo::new(wasm.clone());
    assert_eq!(result, expected.id);

    let stored = processor.storage.get(&expected.id_bytes()).unwrap();
    let record = LiveObjectInfo::from_bytes(&stored).unwrap();
    assert_eq!(record.id, expected.id);
    assert_eq!(record.wasm_bytes, wasm);
}

#[test]
fn empty_batch_returns_an_empty_result() {
    let mut processor = Processor::new(InMemoryStorage::new());
    let result = drive(&mut processor, Vec::new());
    assert_eq!(result, "");
}

#[test]
fn batch_result_is_the_last_actions_result() {
    let mut processor = Processor::new(InMemoryStorage::new());
    let result = drive(
        &mut processor,
        vec![create_msg(b"first module"), create_msg(b"second module")],
    );
    assert_eq!(result, LiveObjectInfo::new(b"second module".to_vec()).id);
}

#[test]
fn creating_the_same_module_twice_is_harmless() {
    let mut processor = Processor::new(InMemoryStorage::new());
    let first = drive(&mut processor, vec![create_msg(b"module")]);
    let second = drive(&mut processor, vec![create_msg(b"module")]);
    assert_eq!(first, second);
}

#[test]
fn unknown_live_object_is_an_error_and_writes_nothing() {
    let mut processor = Processor::new(InMemoryStorage::new());
    let id = "00".repeat(32);
    let result = drive(&mut processor, vec![execute_msg(&id, "echo", b"hi")]);
    assert_eq!(result, "unknown live object");
    assert_eq!(processor.storage.has(&id.as_bytes().to_vec()), Ok(false));
}

#[test]
fn corrupt_stored_record_is_a_codec_error() {
    let mut processor = Processor::new(InMemoryStorage::new());
    let id = "ab".repeat(32);
    processor
        .storage
        .set(id.as_bytes().to_vec(), b"not a record".to_vec())
        .unwrap();
    let result = drive(&mut processor, vec![execute_msg(&id, "echo", b"")]);
    assert_eq!(result, "live object record is truncated");
}

#[test]
fn vm_result_becomes_the_batch_result() {
    let mut processor = Processor::new(InMemoryStorage::new());
    let id = drive(&mut processor, vec![create_msg(b"module")]);

    let mut batch = MessageBatch::new(vec![execute_msg(&id, "echo", b"hi")]);
    let mut cache = InMemoryCache::new();
    let step = batch.step(&mut cache, &mut processor.storage);
    let request = match step {
        BatchStep::Run(request) => request,
        _ => panic!("expected a run request"),
    };
    assert_eq!(request.method, "echo");
    assert_eq!(request.args, b"hi".to_vec());
    assert_eq!(request.info.id, id);
    assert_eq!(request.info.wasm_bytes, b"module".to_vec());

    batch.vm_completed(Ok("hello".to_string()));
    match batch.step(&mut cache, &mut processor.storage) {
        BatchStep::Done(result) => assert_eq!(result, "hello"),
        _ => panic!("expected the batch to finish"),
    }
}

#[test]
fn failed_batch_leaves_the_backing_store_untouched() {
    let mut processor = Processor::new(InMemoryStorage::new());
    let id = drive(&mut processor, vec![create_msg(b"module")]);
    let context = Context::new(id.clone());

    // Two execute messages: the first writes through the host imports and
    // succeeds, the second fails inside the guest. The batch must not
    // commit the first message's write.
    let mut batch = MessageBatch::new(vec![
        execute_msg(&id, "put", b""),
        execute_msg(&id, "boom", b""),
    ]);
    let mut cache = InMemoryCache::new();

    match batch.step(&mut cache, &mut processor.storage) {
        BatchStep::Run(request) => assert_eq!(request.method, "put"),
        _ => panic!("expected a run request"),
    }
    imports::storage_write(&context, &mut cache, b"k".to_vec(), b"v1".to_vec());
    batch.vm_completed(Ok(String::new()));

    match batch.step(&mut cache, &mut processor.storage) {
        BatchStep::Run(request) => assert_eq!(request.method, "boom"),
        _ => panic!("expected a run request"),
    }
    batch.vm_completed(Err("guest trapped: unreachable".to_string()));

    match batch.step(&mut cache, &mut processor.storage) {
        BatchStep::Done(result) => assert_eq!(result, "guest trapped: unreachable"),
        _ => panic!("expected the batch to finish"),
    }

    let mut prefixed = id.as_bytes().to_vec();
    prefixed.extend_from_slice(b"k");
    assert_eq!(processor.storage.has(&prefixed), Ok(false));
}

#[test]
fn committed_batch_applies_host_import_writes() {
    let mut processor = Processor::new(InMemoryStorage::new());
    let id = drive(&mut processor, vec![create_msg(b"module")]);
    let context = Context::new(id.clone());

    let mut batch = MessageBatch::new(vec![execute_msg(&id, "put", b"")]);
    let mut cache = InMemoryCache::new();
    match batch.step(&mut cache, &mut processor.storage) {
        BatchStep::Run(_) => {},
        _ => panic!("expected a run request"),
    }
    imports::storage_write(&context, &mut cache, b"k".to_vec(), b"v".to_vec());
    batch.vm_completed(Ok(String::new()));
    match batch.step(&mut cache, &mut processor.storage) {
        BatchStep::Done(result) => assert_eq!(result, ""),
        _ => panic!("expected the batch to finish"),
    }

    let mut prefixed = id.as_bytes().to_vec();
    prefixed.extend_from_slice(b"k");
    assert_eq!(processor.storage.get(&prefixed), Ok(b"v".to_vec()));
}

#[test]
fn host_imports_are_key_prefixed_and_isolated() {
    let storage = InMemoryStorage::new();
    let mut cache = InMemoryCache::new();
    let a = Context::new("aa".repeat(32));
    let b = Context::new("bb".repeat(32));

    imports::storage_write(&a, &mut cache, b"k".to_vec(), b"vA".to_vec());
    assert_eq!(imports::storage_has(&a, &mut cache, &storage, b"k".to_vec()), Ok(1));
    assert_eq!(imports::storage_has(&b, &mut cache, &storage, b"k".to_vec()), Ok(0));
    assert_eq!(
        imports::storage_read(&b, &mut cache, &storage, b"k".to_vec()),
        Err(StorageError::NotFound)
    );
    assert_eq!(
        imports::storage_read(&a, &mut cache, &storage, b"k".to_vec()),
        Ok(b"vA".to_vec())
    );

    imports::storage_delete(&a, &mut cache, b"k".to_vec());
    assert_eq!(imports::storage_has(&a, &mut cache, &storage, b"k".to_vec()), Ok(0));
}
