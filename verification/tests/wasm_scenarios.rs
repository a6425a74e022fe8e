//! End-to-end scenarios against a real WASM engine: guest modules are
//! compiled and run, and their storage imports go through the library's
//! verified overlay, prefixing and descriptor checks.

use std::sync::{Arc, Mutex};

use wasmi::{Caller, Engine, Extern, Linker, Memory, Module, Store, Value};

type Trap = wasmi::core::Trap;

use ramd_core::cache::InMemoryCache;
use ramd_core::constants::MAX_WASM_MEMORY_SIZE;
use ramd_core::context::Context;
use ramd_core::imports;
use ramd_core::live_object_info::LiveObjectInfo;
use ramd_core::memory::MemorySlice;
use ramd_core::processor::{
    Action, BatchStep, CreateLiveObjectAction, ExecRequest, ExecuteLiveObjectAction, Message,
    MessageBatch,
};
use ramd_core::runtime::{decode_result, expect_result_ptr};
use ramd_core::storage::{InMemoryStorage, Storage};

const ALLOCATOR: &str = r#"
  (global $next (mut i32) (i32.const 1024))
  (func $alloc (export "allocate") (param $len i32) (result i32)
    (local $desc i32)
    (local $ptr i32)
    global.get $next
    local.set $desc
    local.get $desc
    i32.const 8
    i32.add
    local.set $ptr
    local.get $desc
    local.get $ptr
    i32.store
    local.get $desc
    i32.const 4
    i32.add
    local.get $len
    i32.store
    local.get $ptr
    local.get $len
    i32.add
    global.set $next
    local.get $desc)
  (func (export "deallocate") (param $ptr i32))
"#;

fn echo_wasm() -> Vec<u8> {
    wat::parse_str(format!(
        r#"(module
  (memory (export "memory") 1)
{ALLOCATOR}
  (func (export "echo") (param $args i32) (result i32)
    local.get $args))"#
    ))
    .unwrap()
}

/// A module whose `put` writes ("k", "v") through the host and whose `get`
/// reads "k" back; `boom` traps. The `tag` only changes the module bytes,
/// and with them the module's identity.
fn store_wasm(tag: &str) -> Vec<u8> {
    wat::parse_str(format!(
        r#"(module
  (import "env" "storage_write" (func $storage_write (param i32 i32)))
  (import "env" "storage_read" (func $storage_read (param i32) (result i32)))
  (memory (export "memory") 1)
  (data (i32.const 16) "\64\00\00\00\01\00\00\00")
  (data (i32.const 32) "\68\00\00\00\01\00\00\00")
  (data (i32.const 100) "k")
  (data (i32.const 104) "v")
  (data (i32.const 200) "{tag}")
{ALLOCATOR}
  (func (export "put") (param $args i32) (result i32)
    i32.const 16
    i32.const 32
    call $storage_write
    i32.const 0
    call $alloc)
  (func (export "get") (param $args i32) (result i32)
    i32.const 16
    call $storage_read)
  (func (export "boom") (param $args i32) (result i32)
    unreachable)
  (func (export "noret") (param $args i32)))"#
    ))
    .unwrap()
}

/// A malicious module: its key descriptor has a null pointer.
fn nullwrite_wasm() -> Vec<u8> {
    wat::parse_str(format!(
        r#"(module
  (import "env" "storage_write" (func $storage_write (param i32 i32)))
  (memory (export "memory") 1)
  (data (i32.const 16) "\00\00\00\00\01\00\00\00")
  (data (i32.const 32) "\68\00\00\00\01\00\00\00")
  (data (i32.const 104) "v")
{ALLOCATOR}
  (func (export "bad") (param $args i32) (result i32)
    i32.const 16
    i32.const 32
    call $storage_write
    i32.const 0
    call $alloc))"#
    ))
    .unwrap()
}

type Shared = Arc<Mutex<(InMemoryCache, InMemoryStorage)>>;

/// The state the host imports of one instance work on.
struct HostState {
    shared: Shared,
    context: Context,
}

fn guest_memory(caller: &Caller<'_, HostState>) -> Result<Memory, Trap> {
    match caller.get_export("memory") {
        Some(Extern::Memory(m)) => Ok(m),
        _ => Err(Trap::new("missing export: memory")),
    }
}

fn guest_bytes(caller: &Caller<'_, HostState>, desc_addr: u32) -> Result<Vec<u8>, Trap> {
    let memory = guest_memory(caller)?;
    let mut desc = [0u8; 8];
    memory
        .read(caller, desc_addr as usize, &mut desc)
        .map_err(|e| Trap::new(e.to_string()))?;
    let slice = MemorySlice::new(desc).map_err(|e| Trap::new(e.describe()))?;
    let len = slice
        .check_read_len(MAX_WASM_MEMORY_SIZE)
        .map_err(|e| Trap::new(e.describe()))?;
    let mut buf = vec![0u8; len];
    memory
        .read(caller, slice.ptr as usize, &mut buf)
        .map_err(|e| Trap::new(e.to_string()))?;
    Ok(buf)
}

fn host_storage_has(caller: Caller<'_, HostState>, key_ptr: i32) -> Result<i32, Trap> {
    let key = guest_bytes(&caller, key_ptr as u32)?;
    let data = caller.data();
    let mut guard = data.shared.lock().unwrap();
    let (cache, storage) = &mut *guard;
    imports::storage_has(&data.context, cache, storage, key)
        .map(|found| found as i32)
        .map_err(|e| Trap::new(e.describe()))
}

fn host_storage_read(mut caller: Caller<'_, HostState>, key_ptr: i32) -> Result<i32, Trap> {
    let key = guest_bytes(&caller, key_ptr as u32)?;
    let value = {
        let data = caller.data();
        let mut guard = data.shared.lock().unwrap();
        let (cache, storage) = &mut *guard;
        imports::storage_read(&data.context, cache, storage, key)
            .map_err(|e| Trap::new(e.describe()))?
    };
    let allocate = match caller.get_export("allocate") {
        Some(Extern::Func(f)) => f,
        _ => return Err(Trap::new("missing export: allocate")),
    };
    let mut results = [Value::I32(0)];
    allocate
        .call(&mut caller, &[Value::I32(value.len() as i32)], &mut results)
        .map_err(|e| Trap::new(e.to_string()))?;
    let desc_addr = match results[0] {
        Value::I32(v) => v as u32,
        _ => return Err(Trap::new("allocate returned no descriptor")),
    };
    let memory = guest_memory(&caller)?;
    let mut desc = [0u8; 8];
    memory
        .read(&caller, desc_addr as usize, &mut desc)
        .map_err(|e| Trap::new(e.to_string()))?;
    let slice = MemorySlice::new(desc).map_err(|e| Trap::new(e.describe()))?;
    slice
        .check_write_len(value.len())
        .map_err(|e| Trap::new(e.describe()))?;
    memory
        .write(&mut caller, slice.ptr as usize, &value)
        .map_err(|e| Trap::new(e.to_string()))?;
    Ok(desc_addr as i32)
}

fn host_storage_write(
    caller: Caller<'_, HostState>,
    key_ptr: i32,
    value_ptr: i32,
) -> Result<(), Trap> {
    let key = guest_bytes(&caller, key_ptr as u32)?;
    let value = guest_bytes(&caller, value_ptr as u32)?;
    let data = caller.data();
    let mut guard = data.shared.lock().unwrap();
    let (cache, _) = &mut *guard;
    imports::storage_write(&data.context, cache, key, value);
    Ok(())
}

fn host_storage_delete(caller: Caller<'_, HostState>, key_ptr: i32) -> Result<(), Trap> {
    let key = guest_bytes(&caller, key_ptr as u32)?;
    let data = caller.data();
    let mut guard = data.shared.lock().unwrap();
    let (cache, _) = &mut *guard;
    imports::storage_delete(&data.context, cache, key);
    Ok(())
}

fn call_export(
    store: &mut Store<HostState>,
    instance: &wasmi::Instance,
    name: &str,
    args: &[Value],
) -> Result<Option<u32>, String> {
    let func = instance
        .get_func(&mut *store, name)
        .ok_or_else(|| format!("missing export: {name}"))?;
    let arity = func.ty(&mut *store).results().len();
    let mut results = vec![Value::I32(0); arity];
    func.call(&mut *store, args, &mut results)
        .map_err(|e| format!("guest trapped: {e}"))?;
    match results.first() {
        None => Ok(None),
        Some(Value::I32(v)) => Ok(Some(*v as u32)),
        Some(_) => Err(format!("export has an unexpected signature: {name}")),
    }
}

/// Compile, instantiate and run one method of a live object, with the
/// storage imports wired to the shared overlay.
fn run_wasm(shared: &Shared, request: &ExecRequest) -> Result<String, String> {
    let engine = Engine::default();
    let module = Module::new(&engine, &request.info.wasm_bytes[..])
        .map_err(|e| format!("failed to compile module: {e}"))?;
    let state = HostState { shared: shared.clone(), context: Context::new(request.info.id.clone()) };
    let mut store: Store<HostState> = Store::new(&engine, state);
    let mut linker: Linker<HostState> = Linker::new(&engine);
    linker
        .func_wrap("env", "storage_has", host_storage_has)
        .and_then(|l| l.func_wrap("env", "storage_read", host_storage_read))
        .and_then(|l| l.func_wrap("env", "storage_write", host_storage_write))
        .and_then(|l| l.func_wrap("env", "storage_delete", host_storage_delete))
        .map_err(|e| format!("failed to instantiate module: {e}"))?;
    let instance = linker
        .instantiate(&mut store, &module)
        .and_then(|pre| pre.start(&mut store))
        .map_err(|e| format!("failed to instantiate module: {e}"))?;
    instance
        .get_memory(&store, "memory")
        .ok_or_else(|| "missing export: memory".to_string())?;

    // Allocate and fill the argument slice.
    let args_desc = call_export(
        &mut store,
        &instance,
        "allocate",
        &[Value::I32(request.args.len() as i32)],
    )?;
    let args_desc = expect_result_ptr(args_desc).map_err(|e| e.describe())?;
    let memory = instance.get_memory(&store, "memory").unwrap();
    {
        let mut desc = [0u8; 8];
        memory
            .read(&store, args_desc as usize, &mut desc)
            .map_err(|e| e.to_string())?;
        let slice = MemorySlice::new(desc).map_err(|e| e.describe())?;
        slice
            .check_write_len(request.args.len())
            .map_err(|e| e.describe())?;
        memory
            .write(&mut store, slice.ptr as usize, &request.args)
            .map_err(|e| e.to_string())?;
    }

    // Call the method and read its result slice.
    let result_desc = call_export(
        &mut store,
        &instance,
        request.method.as_str(),
        &[Value::I32(args_desc as i32)],
    )?;
    let result_desc = expect_result_ptr(result_desc).map_err(|e| e.describe())?;
    let result_bytes = {
        let mut desc = [0u8; 8];
        memory
            .read(&store, result_desc as usize, &mut desc)
            .map_err(|e| e.to_string())?;
        let slice = MemorySlice::new(desc).map_err(|e| e.describe())?;
        let len = slice
            .check_read_len(MAX_WASM_MEMORY_SIZE)
            .map_err(|e| e.describe())?;
        let mut buf = vec![0u8; len];
        memory
            .read(&store, slice.ptr as usize, &mut buf)
            .map_err(|e| e.to_string())?;
        buf
    };
    let result = decode_result(result_bytes).map_err(|e| e.describe())?;
    call_export(
        &mut store,
        &instance,
        "deallocate",
        &[Value::I32(result_desc as i32)],
    )?;
    Ok(result)
}

/// Drive one message batch to completion over a fresh overlay.
fn run_batch(shared: &Shared, messages: Vec<Message>) -> String {
    shared.lock().unwrap().0 = InMemoryCache::new();
    let mut batch = MessageBatch::new(messages);
    loop {
        let step = {
            let mut guard = shared.lock().unwrap();
            let (cache, storage) = &mut *guard;
            batch.step(cache, storage)
        };
        match step {
            BatchStep::Continue => {},
            BatchStep::Done(result) => return result,
            BatchStep::Run(request) => {
                let outcome = run_wasm(shared, &request);
                batch.vm_completed(outcome);
            },
        }
    }
}

fn new_shared() -> Shared {
    Arc::new(Mutex::new((InMemoryCache::new(), InMemoryStorage::new())))
}

fn create_msg(wasm: &[u8]) -> Message {
    Message { action: Action::CreateLiveObject(CreateLiveObjectAction { wasm_bytes: wasm.to_vec() }) }
}

fn execute_msg(id: &str, method: &str, args: &[u8]) -> Message {
    Message {
        action: Action::ExecuteLiveObject(ExecuteLiveObjectAction {
            live_object_id: id.to_string(),
            method: method.to_string(),
            args: args.to_vec(),
        }),
    }
}

fn storage_has(shared: &Shared, key: &[u8]) -> bool {
    let guard = shared.lock().unwrap();
    guard.1.has(&key.to_vec()).unwrap()
}

fn prefixed(id: &str, key: &[u8]) -> Vec<u8> {
    let mut k = id.as_bytes().to_vec();
    k.extend_from_slice(key);
    k
}

#[test]
fn create_then_execute_echo() {
    let shared = new_shared();
    let wasm = echo_wasm();
    let id = LiveObjectInfo::new(wasm.clone()).id;

    let created = run_batch(&shared, vec![create_msg(&wasm)]);
    assert_eq!(created, id);

    let result = run_batch(&shared, vec![execute_msg(&id, "echo", b"hello")]);
    assert_eq!(result, "hello");

    assert!(storage_has(&shared, id.as_bytes()));
    assert!(!storage_has(&shared, &prefixed(&id, b"k")));
}

#[test]
fn persist_and_read_across_batches() {
    let shared = new_shared();
    let wasm = store_wasm("a");
    let id = LiveObjectInfo::new(wasm.clone()).id;

    let first = run_batch(
        &shared,
        vec![create_msg(&wasm), execute_msg(&id, "put", b"")],
    );
    assert_eq!(first, "");

    let second = run_batch(&shared, vec![execute_msg(&id, "get", b"")]);
    assert_eq!(second, "v");

    let guard = shared.lock().unwrap();
    assert_eq!(guard.1.get(&prefixed(&id, b"k")), Ok(b"v".to_vec()));
}

#[test]
fn batch_aborts_atomically_on_a_trap() {
    let shared = new_shared();
    let wasm = store_wasm("a");
    let id = LiveObjectInfo::new(wasm.clone()).id;
    run_batch(&shared, vec![create_msg(&wasm)]);

    let result = run_batch(
        &shared,
        vec![execute_msg(&id, "put", b""), execute_msg(&id, "boom", b"")],
    );
    assert!(result.contains("guest trapped"), "unexpected result: {result}");

    assert!(!storage_has(&shared, &prefixed(&id, b"k")));
}

#[test]
fn live_objects_have_isolated_keyspaces() {
    let shared = new_shared();
    let wasm_a = store_wasm("a");
    let wasm_b = store_wasm("b");
    let id_a = LiveObjectInfo::new(wasm_a.clone()).id;
    let id_b = LiveObjectInfo::new(wasm_b.clone()).id;
    assert_ne!(id_a, id_b);

    run_batch(&shared, vec![create_msg(&wasm_a), create_msg(&wasm_b)]);
    assert_eq!(run_batch(&shared, vec![execute_msg(&id_a, "put", b"")]), "");

    let result = run_batch(&shared, vec![execute_msg(&id_b, "get", b"")]);
    assert!(result.contains("not found"), "unexpected result: {result}");

    assert!(storage_has(&shared, &prefixed(&id_a, b"k")));
    assert!(!storage_has(&shared, &prefixed(&id_b, b"k")));
}

#[test]
fn a_missing_method_fails_the_batch() {
    let shared = new_shared();
    let wasm = store_wasm("a");
    let id = LiveObjectInfo::new(wasm.clone()).id;
    run_batch(&shared, vec![create_msg(&wasm)]);

    let result = run_batch(&shared, vec![execute_msg(&id, "nosuch", b"")]);
    assert_eq!(result, "missing export: nosuch");
}

#[test]
fn a_method_returning_nothing_fails_the_batch() {
    let shared = new_shared();
    let wasm = store_wasm("a");
    let id = LiveObjectInfo::new(wasm.clone()).id;
    run_batch(&shared, vec![create_msg(&wasm)]);

    let result = run_batch(&shared, vec![execute_msg(&id, "noret", b"")]);
    assert_eq!(result, "method returned no value");
}

#[test]
fn executing_an_unknown_live_object_fails() {
    let shared = new_shared();
    let id = "00".repeat(32);
    let result = run_batch(&shared, vec![execute_msg(&id, "echo", b"")]);
    assert_eq!(result, "unknown live object");
    assert!(!storage_has(&shared, id.as_bytes()));
}

#[test]
fn null_pointer_descriptor_traps_and_aborts() {
    let shared = new_shared();
    let wasm = nullwrite_wasm();
    let id = LiveObjectInfo::new(wasm.clone()).id;
    run_batch(&shared, vec![create_msg(&wasm)]);

    let result = run_batch(&shared, vec![execute_msg(&id, "bad", b"")]);
    assert!(result.contains("guest trapped"), "unexpected result: {result}");
    assert!(result.contains("null"), "unexpected result: {result}");

    assert!(!storage_has(&shared, &prefixed(&id, b"k")));
}
