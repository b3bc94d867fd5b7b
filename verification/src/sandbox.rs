//! The sandbox that runs an isolated engine module. Everything in this file
//! that touches the sandbox is taken on trust: the contracts state what the
//! sandbox's documentation and source say, and nothing here is proved. A call
//! into a module that never returns stalls the caller; no contract excludes
//! that.

use vstd::prelude::*;
use crate::native_backend::overwritten;
use wasmtime::{Config, Engine, Instance, Linker, Module, Store};

verus! {

/// `wasmtime::Store`: everything that the sandbox holds for its instances,
/// their memories among it. Nothing inside it is visible here.
#[verifier::external_type_specification]
#[verifier::external_body]
#[verifier::reject_recursive_types(T)]
pub struct ExStore<T: 'static>(Store<T>);

/// `wasmtime::Instance`: a handle to an instantiated module. Nothing inside it
/// is visible here.
#[verifier::external_type_specification]
#[verifier::external_body]
pub struct ExInstance(Instance);

/// Whether `instance` lives in `store`. The sandbox panics when an instance is
/// used with a store that does not own it.
pub uninterp spec fn store_owns(store: Store<()>, instance: Instance) -> bool;

/// The bytes of the linear memory that `instance` exports under the name
/// `memory`, or `None` where it exports no such memory.
pub uninterp spec fn exported_memory(store: Store<()>, instance: Instance) -> Option<Seq<u8>>;

/// Whether `instance` exports a function under `name` that takes `params`
/// 32-bit integers and returns `results` of them. What an instance exports is
/// settled when it is instantiated.
pub uninterp spec fn exports_function(
    instance: Instance,
    name: Seq<char>,
    params: nat,
    results: nat,
) -> bool;

/// Why a raw access to the sandbox's memory failed.
#[derive(Clone, Copy, Debug, PartialEq, Eq, Structural)]
pub enum MemoryFault {
    /// The module exports no memory named `memory`.
    NoMemory,
    /// The range reaches beyond the memory's current size.
    OutOfBounds,
}

/// Why a call into the sandbox failed.
#[derive(Debug)]
pub enum CallFault {
    /// No function of that name and signature is exported.
    Missing,
    /// The call trapped; the text is the sandbox's account.
    Trapped(String),
}

/// Compiles `bytes` (a binary module, or its text form) with
/// `wasmtime::Module::new` on a fresh `wasmtime::Engine` that admits several
/// memories and reserves no address space beyond what a memory holds, and
/// instantiates it without imports through `wasmtime::Linker::instantiate` in
/// a fresh `wasmtime::Store`. The three memory settings are there because the
/// sandbox otherwise reserves several gigabytes of address space for each
/// memory, which a host with a limit on its address space refuses; with them
/// the sandbox checks each access of the module against the memory's length
/// instead. Claimed: the instance that comes back lives in
/// the store that comes back. On failure the text is the sandbox's account of
/// it.
#[verifier::external_body]
pub(crate) fn instantiate(bytes: &[u8]) -> (r: Result<(Store<()>, Instance), String>)
    ensures
        r matches Ok(pair) ==> store_owns(pair.0, pair.1),
{
    let mut config = Config::new();
    config.wasm_multi_memory(true).memory_reservation(0).memory_guard_size(0);
    config.memory_reservation_for_growth(0);
    let engine = Engine::new(&config).map_err(|e| e.to_string())?;
    let module = Module::new(&engine, bytes).map_err(|e| e.to_string())?;
    let mut store = Store::new(&engine, ());
    let instance = Linker::new(&engine).instantiate(&mut store, &module).map_err(
        |e| e.to_string(),
    )?;
    Ok((store, instance))
}

/// `wasmtime::Memory::data_size` of the memory that
/// `wasmtime::Instance::get_memory` finds under the name `memory`. Claimed: the
/// result is the length of that memory, or `None` where there is none, and the
/// memory is left as it was.
#[verifier::external_body]
pub(crate) fn memory_size(store: &mut Store<()>, instance: &Instance) -> (r: Option<usize>)
    requires
        store_owns(*old(store), *instance),
    ensures
        store_owns(*final(store), *instance),
        exported_memory(*final(store), *instance) == exported_memory(*old(store), *instance),
        r == match exported_memory(*old(store), *instance) {
            Some(bytes) => Some(bytes.len() as usize),
            None => None,
        },
{
    let memory = instance.get_memory(&mut *store, "memory")?;
    Some(memory.data_size(&*store))
}

/// `wasmtime::Memory::write` on the memory exported as `memory`. Claimed, as
/// its documentation has it: where the range fits the memory's current size
/// the bytes of `data` replace those at `offset` and nothing else changes;
/// where it does not, nothing is written and the access is refused.
#[verifier::external_body]
pub(crate) fn memory_write(
    store: &mut Store<()>,
    instance: &Instance,
    offset: usize,
    data: &[u8],
) -> (r: Result<(), MemoryFault>)
    requires
        store_owns(*old(store), *instance),
    ensures
        store_owns(*final(store), *instance),
        match exported_memory(*old(store), *instance) {
            Some(bytes) => if offset + data@.len() <= bytes.len() {
                r == Ok::<(), MemoryFault>(()) && exported_memory(*final(store), *instance)
                    == Some(overwritten(bytes, offset as int, data@))
            } else {
                r == Err::<(), MemoryFault>(MemoryFault::OutOfBounds) && exported_memory(
                    *final(store),
                    *instance,
                ) == Some(bytes)
            },
            None => r == Err::<(), MemoryFault>(MemoryFault::NoMemory) && exported_memory(
                *final(store),
                *instance,
            ).is_none(),
        },
{
    let memory = instance.get_memory(&mut *store, "memory").ok_or(MemoryFault::NoMemory)?;
    memory.write(&mut *store, offset, data).map_err(|_| MemoryFault::OutOfBounds)
}

/// `wasmtime::Memory::read` on the memory exported as `memory`, into a fresh
/// buffer of `len` bytes. Claimed, as its documentation has it: where the
/// range fits the memory's current size the result holds the bytes at
/// `offset`; where it does not, the access is refused. The memory is left as
/// it was.
#[verifier::external_body]
pub(crate) fn memory_read(store: &mut Store<()>, instance: &Instance, offset: usize, len: usize) -> (r:
    Result<Vec<u8>, MemoryFault>)
    requires
        store_owns(*old(store), *instance),
        len <= i32::MAX,
    ensures
        store_owns(*final(store), *instance),
        exported_memory(*final(store), *instance) == exported_memory(*old(store), *instance),
        match exported_memory(*old(store), *instance) {
            Some(bytes) => if offset + len <= bytes.len() {
                r matches Ok(found) && found@ == bytes.subrange(offset as int, offset + len)
            } else {
                r matches Err(fault) && fault == MemoryFault::OutOfBounds
            },
            None => r matches Err(fault) && fault == MemoryFault::NoMemory,
        },
{
    let memory = instance.get_memory(&mut *store, "memory").ok_or(MemoryFault::NoMemory)?;
    let mut buffer = vec![0u8; len];
    memory.read(&*store, offset, &mut buffer).map_err(|_| MemoryFault::OutOfBounds)?;
    Ok(buffer)
}

/// Whether `wasmtime::Instance::get_typed_func` finds a function `name` that
/// takes nothing and returns a 32-bit integer. Claimed: it finds one exactly
/// where the instance exports one; the lookup fails for no other reason.
#[verifier::external_body]
pub(crate) fn exports_query(store: &mut Store<()>, instance: &Instance, name: &str) -> (found: bool)
    requires
        store_owns(*old(store), *instance),
    ensures
        store_owns(*final(store), *instance),
        found == exports_function(*instance, name@, 0, 1),
{
    instance.get_typed_func::<(), i32>(&mut *store, name).is_ok()
}

/// Whether `wasmtime::Instance::get_typed_func` finds a function `name` that
/// takes a 32-bit integer and returns nothing. Claimed: it finds one exactly
/// where the instance exports one.
#[verifier::external_body]
pub(crate) fn exports_command(store: &mut Store<()>, instance: &Instance, name: &str) -> (found:
    bool)
    requires
        store_owns(*old(store), *instance),
    ensures
        store_owns(*final(store), *instance),
        found == exports_function(*instance, name@, 1, 0),
{
    instance.get_typed_func::<i32, ()>(&mut *store, name).is_ok()
}

/// Whether `wasmtime::Instance::get_typed_func` finds a function `name` that
/// takes a 32-bit integer and returns one. Claimed: it finds one exactly where
/// the instance exports one.
#[verifier::external_body]
pub(crate) fn exports_map(store: &mut Store<()>, instance: &Instance, name: &str) -> (found: bool)
    requires
        store_owns(*old(store), *instance),
    ensures
        store_owns(*final(store), *instance),
        found == exports_function(*instance, name@, 1, 1),
{
    instance.get_typed_func::<i32, i32>(&mut *store, name).is_ok()
}

/// Whether `wasmtime::Instance::get_typed_func` finds a function `name` that
/// takes four 32-bit integers and returns nothing. Claimed: it finds one
/// exactly where the instance exports one.
#[verifier::external_body]
pub(crate) fn exports_store(store: &mut Store<()>, instance: &Instance, name: &str) -> (found: bool)
    requires
        store_owns(*old(store), *instance),
    ensures
        store_owns(*final(store), *instance),
        found == exports_function(*instance, name@, 4, 0),
{
    instance.get_typed_func::<(i32, i32, i32, i32), ()>(&mut *store, name).is_ok()
}

/// `wasmtime::TypedFunc::call` on the exported function `name` that takes
/// nothing and returns a 32-bit integer. Claimed: the function is reported
/// missing exactly where the instance does not export it. Nothing is claimed
/// of what the module returns or does to its memory.
#[verifier::external_body]
pub(crate) fn call_query(store: &mut Store<()>, instance: &Instance, name: &str) -> (r: Result<
    i32,
    CallFault,
>)
    requires
        store_owns(*old(store), *instance),
    ensures
        store_owns(*final(store), *instance),
        (r matches Err(fault) && fault is Missing) == !exports_function(
            *instance,
            name@,
            0,
            1,
        ),
{
    match instance.get_typed_func::<(), i32>(&mut *store, name) {
        Ok(func) => func.call(&mut *store, ()).map_err(|e| CallFault::Trapped(e.to_string())),
        Err(_) => Err(CallFault::Missing),
    }
}

/// `wasmtime::TypedFunc::call` on the exported function `name` that takes a
/// 32-bit integer and returns nothing. Claimed: the function is reported
/// missing exactly where the instance does not export it. Nothing is claimed
/// of what the module does.
#[verifier::external_body]
pub(crate) fn call_command(store: &mut Store<()>, instance: &Instance, name: &str, arg: i32) -> (r:
    Result<(), CallFault>)
    requires
        store_owns(*old(store), *instance),
    ensures
        store_owns(*final(store), *instance),
        (r matches Err(fault) && fault is Missing) == !exports_function(
            *instance,
            name@,
            1,
            0,
        ),
{
    match instance.get_typed_func::<i32, ()>(&mut *store, name) {
        Ok(func) => func.call(&mut *store, arg).map_err(|e| CallFault::Trapped(e.to_string())),
        Err(_) => Err(CallFault::Missing),
    }
}

/// `wasmtime::TypedFunc::call` on the exported function `name` that takes a
/// 32-bit integer and returns one. Claimed: the function is reported missing
/// exactly where the instance does not export it. Nothing is claimed of what
/// the module returns or does.
#[verifier::external_body]
pub(crate) fn call_map(store: &mut Store<()>, instance: &Instance, name: &str, arg: i32) -> (r:
    Result<i32, CallFault>)
    requires
        store_owns(*old(store), *instance),
    ensures
        store_owns(*final(store), *instance),
        (r matches Err(fault) && fault is Missing) == !exports_function(
            *instance,
            name@,
            1,
            1,
        ),
{
    match instance.get_typed_func::<i32, i32>(&mut *store, name) {
        Ok(func) => func.call(&mut *store, arg).map_err(|e| CallFault::Trapped(e.to_string())),
        Err(_) => Err(CallFault::Missing),
    }
}

/// `wasmtime::TypedFunc::call` on the exported function `name` that takes
/// four 32-bit integers and returns nothing. Claimed: the function is
/// reported missing exactly where the instance does not export it. Nothing is
/// claimed of what the module does.
#[verifier::external_body]
pub(crate) fn call_store(
    store: &mut Store<()>,
    instance: &Instance,
    name: &str,
    index: i32,
    x: i32,
    y: i32,
    z: i32,
) -> (r: Result<(), CallFault>)
    requires
        store_owns(*old(store), *instance),
    ensures
        store_owns(*final(store), *instance),
        (r matches Err(fault) && fault is Missing) == !exports_function(
            *instance,
            name@,
            4,
            0,
        ),
{
    match instance.get_typed_func::<(i32, i32, i32, i32), ()>(&mut *store, name) {
        Ok(func) => func.call(&mut *store, (index, x, y, z)).map_err(
            |e| CallFault::Trapped(e.to_string()),
        ),
        Err(_) => Err(CallFault::Missing),
    }
}

} // verus!
