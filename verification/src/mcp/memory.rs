//! The memory store that once lived inside the assistant. It is kept so that
//! older callers still build, and it holds nothing: memories now live in the
//! memory servers.

use vstd::prelude::*;
use std::sync::{Arc, Mutex};

verus! {

/// `std::sync::Mutex`, carried through opaquely.
#[verifier::external_type_specification]
#[verifier::external_body]
#[verifier::reject_recursive_types(T)]
pub struct ExMutex<T: ?Sized>(Mutex<T>);

/// `Mutex::new`: a lock around `t`. Nothing about the lock is promised.
#[verifier::external_body]
fn new_mutex<T>(t: T) -> (m: Mutex<T>) {
    Mutex::new(t)
}

/// A memory of the former in-process store. It has no contents.
pub struct Memory;

/// The former in-process store. It stores nothing.
pub struct MemoryStore;

impl MemoryStore {
    /// A store.
    pub fn new() -> (s: Self) {
        MemoryStore
    }

    /// Accepts a memory and keeps nothing of it.
    pub fn add_memory(&mut self, _key: &str, _value: &str, _tags: Vec<String>) -> (r: Result<(), String>)
        ensures
            r is Ok,
    {
        Ok(())
    }

    /// No memories, whatever the key.
    pub fn get_by_key(&self, _key: &str) -> (r: Vec<Memory>)
        ensures
            r@.len() == 0,
    {
        Vec::new()
    }

    /// No memories.
    pub fn get_all_memories(&self) -> (r: Vec<Memory>)
        ensures
            r@.len() == 0,
    {
        Vec::new()
    }
}

/// A shared handle on a new store.
pub fn get_memory_store() -> (r: Arc<Mutex<MemoryStore>>) {
    Arc::new(new_mutex(MemoryStore::new()))
}

} // verus!
