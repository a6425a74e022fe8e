use vstd::prelude::*;
use crate::kv::ByteMap;

verus! {

/// Why a storage operation failed.
#[derive(Debug, Clone, PartialEq, Eq)]
pub enum StorageError {
    /// A required key was not found.
    NotFound,
    /// The backing engine failed; the message is the engine's own.
    Backend(String),
}

impl StorageError {
    /// The error's textual form, as a sequence of characters.
    pub open spec fn text(&self) -> Seq<char> {
        match self {
            StorageError::NotFound => "not found"@,
            StorageError::Backend(msg) => "storage error: "@ + msg@,
        }
    }

    /// The error's textual form.
    pub fn describe(&self) -> (s: String)
        ensures
            s@ == self.text(),
    {
        match self {
            StorageError::NotFound => String::from_str("not found"),
            StorageError::Backend(msg) => String::from_str("storage error: ").concat(msg.as_str()),
        }
    }
}

/// Clone a byte string.
pub fn clone_bytes(v: &Vec<u8>) -> (r: Vec<u8>)
    ensures
        r@ == v@,
{
    let r = v.clone();
    proof {
        assert(r@ =~= v@);
    }
    r
}

/// The contract of a byte-keyed, byte-valued store: the persistent engine
/// underneath the execution core. An implementation is durable per
/// operation: an operation either takes full effect or reports an error
/// leaving the content as it was.
pub trait Storage: Sized {
    /// The implementation's internal consistency; every operation keeps it.
    spec fn inv(&self) -> bool;

    /// The mathematical content of the store.
    spec fn view(&self) -> Map<Seq<u8>, Seq<u8>>;

    /// Whether this store's operations never fail. An in-memory store is
    /// infallible; an engine doing I/O is not. Where it holds, success is
    /// owed outright, and callers inherit the obligation.
    spec fn infallible(&self) -> bool;

    /// Whether the store holds the key.
    fn has(&self, key: &Vec<u8>) -> (r: Result<bool, StorageError>)
        requires
            self.inv(),
        ensures
            r matches Ok(b) ==> b == self.view().contains_key(key@),
            self.infallible() ==> r is Ok,
    ;

    /// Read the value under a key; an absent key is reported as not found.
    fn get(&self, key: &Vec<u8>) -> (r: Result<Vec<u8>, StorageError>)
        requires
            self.inv(),
        ensures
            r matches Ok(v) ==> self.view().contains_key(key@) && v@ == self.view()[key@],
            (r matches Err(e) && e is NotFound) <==> !self.view().contains_key(key@),
            self.infallible() && self.view().contains_key(key@) ==> r is Ok,
    ;

    /// Read the value under a key; an absent key is no error.
    fn get_opt(&self, key: &Vec<u8>) -> (r: Result<Option<Vec<u8>>, StorageError>)
        requires
            self.inv(),
        ensures
            r matches Ok(o) ==> {
                &&& o matches Some(v) ==> self.view().contains_key(key@) && v@ == self.view()[key@]
                &&& o is None ==> !self.view().contains_key(key@)
            },
            self.infallible() ==> r is Ok,
    ;

    /// Write a value under a key, replacing any previous one.
    fn set(&mut self, key: Vec<u8>, value: Vec<u8>) -> (r: Result<(), StorageError>)
        requires
            old(self).inv(),
        ensures
            final(self).inv(),
            final(self).infallible() == old(self).infallible(),
            r is Ok ==> final(self).view() == old(self).view().insert(key@, value@),
            r is Err ==> final(self).view() == old(self).view(),
            old(self).infallible() ==> r is Ok,
    ;

    /// Delete a key and whatever value it carried; deleting an absent key
    /// is no error.
    fn delete(&mut self, key: &Vec<u8>) -> (r: Result<(), StorageError>)
        requires
            old(self).inv(),
        ensures
            final(self).inv(),
            final(self).infallible() == old(self).infallible(),
            r is Ok ==> final(self).view() == old(self).view().remove(key@),
            r is Err ==> final(self).view() == old(self).view(),
            old(self).infallible() ==> r is Ok,
    ;
}

/// A store kept entirely in memory: the reference implementation of the
/// storage contract, and the backing store the tests run against.
pub struct InMemoryStorage {
    map: ByteMap,
}

impl InMemoryStorage {
    /// An empty store.
    pub fn new() -> (s: Self)
        ensures
            s.inv(),
            s.view() == Map::<Seq<u8>, Seq<u8>>::empty(),
            s.infallible(),
    {
        InMemoryStorage { map: ByteMap::new() }
    }
}

impl Storage for InMemoryStorage {
    closed spec fn inv(&self) -> bool {
        self.map.wf()
    }

    closed spec fn infallible(&self) -> bool {
        true
    }

    closed spec fn view(&self) -> Map<Seq<u8>, Seq<u8>> {
        self.map@
    }

    fn has(&self, key: &Vec<u8>) -> (r: Result<bool, StorageError>) {
        Ok(self.map.contains(key))
    }

    fn get(&self, key: &Vec<u8>) -> (r: Result<Vec<u8>, StorageError>) {
        match self.map.get(key) {
            Some(v) => Ok(clone_bytes(v)),
            None => Err(StorageError::NotFound),
        }
    }

    fn get_opt(&self, key: &Vec<u8>) -> (r: Result<Option<Vec<u8>>, StorageError>) {
        match self.map.get(key) {
            Some(v) => Ok(Some(clone_bytes(v))),
            None => Ok(None),
        }
    }

    fn set(&mut self, key: Vec<u8>, value: Vec<u8>) -> (r: Result<(), StorageError>) {
        self.map.insert(key, value);
        Ok(())
    }

    fn delete(&mut self, key: &Vec<u8>) -> (r: Result<(), StorageError>) {
        self.map.remove(key);
        Ok(())
    }
}

} // verus!
