use vstd::prelude::*;
use vstd::string::StrSliceExecFns;
use vstd::utf8::{encode_utf8, encode_utf8_decode_utf8};
use crate::live_object_info::{hex_chars_of, lemma_hex_chars_ascii};
use crate::storage::clone_bytes;

verus! {

/// The host-side context of one WASM instance: every storage key the
/// guest names is namespaced under the owning live object's identifier
/// bytes, giving each live object a private keyspace in the shared store.
pub struct Context {
    pub key_prefix: Vec<u8>,
}

impl Context {
    /// A context for the live object with the given identifier.
    pub fn new(key_prefix: String) -> (c: Self)
        ensures
            c.key_prefix@ == encode_utf8(key_prefix@),
    {
        Context { key_prefix: key_prefix.as_str().as_bytes_vec() }
    }

    /// Namespace a guest-visible key under the live object's prefix.
    pub fn prefix_key(&self, key: Vec<u8>) -> (r: Vec<u8>)
        ensures
            r@ == self.key_prefix@ + key@,
    {
        let mut prefixed_key = clone_bytes(&self.key_prefix);
        let mut key = key;
        prefixed_key.append(&mut key);
        prefixed_key
    }
}

/// Keys under distinct prefixes of one length are distinct, whatever the
/// suffixes: prefixing partitions the keyspace.
pub proof fn lemma_prefix_isolation(p1: Seq<u8>, p2: Seq<u8>, k1: Seq<u8>, k2: Seq<u8>)
    requires
        p1.len() == p2.len(),
        p1 != p2,
    ensures
        p1 + k1 != p2 + k2,
{
    if p1 + k1 == p2 + k2 {
        assert(p1 =~= (p1 + k1).subrange(0, p1.len() as int));
        assert(p2 =~= (p2 + k2).subrange(0, p2.len() as int));
    }
}

/// Two live objects with distinct identifiers derived from equally long
/// hashes never touch the same backing key, whatever guest keys they
/// name: their prefixed keyspaces are disjoint.
pub proof fn lemma_live_object_isolation(
    id1: Seq<char>,
    h1: Seq<u8>,
    id2: Seq<char>,
    h2: Seq<u8>,
    k1: Seq<u8>,
    k2: Seq<u8>,
)
    requires
        id1 == hex_chars_of(h1),
        id2 == hex_chars_of(h2),
        h1.len() == h2.len(),
        id1 != id2,
    ensures
        encode_utf8(id1) + k1 != encode_utf8(id2) + k2,
{
    lemma_hex_chars_ascii(h1);
    lemma_hex_chars_ascii(h2);
    if encode_utf8(id1) == encode_utf8(id2) {
        encode_utf8_decode_utf8(id1);
        encode_utf8_decode_utf8(id2);
    }
    lemma_prefix_isolation(encode_utf8(id1), encode_utf8(id2), k1, k2);
}

} // verus!
