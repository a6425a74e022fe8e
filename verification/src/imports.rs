use vstd::prelude::*;
use crate::cache::InMemoryCache;
use crate::context::Context;
use crate::storage::{Storage, StorageError};

verus! {

/// The storage import `storage_has`, once the guest's key bytes stand in
/// host memory: 1 when the prefixed key is in the effective view, else 0.
pub fn storage_has<S: Storage>(
    context: &Context,
    cache: &mut InMemoryCache,
    storage: &S,
    key: Vec<u8>,
) -> (r: Result<u32, StorageError>)
    requires
        old(cache).wf(),
        storage.inv(),
    ensures
        final(cache).wf(),
        final(cache).tombstones() == old(cache).tombstones(),
        final(cache).effective(storage.view()) == old(cache).effective(storage.view()),
        r matches Ok(found) ==> found == if old(cache).effective(storage.view()).contains_key(
            context.key_prefix@ + key@,
        ) {
            1u32
        } else {
            0u32
        },
        old(cache).tombstones().contains(context.key_prefix@ + key@) || old(
            cache,
        ).buffer().contains_key(context.key_prefix@ + key@) ==> r is Ok,
        storage.infallible() ==> r is Ok,
{
    let prefixed_key = context.prefix_key(key);
    match cache.has(storage, &prefixed_key) {
        Ok(true) => Ok(1),
        Ok(false) => Ok(0),
        Err(e) => Err(e),
    }
}

/// The storage import `storage_read`: the value under the prefixed key in
/// the effective view; an absent or tombstoned key is not found. The
/// caller hands the returned bytes back to the guest.
pub fn storage_read<S: Storage>(
    context: &Context,
    cache: &mut InMemoryCache,
    storage: &S,
    key: Vec<u8>,
) -> (r: Result<Vec<u8>, StorageError>)
    requires
        old(cache).wf(),
        storage.inv(),
    ensures
        final(cache).wf(),
        final(cache).tombstones() == old(cache).tombstones(),
        final(cache).effective(storage.view()) == old(cache).effective(storage.view()),
        r matches Ok(v) ==> old(cache).effective(storage.view()).contains_key(
            context.key_prefix@ + key@,
        ) && v@ == old(cache).effective(storage.view())[context.key_prefix@ + key@],
        (r matches Err(e) && e is NotFound) <==> !old(cache).effective(
            storage.view(),
        ).contains_key(context.key_prefix@ + key@),
        old(cache).buffer().contains_key(context.key_prefix@ + key@) ==> r is Ok,
        storage.infallible() && old(cache).effective(storage.view()).contains_key(
            context.key_prefix@ + key@,
        ) ==> r is Ok,
{
    let prefixed_key = context.prefix_key(key);
    cache.get(storage, &prefixed_key)
}

/// The storage import `storage_write`: buffer a write under the prefixed
/// key. Only the overlay changes; the backing store is untouched until
/// the batch commits.
pub fn storage_write(context: &Context, cache: &mut InMemoryCache, key: Vec<u8>, value: Vec<u8>)
    requires
        old(cache).wf(),
    ensures
        final(cache).wf(),
        forall|b: Map<Seq<u8>, Seq<u8>>| #[trigger]
            final(cache).effective(b) == old(cache).effective(b).insert(
                context.key_prefix@ + key@,
                value@,
            ),
{
    let prefixed_key = context.prefix_key(key);
    cache.set(prefixed_key, value);
}

/// The storage import `storage_delete`: tombstone the prefixed key. Only
/// the overlay changes; the backing store is untouched until the batch
/// commits.
pub fn storage_delete(context: &Context, cache: &mut InMemoryCache, key: Vec<u8>)
    requires
        old(cache).wf(),
    ensures
        final(cache).wf(),
        forall|b: Map<Seq<u8>, Seq<u8>>| #[trigger]
            final(cache).effective(b) == old(cache).effective(b).remove(
                context.key_prefix@ + key@,
            ),
{
    let prefixed_key = context.prefix_key(key);
    cache.delete(prefixed_key);
}

} // verus!
