//! The opaque-handle registry: a table from 64-bit handles to exclusively
//! owned images.
//!
//! A handle is created when an image crosses the boundary, is never `0`
//! (reserved as "invalid"), grows strictly, and is never reused even after
//! it has been freed. Freeing is idempotent; resolving an unknown or freed
//! handle reports absence, never a fault. Callers that share one registry
//! across threads put it behind a single point of mutual exclusion.

use vstd::prelude::*;

use std::collections::HashMap;

use crate::image::SKIDImage;

verus! {

broadcast use vstd::std_specs::hash::group_hash_axioms;

/// The table of live images, keyed by opaque 64-bit handles.
pub struct HandleRegistry {
    last_handle_id: u64,
    images: HashMap<u64, SKIDImage>,
}

impl HandleRegistry {
    /// The handles now live, each with its image.
    pub closed spec fn table(self) -> Map<u64, SKIDImage> {
        self.images@
    }

    /// The largest handle ever issued; `0` before any was.
    pub closed spec fn last_id(self) -> u64 {
        self.last_handle_id
    }

    /// Well-formedness: `0` is never a live handle, and no live handle
    /// exceeds the issue counter — so a fresh id can never collide.
    pub open spec fn wf(self) -> bool {
        !self.table().contains_key(0) && (forall|h: u64|
            self.table().contains_key(h) ==> h <= self.last_id())
    }

    /// An empty registry; the first handle issued will be `1`.
    pub fn new() -> (reg: HandleRegistry)
        ensures
            reg.wf(),
            reg.table() == Map::<u64, SKIDImage>::empty(),
            reg.last_id() == 0,
    {
        let reg = HandleRegistry { last_handle_id: 0, images: HashMap::new() };
        proof {
            assert(reg.table() =~= Map::<u64, SKIDImage>::empty());
        }
        reg
    }

    /// Issues a fresh handle: strictly greater than every handle issued
    /// before, and never `0`.
    pub fn new_handle_id(&mut self) -> (id: u64)
        requires
            old(self).last_id() < u64::MAX,
        ensures
            id == old(self).last_id() + 1,
            final(self).last_id() == id,
            final(self).table() == old(self).table(),
            id != 0,
    {
        self.last_handle_id = self.last_handle_id + 1;
        self.last_handle_id
    }

    /// Stores an image and hands back its fresh handle. The handle is not
    /// `0`, was never issued before, and afterwards resolves to exactly
    /// this image; every other entry is untouched.
    pub fn create(&mut self, image: SKIDImage) -> (id: u64)
        requires
            old(self).wf(),
            old(self).last_id() < u64::MAX,
        ensures
            final(self).wf(),
            id == old(self).last_id() + 1,
            id != 0,
            !old(self).table().contains_key(id),
            final(self).table() == old(self).table().insert(id, image),
            final(self).last_id() == id,
    {
        let id = self.new_handle_id();
        self.images.insert(id, image);
        id
    }

    /// Looks a handle up; absence (unknown, freed, or `0`) is reported,
    /// never a fault.
    pub fn resolve(&self, handle: u64) -> (res: Option<&SKIDImage>)
        ensures
            self.table().contains_key(handle) ==> res == Some(&self.table()[handle]),
            !self.table().contains_key(handle) ==> res is None,
    {
        self.images.get(&handle)
    }

    /// Destroys the image behind a handle. A `0`, unknown or already freed
    /// handle is a no-op, so freeing is idempotent.
    pub fn free(&mut self, handle: u64)
        requires
            old(self).wf(),
        ensures
            final(self).wf(),
            final(self).table() == old(self).table().remove(handle),
            final(self).last_id() == old(self).last_id(),
    {
        if handle != 0 {
            self.images.remove(&handle);
        } else {
            proof {
                assert(self.table() =~= self.table().remove(0));
            }
        }
    }

    /// Replaces the image behind a live handle in place; reports whether
    /// the handle was live. A dead handle stores nothing.
    pub fn replace(&mut self, handle: u64, image: SKIDImage) -> (replaced: bool)
        requires
            old(self).wf(),
        ensures
            final(self).wf(),
            replaced == old(self).table().contains_key(handle),
            replaced ==> final(self).table() == old(self).table().insert(handle, image),
            !replaced ==> final(self).table() == old(self).table(),
            final(self).last_id() == old(self).last_id(),
    {
        if self.images.contains_key(&handle) {
            self.images.insert(handle, image);
            true
        } else {
            false
        }
    }

    /// The largest handle issued so far; callers check it against the
    /// counter's ceiling before asking for another.
    pub fn current_last_id(&self) -> (id: u64)
        ensures
            id == self.last_id(),
    {
        self.last_handle_id
    }

    /// The number of live handles.
    pub fn live_count(&self) -> (n: usize)
        ensures
            n == self.table().dom().len(),
    {
        self.images.len()
    }
}

/// The handle lifecycle: a handle freshly created is live; after it is
/// freed it resolves to nothing; freeing it a second time changes nothing.
/// No step is a fault.
pub proof fn lemma_handle_lifecycle(reg: HandleRegistry, image: SKIDImage, id: u64)
    requires
        reg.wf(),
        !reg.table().contains_key(id),
    ensures
        reg.table().insert(id, image).contains_key(id),
        reg.table().insert(id, image)[id] == image,
        !reg.table().insert(id, image).remove(id).contains_key(id),
        reg.table().insert(id, image).remove(id).remove(id) == reg.table().insert(
            id,
            image,
        ).remove(id),
{
    assert(reg.table().insert(id, image).remove(id).remove(id) =~= reg.table().insert(
        id,
        image,
    ).remove(id));
}

/// A freed handle is never reissued: once a handle has been freed, every
/// handle created later is strictly larger, so it can never denote the
/// freed one.
pub proof fn lemma_handle_never_reused(reg: HandleRegistry, freed: u64, later: u64)
    requires
        reg.wf(),
        freed <= reg.last_id(),
        later > reg.last_id(),
    ensures
        later != freed,
{
}

} // verus!
