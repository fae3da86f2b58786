//! Storage pools.

use vstd::prelude::*;
use crate::error::SyncError;
use crate::storage::{find_disk, greatest_id, lemma_find_disk, DiskKey, StorageRegistry};

verus! {

/// A storage pool: a distinct unit of disk capacity that backs root folders.
#[derive(Clone, Copy, Debug)]
pub struct Disk {
    id: i32,
    free_space: u64,
}

/// What a `Disk` holds.
pub struct DiskView {
    pub id: i32,
    pub free_space: u64,
}

impl View for Disk {
    type V = DiskView;

    closed spec fn view(&self) -> DiskView {
        DiskView { id: self.id, free_space: self.free_space }
    }
}

impl Disk {
    /// A pool with a given id, as the store holds it.
    pub fn with_id(id: i32, free_space: u64) -> (r: Self)
        ensures
            r@ == (DiskView { id, free_space }),
    {
        Disk { id, free_space }
    }

    /// Adds a pool of the given capacity to the registry, under the id that
    /// follows the greatest id in use.
    pub fn new(registry: &mut StorageRegistry, free_space: u64) -> (r: Self)
        requires
            old(registry).wf(),
            greatest_id(old(registry)@.disks) < i32::MAX,
        ensures
            final(registry).wf(),
            r@ == (DiskView { id: (greatest_id(old(registry)@.disks) + 1) as i32, free_space }),
            final(registry)@.disks == old(registry)@.disks.push(r@),
            final(registry)@.radarr_paths == old(registry)@.radarr_paths,
            final(registry)@.sonarr_paths == old(registry)@.sonarr_paths,
    {
        let id = registry.next_disk_id();
        let disk = Disk { id, free_space };
        registry.add_disk(disk);
        disk
    }

    pub fn get_id(&self) -> (r: i32)
        ensures
            r == self@.id,
    {
        self.id
    }

    /// The pool with the given id.
    pub fn get_by_id(registry: &StorageRegistry, id: i32) -> (r: Result<Disk, SyncError>)
        ensures
            match find_disk(registry@.disks, DiskKey::Id(id)) {
                Some(i) => r matches Ok(disk) && disk@ == registry@.disks[i],
                None => r == Err::<Disk, SyncError>(SyncError::NotFound),
            },
    {
        match registry.disk_position(DiskKey::Id(id)) {
            Some(i) => {
                proof {
                    lemma_find_disk(registry@.disks, DiskKey::Id(id));
                }
                Ok(registry.disk(i))
            },
            None => Err(SyncError::NotFound),
        }
    }

    pub fn get_free_space(&self) -> (r: u64)
        ensures
            r == self@.free_space,
    {
        self.free_space
    }

    pub fn set_free_space(&mut self, free_space: u64)
        ensures
            final(self)@ == (DiskView { id: old(self)@.id, free_space }),
    {
        self.free_space = free_space;
    }

    /// The first pool of exactly the given capacity.
    pub fn get_by_free_space(registry: &StorageRegistry, free_space: u64) -> (r: Result<
        Disk,
        SyncError,
    >)
        ensures
            match find_disk(registry@.disks, DiskKey::Capacity(free_space)) {
                Some(i) => r matches Ok(disk) && disk@ == registry@.disks[i],
                None => r == Err::<Disk, SyncError>(SyncError::NotFound),
            },
    {
        match registry.disk_position(DiskKey::Capacity(free_space)) {
            Some(i) => {
                proof {
                    lemma_find_disk(registry@.disks, DiskKey::Capacity(free_space));
                }
                Ok(registry.disk(i))
            },
            None => Err(SyncError::NotFound),
        }
    }
}

} // verus!
