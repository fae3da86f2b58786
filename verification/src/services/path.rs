//! The root folders of the acquisition services, each bound to the storage
//! pool that backs it.

use vstd::prelude::*;
use crate::error::SyncError;
use crate::services::disk::Disk;
use crate::storage::{bound, find_disk, Acquirer, BindingView, DiskKey, PathBinding, StorageRegistry};

verus! {

/// A root folder of a series acquisition service.
#[derive(Debug)]
pub struct SonarrPath {
    sonarr_id: i32,
    path: String,
    disk_id: i32,
}

/// A root folder of a movie acquisition service.
#[derive(Debug)]
pub struct RadarrPath {
    radarr_id: i32,
    path: String,
    disk_id: i32,
}

impl View for SonarrPath {
    type V = BindingView;

    closed spec fn view(&self) -> BindingView {
        BindingView { service_id: self.sonarr_id, path: self.path@, disk_id: self.disk_id }
    }
}

impl View for RadarrPath {
    type V = BindingView;

    closed spec fn view(&self) -> BindingView {
        BindingView { service_id: self.radarr_id, path: self.path@, disk_id: self.disk_id }
    }
}

impl SonarrPath {
    /// Binds a root folder of a series service to a pool. A folder that the
    /// service already has is bound anew.
    pub fn new(registry: &mut StorageRegistry, sonarr_id: i32, path: &str, disk_id: i32) -> (r:
        Self)
        requires
            old(registry).wf(),
        ensures
            final(registry).wf(),
            r@ == (BindingView { service_id: sonarr_id, path: path@, disk_id }),
            final(registry)@.sonarr_paths == bound(old(registry)@.sonarr_paths, r@),
            final(registry)@.radarr_paths == old(registry)@.radarr_paths,
            final(registry)@.disks == old(registry)@.disks,
    {
        let binding = PathBinding { service_id: sonarr_id, path: path.to_owned(), disk_id };
        registry.bind(Acquirer::Sonarr, binding);
        SonarrPath { sonarr_id, path: path.to_owned(), disk_id }
    }

    /// The binding that this folder stands for.
    pub fn from_binding(binding: PathBinding) -> (r: Self)
        ensures
            r@ == binding@,
    {
        SonarrPath { sonarr_id: binding.service_id, path: binding.path, disk_id: binding.disk_id }
    }

    pub fn sonarr_id(&self) -> (r: i32)
        ensures
            r == self@.service_id,
    {
        self.sonarr_id
    }

    pub fn path(&self) -> (r: &str)
        ensures
            r@ == self@.path,
    {
        self.path.as_str()
    }

    pub fn disk_id(&self) -> (r: i32)
        ensures
            r == self@.disk_id,
    {
        self.disk_id
    }

    /// The pool that backs this folder.
    pub fn get_disk(&self, registry: &StorageRegistry) -> (r: Result<Disk, SyncError>)
        ensures
            match find_disk(registry@.disks, DiskKey::Id(self@.disk_id)) {
                Some(i) => r matches Ok(disk) && disk@ == registry@.disks[i],
                None => r == Err::<Disk, SyncError>(SyncError::NotFound),
            },
    {
        Disk::get_by_id(registry, self.disk_id)
    }
}

impl RadarrPath {
    /// Binds a root folder of a movie service to a pool. A folder that the
    /// service already has is bound anew.
    pub fn new(registry: &mut StorageRegistry, radarr_id: i32, path: &str, disk_id: i32) -> (r:
        Self)
        requires
            old(registry).wf(),
        ensures
            final(registry).wf(),
            r@ == (BindingView { service_id: radarr_id, path: path@, disk_id }),
            final(registry)@.radarr_paths == bound(old(registry)@.radarr_paths, r@),
            final(registry)@.sonarr_paths == old(registry)@.sonarr_paths,
            final(registry)@.disks == old(registry)@.disks,
    {
        let binding = PathBinding { service_id: radarr_id, path: path.to_owned(), disk_id };
        registry.bind(Acquirer::Radarr, binding);
        RadarrPath { radarr_id, path: path.to_owned(), disk_id }
    }

    /// The binding that this folder stands for.
    pub fn from_binding(binding: PathBinding) -> (r: Self)
        ensures
            r@ == binding@,
    {
        RadarrPath { radarr_id: binding.service_id, path: binding.path, disk_id: binding.disk_id }
    }

    pub fn radarr_id(&self) -> (r: i32)
        ensures
            r == self@.service_id,
    {
        self.radarr_id
    }

    pub fn path(&self) -> (r: &str)
        ensures
            r@ == self@.path,
    {
        self.path.as_str()
    }

    pub fn disk_id(&self) -> (r: i32)
        ensures
            r == self@.disk_id,
    {
        self.disk_id
    }
}

} // verus!
