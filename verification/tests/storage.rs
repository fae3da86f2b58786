use media_retention::error::SyncError;
use media_retention::services::disk::Disk;
use media_retention::services::path::{RadarrPath, SonarrPath};
use media_retention::services::radarr::Radarr;
use media_retention::storage::{Acquirer, DiskKey, PathBinding, RootFolder, StorageRegistry};

#[test]
fn disk_getters_and_setter() {
    let mut disk = Disk::with_id(4, 1000);
    assert_eq!(disk.get_id(), 4);
    assert_eq!(disk.get_free_space(), 1000);
    disk.set_free_space(u64::MAX);
    assert_eq!(disk.get_free_space(), u64::MAX);
    assert_eq!(disk.get_id(), 4);
}

#[test]
fn new_disks_are_numbered_from_one() {
    let mut registry = StorageRegistry::new();
    assert_eq!(registry.greatest_disk_id(), 0);
    let a = Disk::new(&mut registry, 500);
    let b = Disk::new(&mut registry, 500);
    assert_eq!(a.get_id(), 1);
    assert_eq!(b.get_id(), 2);
    assert_eq!(b.get_free_space(), 500);
    assert_eq!(registry.disks().len(), 2);
    assert_eq!(registry.greatest_disk_id(), 2);
}

#[test]
fn room_for_new_pools() {
    let mut registry = StorageRegistry::new();
    assert!(registry.has_room(0));
    assert!(registry.has_room(i32::MAX as usize));
    assert!(!registry.has_room(i32::MAX as usize + 1));
    Disk::new(&mut registry, 1);
    assert!(registry.has_room(i32::MAX as usize - 1));
    assert!(!registry.has_room(i32::MAX as usize));
    assert!(!registry.has_room(usize::MAX));
}

#[test]
fn disk_lookups() {
    let mut registry = StorageRegistry::new();
    Disk::new(&mut registry, 500);
    Disk::new(&mut registry, 700);
    Disk::new(&mut registry, 500);
    assert_eq!(Disk::get_by_id(&registry, 2).unwrap().get_free_space(), 700);
    assert_eq!(Disk::get_by_id(&registry, 3).unwrap().get_free_space(), 500);
    assert_eq!(Disk::get_by_id(&registry, 4).unwrap_err(), SyncError::NotFound);
    assert_eq!(Disk::get_by_id(&registry, 0).unwrap_err(), SyncError::NotFound);
    assert_eq!(Disk::get_by_free_space(&registry, 500).unwrap().get_id(), 1);
    assert_eq!(Disk::get_by_free_space(&registry, 700).unwrap().get_id(), 2);
    assert_eq!(Disk::get_by_free_space(&registry, 501).unwrap_err(), SyncError::NotFound);
    assert_eq!(registry.disk_position(DiskKey::Capacity(700)), Some(1));
    assert_eq!(registry.disk_position(DiskKey::Id(9)), None);
}

#[test]
fn register_path_creates_a_pool_for_a_new_capacity() {
    let mut registry = StorageRegistry::new();
    let a = registry.register_path(Acquirer::Radarr, 1, "/movies", 100);
    let b = registry.register_path(Acquirer::Radarr, 1, "/more", 200);
    let c = registry.register_path(Acquirer::Sonarr, 1, "/movies", 100);
    assert_eq!((a.service_id, a.path.as_str(), a.disk_id), (1, "/movies", 1));
    assert_eq!(b.disk_id, 2);
    assert_eq!(c.disk_id, 1);
    assert_eq!(registry.disks().len(), 2);
    assert_eq!(registry.radarr_paths().len(), 2);
    assert_eq!(registry.sonarr_paths().len(), 1);
    assert_eq!(registry.sonarr_paths()[0].path, "/movies");
}

#[test]
fn registering_a_folder_again_moves_its_binding() {
    let mut registry = StorageRegistry::new();
    registry.register_path(Acquirer::Radarr, 1, "/movies", 100);
    registry.register_path(Acquirer::Radarr, 2, "/movies", 100);
    let moved = registry.register_path(Acquirer::Radarr, 1, "/movies", 90);
    assert_eq!(moved.disk_id, 2);
    assert_eq!(registry.disks().len(), 2);
    assert_eq!(registry.radarr_paths().len(), 2);
    assert_eq!(registry.radarr_paths()[0].service_id, 1);
    assert_eq!(registry.radarr_paths()[0].disk_id, 2);
    assert_eq!(registry.radarr_paths()[1].service_id, 2);
    assert_eq!(registry.radarr_paths()[1].disk_id, 1);
    let back = registry.register_path(Acquirer::Radarr, 1, "/movies", 100);
    assert_eq!(back.disk_id, 1);
    assert_eq!(registry.radarr_paths().len(), 2);
}

#[test]
fn paths_are_bound_by_service_and_path() {
    let mut registry = StorageRegistry::new();
    let a = RadarrPath::new(&mut registry, 1, "/a", 5);
    let b = RadarrPath::new(&mut registry, 1, "/b", 5);
    let c = RadarrPath::new(&mut registry, 2, "/a", 6);
    let again = RadarrPath::new(&mut registry, 1, "/a", 7);
    assert_eq!((a.radarr_id(), a.path(), a.disk_id()), (1, "/a", 5));
    assert_eq!(b.path(), "/b");
    assert_eq!(c.radarr_id(), 2);
    assert_eq!(again.disk_id(), 7);
    assert_eq!(registry.radarr_paths().len(), 3);
    assert_eq!(registry.radarr_paths()[0].disk_id, 7);
    assert_eq!(registry.sonarr_paths().len(), 0);
    let s = SonarrPath::new(&mut registry, 1, "/a", 8);
    assert_eq!((s.sonarr_id(), s.path(), s.disk_id()), (1, "/a", 8));
    assert_eq!(registry.sonarr_paths().len(), 1);
    assert_eq!(registry.radarr_paths()[0].disk_id, 7);
    assert_eq!(s.get_disk(&registry).unwrap_err(), SyncError::NotFound);
}

#[test]
fn path_of_a_binding() {
    let binding = PathBinding { service_id: 3, path: "/x".to_string(), disk_id: 4 };
    let copy = binding.clone();
    let r = RadarrPath::from_binding(binding);
    assert_eq!((r.radarr_id(), r.path(), r.disk_id()), (3, "/x", 4));
    let s = SonarrPath::from_binding(copy);
    assert_eq!((s.sonarr_id(), s.path(), s.disk_id()), (3, "/x", 4));
}

#[test]
fn populate_paths_registers_each_folder_in_order() {
    let mut registry = StorageRegistry::new();
    let radarr = Radarr::new(9, "http://r", "k", false);
    let folders = vec![
        RootFolder { path: "/a".to_string(), free_space: 10, id: 1 },
        RootFolder { path: "/b".to_string(), free_space: 20, id: 2 },
        RootFolder { path: "/c".to_string(), free_space: 10, id: 3 },
        RootFolder { path: "/a".to_string(), free_space: 20, id: 4 },
    ];
    let paths = radarr.populate_paths(&folders, &mut registry);
    let seen: Vec<(i32, &str, i32)> = paths.iter().map(|p| (p.radarr_id(), p.path(), p.disk_id())).collect();
    assert_eq!(seen, vec![(9, "/a", 1), (9, "/b", 2), (9, "/c", 1), (9, "/a", 2)]);
    assert_eq!(registry.disks().len(), 2);
    assert_eq!(registry.radarr_paths().len(), 3);
    assert_eq!(registry.radarr_paths()[0].disk_id, 2);
    assert!(radarr.populate_paths(&Vec::new(), &mut registry).is_empty());
    assert_eq!(registry.disks().len(), 2);
}
