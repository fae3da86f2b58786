//! The storage registry: the storage pools, told apart by their capacity, and
//! the root folders of the acquisition services, each bound to its pool.

use vstd::prelude::*;
use crate::services::disk::{Disk, DiskView};

verus! {

/// The two kinds of acquisition service. Each kind numbers its instances by itself.
#[derive(Clone, Copy, Debug, PartialEq, Eq, Structural)]
pub enum Acquirer {
    Radarr,
    Sonarr,
}

/// A root folder of an acquisition service instance and the pool that backs it.
#[derive(Debug)]
pub struct PathBinding {
    pub service_id: i32,
    pub path: String,
    pub disk_id: i32,
}

/// What a `PathBinding` holds.
pub struct BindingView {
    pub service_id: i32,
    pub path: Seq<char>,
    pub disk_id: i32,
}

impl View for PathBinding {
    type V = BindingView;

    open spec fn view(&self) -> BindingView {
        BindingView { service_id: self.service_id, path: self.path@, disk_id: self.disk_id }
    }
}

impl Clone for PathBinding {
    fn clone(&self) -> (r: Self)
        ensures
            r@ == self@,
    {
        PathBinding { service_id: self.service_id, path: self.path.clone(), disk_id: self.disk_id }
    }
}

/// By what a pool is looked up.
#[derive(Clone, Copy, Debug)]
pub enum DiskKey {
    Id(i32),
    Capacity(u64),
}

/// Whether the pool `d` is one that `key` asks for.
pub open spec fn disk_answers(d: DiskView, key: DiskKey) -> bool {
    match key {
        DiskKey::Id(id) => d.id == id,
        DiskKey::Capacity(capacity) => d.free_space == capacity,
    }
}

/// The position of the first pool at or after `from` that answers to `key`.
pub open spec fn find_disk_from(disks: Seq<DiskView>, key: DiskKey, from: int) -> Option<int>
    decreases disks.len() - from,
{
    if from < 0 || from >= disks.len() {
        None
    } else if disk_answers(disks[from], key) {
        Some(from)
    } else {
        find_disk_from(disks, key, from + 1)
    }
}

/// The position of the first pool that answers to `key`.
pub open spec fn find_disk(disks: Seq<DiskView>, key: DiskKey) -> Option<int> {
    find_disk_from(disks, key, 0)
}

/// The position of the first binding at or after `from` of the given folder
/// of the given service instance.
pub open spec fn find_binding_from(
    paths: Seq<BindingView>,
    service_id: i32,
    path: Seq<char>,
    from: int,
) -> Option<int>
    decreases paths.len() - from,
{
    if from < 0 || from >= paths.len() {
        None
    } else if paths[from].service_id == service_id && paths[from].path == path {
        Some(from)
    } else {
        find_binding_from(paths, service_id, path, from + 1)
    }
}

/// The position of the binding of the given folder of the given service instance.
pub open spec fn find_binding(paths: Seq<BindingView>, service_id: i32, path: Seq<char>) -> Option<
    int,
> {
    find_binding_from(paths, service_id, path, 0)
}

/// The greatest id among the pools; 0 where there is none above it.
pub open spec fn greatest_id(disks: Seq<DiskView>) -> int
    decreases disks.len(),
{
    if disks.len() == 0 {
        0
    } else {
        let before = greatest_id(disks.drop_last());
        if disks.last().id > before {
            disks.last().id as int
        } else {
            before
        }
    }
}

/// No two pools have the same id.
pub open spec fn distinct_disks(disks: Seq<DiskView>) -> bool {
    forall|i: int, j: int|
        0 <= i < j < disks.len() ==> (#[trigger] disks[i]).id != (#[trigger] disks[j]).id
}

/// No two bindings are of the same folder of the same service instance.
pub open spec fn distinct_bindings(paths: Seq<BindingView>) -> bool {
    forall|i: int, j: int|
        0 <= i < j < paths.len() ==> !((#[trigger] paths[i]).service_id == (
        #[trigger] paths[j]).service_id && paths[i].path == paths[j].path)
}

/// The bindings after `b` was stored: it replaces the binding of the same
/// folder of the same service instance, or is added at the end.
pub open spec fn bound(paths: Seq<BindingView>, b: BindingView) -> Seq<BindingView> {
    match find_binding(paths, b.service_id, b.path) {
        Some(i) => paths.update(i, b),
        None => paths.push(b),
    }
}

/// The pools after a pool of the given capacity was resolved: as they were
/// where one has exactly that capacity, else with a new pool of that capacity
/// under the id that follows the greatest.
pub open spec fn pooled(disks: Seq<DiskView>, capacity: u64) -> Seq<DiskView> {
    match find_disk(disks, DiskKey::Capacity(capacity)) {
        Some(i) => disks,
        None => disks.push(DiskView { id: (greatest_id(disks) + 1) as i32, free_space: capacity }),
    }
}

/// The id of the pool that a capacity resolves to.
pub open spec fn pool_id(disks: Seq<DiskView>, capacity: u64) -> i32 {
    match find_disk(disks, DiskKey::Capacity(capacity)) {
        Some(i) => disks[i].id,
        None => (greatest_id(disks) + 1) as i32,
    }
}

/// What the registry holds.
pub struct RegistryView {
    pub disks: Seq<DiskView>,
    pub radarr_paths: Seq<BindingView>,
    pub sonarr_paths: Seq<BindingView>,
}

/// One root folder as an acquisition service reports it: its path, the free
/// capacity of the storage behind it, and the service's own number for it.
#[derive(Debug)]
pub struct RootFolder {
    pub path: String,
    pub free_space: u64,
    pub id: i32,
}

/// What of a `RootFolder` the registry goes by.
pub struct FolderView {
    pub path: Seq<char>,
    pub free_space: u64,
}

impl View for RootFolder {
    type V = FolderView;

    open spec fn view(&self) -> FolderView {
        FolderView { path: self.path@, free_space: self.free_space }
    }
}

/// The views of a run of root folders, in order.
pub open spec fn folder_views(folders: Seq<RootFolder>) -> Seq<FolderView> {
    Seq::new(folders.len(), |i: int| folders[i]@)
}

/// The binding that registering a folder gives.
pub open spec fn registered_binding(
    reg: RegistryView,
    service_id: i32,
    path: Seq<char>,
    capacity: u64,
) -> BindingView {
    BindingView { service_id, path, disk_id: pool_id(reg.disks, capacity) }
}

/// The registry after a root folder was registered: its pool is resolved by
/// capacity, or created, and the folder is bound to it.
pub open spec fn registered(
    reg: RegistryView,
    kind: Acquirer,
    service_id: i32,
    path: Seq<char>,
    capacity: u64,
) -> RegistryView {
    let b = registered_binding(reg, service_id, path, capacity);
    RegistryView {
        disks: pooled(reg.disks, capacity),
        radarr_paths: if kind == Acquirer::Radarr {
            bound(reg.radarr_paths, b)
        } else {
            reg.radarr_paths
        },
        sonarr_paths: if kind == Acquirer::Sonarr {
            bound(reg.sonarr_paths, b)
        } else {
            reg.sonarr_paths
        },
    }
}

/// The registry after the root folders of one service instance were
/// registered, in order.
pub open spec fn registered_all(
    reg: RegistryView,
    kind: Acquirer,
    service_id: i32,
    folders: Seq<FolderView>,
) -> RegistryView
    decreases folders.len(),
{
    if folders.len() == 0 {
        reg
    } else {
        registered(
            registered_all(reg, kind, service_id, folders.drop_last()),
            kind,
            service_id,
            folders.last().path,
            folders.last().free_space,
        )
    }
}

/// The bindings that registering the root folders of one service instance
/// gives, in order.
pub open spec fn registered_bindings(
    reg: RegistryView,
    kind: Acquirer,
    service_id: i32,
    folders: Seq<FolderView>,
) -> Seq<BindingView>
    decreases folders.len(),
{
    if folders.len() == 0 {
        Seq::empty()
    } else {
        registered_bindings(reg, kind, service_id, folders.drop_last()).push(
            registered_binding(
                registered_all(reg, kind, service_id, folders.drop_last()),
                service_id,
                folders.last().path,
                folders.last().free_space,
            ),
        )
    }
}

proof fn lemma_find_disk_from(disks: Seq<DiskView>, key: DiskKey, from: int)
    requires
        0 <= from,
    ensures
        match find_disk_from(disks, key, from) {
            Some(i) => from <= i < disks.len() && disk_answers(disks[i], key) && forall|j: int|
                from <= j < i ==> !disk_answers(#[trigger] disks[j], key),
            None => forall|j: int| from <= j < disks.len() ==> !disk_answers(#[trigger] disks[j], key),
        },
    decreases disks.len() - from,
{
    if from < disks.len() && !disk_answers(disks[from], key) {
        lemma_find_disk_from(disks, key, from + 1);
    }
}

/// `find_disk` returns the first answering position, and nothing only where
/// no pool answers.
pub proof fn lemma_find_disk(disks: Seq<DiskView>, key: DiskKey)
    ensures
        match find_disk(disks, key) {
            Some(i) => 0 <= i < disks.len() && disk_answers(disks[i], key) && forall|j: int|
                0 <= j < i ==> !disk_answers(#[trigger] disks[j], key),
            None => forall|j: int| 0 <= j < disks.len() ==> !disk_answers(#[trigger] disks[j], key),
        },
{
    lemma_find_disk_from(disks, key, 0);
}

proof fn lemma_find_binding_from(
    paths: Seq<BindingView>,
    service_id: i32,
    path: Seq<char>,
    from: int,
)
    requires
        0 <= from,
    ensures
        match find_binding_from(paths, service_id, path, from) {
            Some(i) => from <= i < paths.len() && paths[i].service_id == service_id && paths[i].path
                == path,
            None => forall|j: int|
                from <= j < paths.len() ==> !((#[trigger] paths[j]).service_id == service_id
                    && paths[j].path == path),
        },
    decreases paths.len() - from,
{
    if from < paths.len() && !(paths[from].service_id == service_id && paths[from].path == path) {
        lemma_find_binding_from(paths, service_id, path, from + 1);
    }
}

/// No pool has an id above the greatest.
pub proof fn lemma_greatest_id(disks: Seq<DiskView>)
    ensures
        greatest_id(disks) >= 0,
        forall|i: int| 0 <= i < disks.len() ==> (#[trigger] disks[i]).id <= greatest_id(disks),
    decreases disks.len(),
{
    if disks.len() > 0 {
        lemma_greatest_id(disks.drop_last());
        assert forall|i: int| 0 <= i < disks.len() implies (#[trigger] disks[i]).id <= greatest_id(
            disks,
        ) by {
            if i < disks.len() - 1 {
                assert(disks.drop_last()[i] == disks[i]);
            }
        }
    }
}

/// The pools and the bound root folders.
pub struct StorageRegistry {
    disks: Vec<Disk>,
    radarr_paths: Vec<PathBinding>,
    sonarr_paths: Vec<PathBinding>,
}

/// The views of a run of pools, in order.
pub open spec fn disk_views(disks: Seq<Disk>) -> Seq<DiskView> {
    Seq::new(disks.len(), |i: int| disks[i]@)
}

/// The views of a run of bindings, in order.
pub open spec fn binding_views(paths: Seq<PathBinding>) -> Seq<BindingView> {
    Seq::new(paths.len(), |i: int| paths[i]@)
}

impl View for StorageRegistry {
    type V = RegistryView;

    closed spec fn view(&self) -> RegistryView {
        RegistryView {
            disks: disk_views(self.disks@),
            radarr_paths: binding_views(self.radarr_paths@),
            sonarr_paths: binding_views(self.sonarr_paths@),
        }
    }
}

fn upsert_binding(paths: &mut Vec<PathBinding>, binding: PathBinding)
    requires
        distinct_bindings(binding_views(old(paths)@)),
    ensures
        distinct_bindings(binding_views(final(paths)@)),
        binding_views(final(paths)@) == bound(binding_views(old(paths)@), binding@),
{
    let ghost before = binding_views(paths@);
    let mut i: usize = 0;
    while i < paths.len()
        invariant
            i <= paths.len(),
            paths@ == old(paths)@,
            before == binding_views(paths@),
            distinct_bindings(before),
            find_binding(before, binding@.service_id, binding@.path) == find_binding_from(
                before,
                binding@.service_id,
                binding@.path,
                i as int,
            ),
        decreases paths.len() - i,
    {
        if paths[i].service_id == binding.service_id && paths[i].path == binding.path {
            let ghost b = binding@;
            paths.set(i, binding);
            assert(binding_views(paths@) =~= before.update(i as int, b));
            return ;
        }
        i += 1;
    }
    proof {
        lemma_find_binding_from(before, binding@.service_id, binding@.path, 0);
    }
    let ghost b = binding@;
    paths.push(binding);
    assert(binding_views(paths@) =~= before.push(b));
}

impl StorageRegistry {
    /// The registry's invariant: an id identifies one pool, and a folder of a
    /// service instance is bound once.
    pub open spec fn wf(&self) -> bool {
        &&& distinct_disks(self@.disks)
        &&& distinct_bindings(self@.radarr_paths)
        &&& distinct_bindings(self@.sonarr_paths)
    }

    /// A registry without pools and folders.
    pub fn new() -> (r: Self)
        ensures
            r.wf(),
            r@.disks == Seq::<DiskView>::empty(),
            r@.radarr_paths == Seq::<BindingView>::empty(),
            r@.sonarr_paths == Seq::<BindingView>::empty(),
    {
        StorageRegistry {
            disks: Vec::new(),
            radarr_paths: Vec::new(),
            sonarr_paths: Vec::new(),
        }
    }

    /// The pools, in the order in which they were added.
    pub fn disks(&self) -> (r: &Vec<Disk>)
        ensures
            disk_views(r@) == self@.disks,
    {
        &self.disks
    }

    /// The bound root folders of the movie services.
    pub fn radarr_paths(&self) -> (r: &Vec<PathBinding>)
        ensures
            binding_views(r@) == self@.radarr_paths,
    {
        &self.radarr_paths
    }

    /// The bound root folders of the series services.
    pub fn sonarr_paths(&self) -> (r: &Vec<PathBinding>)
        ensures
            binding_views(r@) == self@.sonarr_paths,
    {
        &self.sonarr_paths
    }

    pub(crate) fn disk(&self, i: usize) -> (r: Disk)
        requires
            i < self@.disks.len(),
        ensures
            r@ == self@.disks[i as int],
    {
        self.disks[i]
    }

    /// The position of the first pool that answers to a key.
    pub fn disk_position(&self, key: DiskKey) -> (r: Option<usize>)
        ensures
            match r {
                Some(i) => find_disk(self@.disks, key) == Some(i as int),
                None => find_disk(self@.disks, key) is None,
            },
    {
        let mut i: usize = 0;
        while i < self.disks.len()
            invariant
                i <= self.disks.len(),
                find_disk(self@.disks, key) == find_disk_from(self@.disks, key, i as int),
            decreases self.disks.len() - i,
        {
            let hit = match key {
                DiskKey::Id(id) => self.disks[i].get_id() == id,
                DiskKey::Capacity(capacity) => self.disks[i].get_free_space() == capacity,
            };
            if hit {
                return Some(i);
            }
            i += 1;
        }
        None
    }

    /// The greatest pool id in use; 0 where there is none above it.
    pub fn greatest_disk_id(&self) -> (r: i32)
        ensures
            r == greatest_id(self@.disks),
    {
        let mut top: i32 = 0;
        let mut i: usize = 0;
        while i < self.disks.len()
            invariant
                i <= self.disks.len(),
                top == greatest_id(self@.disks.take(i as int)),
            decreases self.disks.len() - i,
        {
            assert(self@.disks.take(i + 1).drop_last() =~= self@.disks.take(i as int));
            if self.disks[i].get_id() > top {
                top = self.disks[i].get_id();
            }
            i += 1;
        }
        assert(self@.disks.take(i as int) =~= self@.disks);
        top
    }

    /// Whether pools can still be numbered for `count` more root folders, if
    /// each of them needs a new one.
    pub fn has_room(&self, count: usize) -> (r: bool)
        ensures
            r == (greatest_id(self@.disks) + count <= i32::MAX),
    {
        proof {
            lemma_greatest_id(self@.disks);
        }
        let left: i32 = i32::MAX - self.greatest_disk_id();
        count <= left as usize
    }

    pub(crate) fn next_disk_id(&self) -> (r: i32)
        requires
            greatest_id(self@.disks) < i32::MAX,
        ensures
            r == greatest_id(self@.disks) + 1,
    {
        self.greatest_disk_id() + 1
    }

    pub(crate) fn add_disk(&mut self, disk: Disk)
        requires
            old(self).wf(),
            disk@.id > greatest_id(old(self)@.disks),
        ensures
            final(self).wf(),
            final(self)@.disks == old(self)@.disks.push(disk@),
            final(self)@.radarr_paths == old(self)@.radarr_paths,
            final(self)@.sonarr_paths == old(self)@.sonarr_paths,
    {
        proof {
            lemma_greatest_id(self@.disks);
        }
        self.disks.push(disk);
        assert(self@.disks =~= old(self)@.disks.push(disk@));
    }

    pub(crate) fn bind(&mut self, kind: Acquirer, binding: PathBinding)
        requires
            old(self).wf(),
        ensures
            final(self).wf(),
            final(self)@.disks == old(self)@.disks,
            final(self)@.radarr_paths == (if kind == Acquirer::Radarr {
                bound(old(self)@.radarr_paths, binding@)
            } else {
                old(self)@.radarr_paths
            }),
            final(self)@.sonarr_paths == (if kind == Acquirer::Sonarr {
                bound(old(self)@.sonarr_paths, binding@)
            } else {
                old(self)@.sonarr_paths
            }),
    {
        match kind {
            Acquirer::Radarr => upsert_binding(&mut self.radarr_paths, binding),
            Acquirer::Sonarr => upsert_binding(&mut self.sonarr_paths, binding),
        }
    }

    /// Registers a root folder of an acquisition service instance: the pool
    /// of exactly the reported capacity is looked up, or created, and the
    /// folder is bound to it. A folder that was bound before moves to that pool.
    pub fn register_path(&mut self, kind: Acquirer, service_id: i32, path: &str, capacity: u64) -> (r:
        PathBinding)
        requires
            old(self).wf(),
            find_disk(old(self)@.disks, DiskKey::Capacity(capacity)) is None ==> greatest_id(
                old(self)@.disks,
            ) < i32::MAX,
        ensures
            final(self).wf(),
            final(self)@ == registered(old(self)@, kind, service_id, path@, capacity),
            r@ == registered_binding(old(self)@, service_id, path@, capacity),
            greatest_id(final(self)@.disks) <= greatest_id(old(self)@.disks) + 1,
    {
        let disk_id = match self.disk_position(DiskKey::Capacity(capacity)) {
            Some(i) => {
                proof {
                    lemma_find_disk(self@.disks, DiskKey::Capacity(capacity));
                }
                self.disks[i].get_id()
            },
            None => {
                let id = self.next_disk_id();
                let ghost before = self@.disks;
                self.add_disk(Disk::with_id(id, capacity));
                assert(self@.disks.drop_last() =~= before);
                id
            },
        };
        let binding = PathBinding { service_id, path: path.to_owned(), disk_id };
        self.bind(kind, binding.clone());
        binding
    }
}

} // verus!
