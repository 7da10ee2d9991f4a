//! The cache of used missiles: for each fleet file, by its path, the hash of
//! its content, the name of the fleet and the missile templates it holds.
//!
//! The cache answers which fleets use a template without reading any fleet.
//! It is brought up to date file by file: a file whose hash is the one the
//! cache holds is not read again.

use vstd::prelude::*;
use crate::error::Error;
use crate::hashing::content_hash;
use crate::merge::missiles_of;
use crate::missile_templates::identity::{missile_id, MissileTemplateId, MissileTemplateIdView};
use crate::schema::{Fleet, MissileTemplate};

verus! {

/// What the cache holds for one fleet file.
#[derive(Debug)]
pub struct FleetsUsedMissiles {
    /// The name of the fleet.
    pub name: String,
    /// The hash of the content of the file.
    pub hash: u64,
    /// The identities of the missile templates of the fleet, in order.
    pub used_missiles: Vec<MissileTemplateId>,
}

/// The view of a [`FleetsUsedMissiles`].
pub struct FleetsUsedMissilesView {
    pub name: Seq<char>,
    pub hash: u64,
    pub used_missiles: Seq<MissileTemplateIdView>,
}

impl FleetsUsedMissilesView {
    /// Whether the fleet holds a template of this identity.
    pub open spec fn uses(self, id: MissileTemplateIdView) -> bool {
        exists|k: int| 0 <= k < self.used_missiles.len() && (#[trigger] self.used_missiles[k]).same_as(id)
    }
}

/// The views of a list of identities.
pub open spec fn ids_view(ids: Seq<MissileTemplateId>) -> Seq<MissileTemplateIdView> {
    ids.map_values(|id: MissileTemplateId| id@)
}

/// The identities of a list of missile templates, in order.
pub open spec fn missile_ids(missiles: Seq<MissileTemplate>) -> Seq<MissileTemplateIdView> {
    missiles.map_values(|m: MissileTemplate| missile_id(m))
}

impl View for FleetsUsedMissiles {
    type V = FleetsUsedMissilesView;

    open spec fn view(&self) -> FleetsUsedMissilesView {
        FleetsUsedMissilesView {
            name: self.name@,
            hash: self.hash,
            used_missiles: ids_view(self.used_missiles@),
        }
    }
}

impl FleetsUsedMissiles {
    /// What the cache holds for a fleet whose file has the hash `hash`.
    pub fn from_fleet(hash: u64, fleet: &Fleet) -> (data: FleetsUsedMissiles)
        ensures
            data@ == (FleetsUsedMissilesView {
                name: fleet.name@,
                hash,
                used_missiles: missile_ids(missiles_of(*fleet)),
            }),
    {
        let mut used_missiles: Vec<MissileTemplateId> = Vec::new();
        match &fleet.missile_types {
            Some(missile_types) => {
                let missiles = &missile_types.missile_template;
                let mut i: usize = 0;
                while i < missiles.len()
                    invariant
                        i <= missiles.len(),
                        ids_view(used_missiles@) == missile_ids(missiles@.take(i as int)),
                    decreases missiles.len() - i,
                {
                    let ghost before = used_missiles@;
                    let id = MissileTemplateId::from_missile(&missiles[i]);
                    used_missiles.push(id);
                    proof {
                        assert(missiles@.take(i + 1) =~= missiles@.take(i as int).push(
                            missiles@[i as int],
                        ));
                        assert(ids_view(before.push(id)) =~= ids_view(before).push(id@));
                        assert(missile_ids(missiles@.take(i as int).push(missiles@[i as int]))
                            =~= missile_ids(missiles@.take(i as int)).push(
                            missile_id(missiles@[i as int]),
                        ));
                    }
                    i += 1;
                }
                proof {
                    assert(missiles@.take(missiles.len() as int) =~= missiles@);
                }
            },
            None => {
                proof {
                    assert(ids_view(used_missiles@) =~= missile_ids(Seq::empty()));
                }
            },
        }
        FleetsUsedMissiles { name: fleet.name.clone(), hash, used_missiles }
    }

    /// What the cache holds for the fleet read from a file with the content
    /// `bytes`; the hash is that of the content.
    pub fn from_fleet_file(bytes: &[u8], fleet: &Fleet) -> (data: FleetsUsedMissiles)
        ensures
            data@.name == fleet.name@,
            data@.used_missiles == missile_ids(missiles_of(*fleet)),
    {
        FleetsUsedMissiles::from_fleet(content_hash(bytes), fleet)
    }

    /// Whether the fleet holds a template of this identity.
    pub fn uses(&self, id: &MissileTemplateId) -> (res: bool)
        ensures
            res == self@.uses(id@),
    {
        let mut i: usize = 0;
        while i < self.used_missiles.len()
            invariant
                i <= self.used_missiles.len(),
                forall|k: int| 0 <= k < i ==> !(#[trigger] self@.used_missiles[k]).same_as(id@),
            decreases self.used_missiles.len() - i,
        {
            if self.used_missiles[i] == *id {
                proof {
                    assert(self@.used_missiles[i as int].same_as(id@));
                }
                return true;
            }
            i += 1;
        }
        false
    }
}

impl Clone for FleetsUsedMissiles {
    fn clone(&self) -> (res: Self)
        ensures
            res@ == self@,
    {
        let mut used_missiles: Vec<MissileTemplateId> = Vec::new();
        let mut i: usize = 0;
        while i < self.used_missiles.len()
            invariant
                i <= self.used_missiles.len(),
                ids_view(used_missiles@) == ids_view(self.used_missiles@.take(i as int)),
            decreases self.used_missiles.len() - i,
        {
            let ghost before = used_missiles@;
            let id = self.used_missiles[i].clone();
            used_missiles.push(id);
            proof {
                let own = self.used_missiles@;
                assert(own.take(i + 1) =~= own.take(i as int).push(own[i as int]));
                assert(ids_view(before.push(id)) =~= ids_view(before).push(id@));
                assert(ids_view(own.take(i as int).push(own[i as int])) =~= ids_view(
                    own.take(i as int),
                ).push(own[i as int]@));
            }
            i += 1;
        }
        proof {
            assert(self.used_missiles@.take(self.used_missiles.len() as int)
                =~= self.used_missiles@);
        }
        FleetsUsedMissiles { name: self.name.clone(), hash: self.hash, used_missiles }
    }
}

/// One entry of the cache: the path of a fleet file and what is held for it.
#[derive(Debug)]
pub struct CachedFleet {
    pub path: String,
    pub data: FleetsUsedMissiles,
}

/// Whether no path occurs twice.
pub open spec fn distinct_paths(entries: Seq<CachedFleet>) -> bool {
    forall|i: int, j: int|
        0 <= i < j < entries.len() ==> (#[trigger] entries[i]).path@ != (#[trigger] entries[j]).path@
}

/// The entries as a map from paths; a later entry wins over an earlier one.
pub open spec fn entries_map(entries: Seq<CachedFleet>) -> Map<Seq<char>, FleetsUsedMissilesView>
    decreases entries.len(),
{
    if entries.len() == 0 {
        Map::empty()
    } else {
        entries_map(entries.drop_last()).insert(entries.last().path@, entries.last().data@)
    }
}

/// The map holds a path where an entry has it.
pub proof fn lemma_map_keys(entries: Seq<CachedFleet>, path: Seq<char>)
    ensures
        entries_map(entries).contains_key(path) <==> exists|i: int|
            0 <= i < entries.len() && (#[trigger] entries[i]).path@ == path,
    decreases entries.len(),
{
    if entries.len() > 0 {
        let rest = entries.drop_last();
        lemma_map_keys(rest, path);
        if entries_map(entries).contains_key(path) {
            if entries.last().path@ == path {
                assert(entries[entries.len() - 1].path@ == path);
            } else {
                let i = choose|i: int| 0 <= i < rest.len() && (#[trigger] rest[i]).path@ == path;
                assert(entries[i].path@ == path);
            }
        }
        if exists|i: int| 0 <= i < entries.len() && (#[trigger] entries[i]).path@ == path {
            let i = choose|i: int| 0 <= i < entries.len() && (#[trigger] entries[i]).path@ == path;
            if i < entries.len() - 1 {
                assert(rest[i].path@ == path);
            }
        }
    }
}

/// Where no path occurs twice, the map holds for the path of each entry what
/// the entry holds.
pub proof fn lemma_map_value(entries: Seq<CachedFleet>, i: int)
    requires
        distinct_paths(entries),
        0 <= i < entries.len(),
    ensures
        entries_map(entries).contains_key(entries[i].path@),
        entries_map(entries)[entries[i].path@] == entries[i].data@,
    decreases entries.len(),
{
    let rest = entries.drop_last();
    if i < entries.len() - 1 {
        assert(distinct_paths(rest)) by {
            assert forall|a: int, b: int| 0 <= a < b < rest.len() implies (#[trigger] rest[a]).path@
                != (#[trigger] rest[b]).path@ by {
                assert(entries[a].path@ != entries[b].path@);
            }
        }
        lemma_map_value(rest, i);
        assert(entries[i].path@ != entries[entries.len() - 1].path@);
        assert(rest[i] == entries[i]);
    }
}

/// Where no path occurs twice, taking an entry out takes its path out of the
/// map, and still no path occurs twice.
pub proof fn lemma_map_remove(entries: Seq<CachedFleet>, i: int)
    requires
        distinct_paths(entries),
        0 <= i < entries.len(),
    ensures
        entries_map(entries.remove(i)) == entries_map(entries).remove(entries[i].path@),
        distinct_paths(entries.remove(i)),
    decreases entries.len(),
{
    let rest = entries.drop_last();
    let last = entries.last();
    let path = entries[i].path@;
    assert(distinct_paths(rest)) by {
        assert forall|a: int, b: int| 0 <= a < b < rest.len() implies (#[trigger] rest[a]).path@
            != (#[trigger] rest[b]).path@ by {
            assert(entries[a].path@ != entries[b].path@);
        }
    }
    assert(distinct_paths(entries.remove(i))) by {
        let removed = entries.remove(i);
        assert forall|a: int, b: int| 0 <= a < b < removed.len() implies (
        #[trigger] removed[a]).path@ != (#[trigger] removed[b]).path@ by {
            let a0 = if a < i {
                a
            } else {
                a + 1
            };
            let b0 = if b < i {
                b
            } else {
                b + 1
            };
            assert(removed[a] == entries[a0]);
            assert(removed[b] == entries[b0]);
            assert(entries[a0].path@ != entries[b0].path@);
        }
    }
    if i == entries.len() - 1 {
        assert(entries.remove(i) =~= rest);
        lemma_map_keys(rest, path);
        if entries_map(rest).contains_key(path) {
            let k = choose|k: int| 0 <= k < rest.len() && (#[trigger] rest[k]).path@ == path;
            assert(entries[k].path@ != entries[i].path@);
        }
        assert(entries_map(rest) =~= entries_map(entries).remove(path));
    } else {
        lemma_map_remove(rest, i);
        assert(rest[i] == entries[i]);
        assert(entries.remove(i).drop_last() =~= rest.remove(i));
        assert(entries.remove(i).last() == last);
        assert(entries[i].path@ != entries[entries.len() - 1].path@);
        assert(entries_map(entries.remove(i)) =~= entries_map(entries).remove(path));
    }
}

/// The cache of the missile templates that fleet files hold.
#[derive(Debug)]
pub struct UsedMissilesCache {
    fleets: Vec<CachedFleet>,
}

impl View for UsedMissilesCache {
    type V = Map<Seq<char>, FleetsUsedMissilesView>;

    closed spec fn view(&self) -> Map<Seq<char>, FleetsUsedMissilesView> {
        entries_map(self.fleets@)
    }
}

/// Whether a file with this path and hash has to be read again: the cache
/// holds nothing for the path, or holds another hash.
pub open spec fn needs_scan(
    cache: Map<Seq<char>, FleetsUsedMissilesView>,
    path: Seq<char>,
    hash: u64,
) -> bool {
    !(cache.contains_key(path) && cache[path].hash == hash)
}

/// A file that has been stored is not read again as long as its hash stays
/// the same, and is read again as soon as its hash changes.
pub proof fn lemma_unchanged_file_is_skipped(
    cache: Map<Seq<char>, FleetsUsedMissilesView>,
    path: Seq<char>,
    data: FleetsUsedMissilesView,
    hash: u64,
)
    ensures
        needs_scan(cache.insert(path, data), path, hash) <==> hash != data.hash,
{
}

/// A scan does not read as a fleet a fleet file that it has stored, as long
/// as the hash of the file stays the same, and does so as soon as it changes.
pub proof fn lemma_unchanged_file_is_not_parsed(
    cache: Map<Seq<char>, FleetsUsedMissilesView>,
    path: Seq<char>,
    data: FleetsUsedMissilesView,
    hash: u64,
)
    ensures
        scan_action(
            false,
            false,
            true,
            true,
            Some(needs_scan(cache.insert(path, data), path, hash)),
        ) == if hash == data.hash {
            ScanAction::Skip
        } else {
            ScanAction::Parse
        },
{
}

/// Storing one file changes nothing of what the cache holds for another.
pub proof fn lemma_other_files_untouched(
    cache: Map<Seq<char>, FleetsUsedMissilesView>,
    path: Seq<char>,
    data: FleetsUsedMissilesView,
    other: Seq<char>,
    hash: u64,
)
    requires
        other != path,
    ensures
        needs_scan(cache.insert(path, data), other, hash) == needs_scan(cache, other, hash),
        cache.insert(path, data).contains_key(other) == cache.contains_key(other),
        cache.contains_key(other) ==> cache.insert(path, data)[other] == cache[other],
{
}

/// What a scan does with an entry of a directory.
#[derive(Clone, Copy, Debug, PartialEq, Eq, Structural)]
pub enum ScanAction {
    /// Pass the entry over.
    Skip,
    /// Scan the entries of the directory.
    Descend,
    /// Read the content of the file, to tell whether it has changed.
    Read,
    /// Read the file as a fleet, and hold it anew.
    Parse,
}

/// What a scan does with an entry: it passes over what a pattern leaves out,
/// descends into a directory, and passes over a file that is no fleet file.
/// A fleet file it reads as long as it is not known whether the file is
/// stale, reads it as a fleet where it is stale, and passes it over where
/// it is not.
pub open spec fn scan_action(
    excluded: bool,
    is_dir: bool,
    is_file: bool,
    fleet_file: bool,
    stale: Option<bool>,
) -> ScanAction {
    if excluded {
        ScanAction::Skip
    } else if is_dir {
        ScanAction::Descend
    } else if !is_file || !fleet_file {
        ScanAction::Skip
    } else {
        match stale {
            None => ScanAction::Read,
            Some(true) => ScanAction::Parse,
            Some(false) => ScanAction::Skip,
        }
    }
}

/// Decides what a scan does with an entry of a directory.
pub fn scan_step(
    excluded: bool,
    is_dir: bool,
    is_file: bool,
    fleet_file: bool,
    stale: Option<bool>,
) -> (action: ScanAction)
    ensures
        action == scan_action(excluded, is_dir, is_file, fleet_file, stale),
{
    if excluded {
        ScanAction::Skip
    } else if is_dir {
        ScanAction::Descend
    } else if !is_file || !fleet_file {
        ScanAction::Skip
    } else {
        match stale {
            None => ScanAction::Read,
            Some(true) => ScanAction::Parse,
            Some(false) => ScanAction::Skip,
        }
    }
}

/// A fleet file found by a scan: its path, the hash of its content and the
/// outcome of reading it.
#[derive(Debug)]
pub struct ScannedFleet {
    pub path: String,
    pub hash: u64,
    pub fleet: Result<Fleet, Error>,
}

/// What the cache holds for a fleet read from a file with the hash `hash`.
pub open spec fn held_for(hash: u64, fleet: Fleet) -> FleetsUsedMissilesView {
    FleetsUsedMissilesView {
        name: fleet.name@,
        hash,
        used_missiles: missile_ids(missiles_of(fleet)),
    }
}

/// The paths of the files that are no longer there.
pub open spec fn missing_paths(missing: Seq<String>) -> Set<Seq<char>> {
    Set::new(|path: Seq<char>| exists|k: int| 0 <= k < missing.len() && (#[trigger] missing[k])@ == path)
}

/// The cache after the files of a scan: each file that was read is held in
/// place of what was held for its path, in the order of the scan, and a
/// file that could not be read is passed over.
pub open spec fn after_scan(
    cache: Map<Seq<char>, FleetsUsedMissilesView>,
    scanned: Seq<ScannedFleet>,
) -> Map<Seq<char>, FleetsUsedMissilesView>
    decreases scanned.len(),
{
    if scanned.len() == 0 {
        cache
    } else {
        let before = after_scan(cache, scanned.drop_last());
        match scanned.last().fleet {
            Ok(fleet) => before.insert(scanned.last().path@, held_for(scanned.last().hash, fleet)),
            Err(_) => before,
        }
    }
}

/// A scan that finds a file unchanged leaves what the cache holds for it as
/// it is: only the files that the scan read again are held anew.
pub proof fn lemma_scan_keeps_other_files(
    cache: Map<Seq<char>, FleetsUsedMissilesView>,
    scanned: Seq<ScannedFleet>,
    path: Seq<char>,
)
    requires
        forall|k: int| 0 <= k < scanned.len() ==> (#[trigger] scanned[k]).path@ != path,
    ensures
        after_scan(cache, scanned).contains_key(path) == cache.contains_key(path),
        cache.contains_key(path) ==> after_scan(cache, scanned)[path] == cache[path],
    decreases scanned.len(),
{
    if scanned.len() > 0 {
        let rest = scanned.drop_last();
        assert forall|k: int| 0 <= k < rest.len() implies (#[trigger] rest[k]).path@ != path by {
            assert(scanned[k].path@ != path);
        }
        lemma_scan_keeps_other_files(cache, rest, path);
        assert(scanned[scanned.len() - 1].path@ != path);
    }
}

impl UsedMissilesCache {
    /// Whether the cache is valid: no path occurs twice.
    pub closed spec fn wf(&self) -> bool {
        distinct_paths(self.fleets@)
    }

    /// An empty cache.
    pub fn new() -> (cache: UsedMissilesCache)
        ensures
            cache.wf(),
            cache@ == Map::<Seq<char>, FleetsUsedMissilesView>::empty(),
    {
        UsedMissilesCache { fleets: Vec::new() }
    }

    /// The number of fleet files the cache holds.
    pub fn len(&self) -> (n: usize)
        requires
            self.wf(),
        ensures
            n == self@.dom().len(),
            self@.dom().finite(),
    {
        proof {
            self.lemma_dom_len();
        }
        self.fleets.len()
    }

    proof fn lemma_dom_len(&self)
        requires
            self.wf(),
        ensures
            self@.dom().finite(),
            self@.dom().len() == self.fleets@.len(),
    {
        lemma_entries_dom(self.fleets@);
    }

    /// The place of the entry for `path`.
    fn find(&self, path: &str) -> (place: Option<usize>)
        ensures
            match place {
                Some(i) => i < self.fleets.len() && self.fleets[i as int].path@ == path@,
                None => forall|i: int|
                    0 <= i < self.fleets.len() ==> (#[trigger] self.fleets[i]).path@ != path@,
            },
    {
        let mut i: usize = 0;
        while i < self.fleets.len()
            invariant
                i <= self.fleets.len(),
                forall|k: int| 0 <= k < i ==> (#[trigger] self.fleets[k]).path@ != path@,
            decreases self.fleets.len() - i,
        {
            if crate::text::str_eq(self.fleets[i].path.as_str(), path) {
                return Some(i);
            }
            i += 1;
        }
        None
    }

    /// What the cache holds for the file at `path`.
    pub fn get(&self, path: &str) -> (data: Option<&FleetsUsedMissiles>)
        requires
            self.wf(),
        ensures
            match data {
                Some(data) => self@.contains_key(path@) && self@[path@] == data@,
                None => !self@.contains_key(path@),
            },
    {
        proof {
            lemma_map_keys(self.fleets@, path@);
        }
        match self.find(path) {
            Some(i) => {
                proof {
                    lemma_map_value(self.fleets@, i as int);
                }
                Some(&self.fleets[i].data)
            },
            None => None,
        }
    }

    /// Takes the file at `path` out of the cache; tells whether it was there.
    pub fn remove(&mut self, path: &str) -> (removed: bool)
        requires
            old(self).wf(),
        ensures
            final(self).wf(),
            final(self)@ == old(self)@.remove(path@),
            removed == old(self)@.contains_key(path@),
    {
        proof {
            lemma_map_keys(self.fleets@, path@);
        }
        match self.find(path) {
            Some(i) => {
                proof {
                    lemma_map_remove(self.fleets@, i as int);
                }
                self.fleets.remove(i);
                true
            },
            None => {
                proof {
                    assert(self@ =~= self@.remove(path@));
                }
                false
            },
        }
    }

    /// Holds `data` for the file at `path`, in place of what was held for it.
    pub fn insert(&mut self, path: String, data: FleetsUsedMissiles)
        requires
            old(self).wf(),
        ensures
            final(self).wf(),
            final(self)@ == old(self)@.insert(path@, data@),
    {
        self.remove(path.as_str());
        let ghost before = self.fleets@;
        proof {
            lemma_map_keys(before, path@);
        }
        let entry = CachedFleet { path, data };
        self.fleets.push(entry);
        proof {
            assert(self.fleets@.drop_last() =~= before);
            assert(self@ =~= old(self)@.insert(path@, data@));
            assert forall|a: int, b: int| 0 <= a < b < self.fleets@.len() implies (
            #[trigger] self.fleets@[a]).path@ != (#[trigger] self.fleets@[b]).path@ by {
                if b < before.len() {
                    assert(before[a].path@ != before[b].path@);
                } else {
                    assert(before[a].path@ != path@);
                }
            }
        }
    }

    /// Takes out of the cache every file of `missing`: the files that are no
    /// longer there.
    pub fn purge(&mut self, missing: &Vec<String>)
        requires
            old(self).wf(),
        ensures
            final(self).wf(),
            forall|path: Seq<char>|
                final(self)@.contains_key(path) <==> old(self)@.contains_key(path) && !exists|
                    k: int,
                | 0 <= k < missing.len() && (#[trigger] missing[k])@ == path,
            forall|path: Seq<char>|
                final(self)@.contains_key(path) ==> final(self)@[path] == old(self)@[path],
    {
        let mut i: usize = 0;
        while i < missing.len()
            invariant
                i <= missing.len(),
                self.wf(),
                forall|path: Seq<char>|
                    self@.contains_key(path) <==> old(self)@.contains_key(path) && !exists|k: int|
                        0 <= k < i && (#[trigger] missing[k])@ == path,
                forall|path: Seq<char>|
                    self@.contains_key(path) ==> self@[path] == old(self)@[path],
            decreases missing.len() - i,
        {
            let ghost before = self@;
            self.remove(missing[i].as_str());
            proof {
                assert forall|path: Seq<char>| self@.contains_key(path) <==> old(
                    self,
                )@.contains_key(path) && !exists|k: int|
                    0 <= k < i + 1 && (#[trigger] missing[k])@ == path by {
                    if path == missing[i as int]@ {
                        assert(!self@.contains_key(path));
                    } else {
                        assert(self@.contains_key(path) == before.contains_key(path));
                        if exists|k: int| 0 <= k < i + 1 && (#[trigger] missing[k])@ == path {
                            let k = choose|k: int|
                                0 <= k < i + 1 && (#[trigger] missing[k])@ == path;
                            assert(k < i);
                        }
                    }
                }
            }
            i += 1;
        }
    }

    /// Whether the file at `path`, whose content has the hash `hash`, has to
    /// be read again.
    pub fn needs_scan(&self, path: &str, hash: u64) -> (stale: bool)
        requires
            self.wf(),
        ensures
            stale == needs_scan(self@, path@, hash),
    {
        match self.get(path) {
            Some(data) => data.hash != hash,
            None => true,
        }
    }

    /// Whether the file at `path` with the content `bytes` has to be read
    /// again, and the hash of the content.
    pub fn check_file(&self, path: &str, bytes: &[u8]) -> (res: (bool, u64))
        requires
            self.wf(),
        ensures
            res.0 == needs_scan(self@, path@, res.1),
    {
        let hash = content_hash(bytes);
        (self.needs_scan(path, hash), hash)
    }

    /// Holds for the file at `path`, whose content has the hash `hash`, what
    /// the fleet read from it holds.
    pub fn store(&mut self, path: String, hash: u64, fleet: &Fleet)
        requires
            old(self).wf(),
        ensures
            final(self).wf(),
            final(self)@ == old(self)@.insert(path@, held_for(hash, *fleet)),
    {
        self.insert(path, FleetsUsedMissiles::from_fleet(hash, fleet));
    }

    /// Brings the cache up to date: takes out the files of `missing`, those
    /// that are no longer there, then holds anew each file of `scanned`,
    /// those that a scan found new or changed, as far as it could be read.
    pub fn update(&mut self, missing: &Vec<String>, scanned: &Vec<ScannedFleet>)
        requires
            old(self).wf(),
        ensures
            final(self).wf(),
            final(self)@ == after_scan(old(self)@.remove_keys(missing_paths(missing@)), scanned@),
    {
        self.purge(missing);
        proof {
            assert(self@ =~= old(self)@.remove_keys(missing_paths(missing@)));
        }
        let ghost purged = self@;
        let mut i: usize = 0;
        proof {
            assert(scanned@.take(0) =~= Seq::empty());
        }
        while i < scanned.len()
            invariant
                i <= scanned.len(),
                self.wf(),
                self@ == after_scan(purged, scanned@.take(i as int)),
            decreases scanned.len() - i,
        {
            proof {
                assert(scanned@.take(i + 1).drop_last() =~= scanned@.take(i as int));
                assert(scanned@.take(i + 1).last() == scanned@[i as int]);
            }
            match &scanned[i].fleet {
                Ok(fleet) => {
                    self.store(scanned[i].path.clone(), scanned[i].hash, fleet);
                },
                Err(_) => {},
            }
            i += 1;
        }
        proof {
            assert(scanned@.take(scanned.len() as int) =~= scanned@);
        }
    }

    /// A cache made from the files of a scan.
    pub fn generate_from_fleets(scanned: &Vec<ScannedFleet>) -> (cache: UsedMissilesCache)
        ensures
            cache.wf(),
            cache@ == after_scan(Map::empty(), scanned@),
    {
        let mut cache = UsedMissilesCache::new();
        cache.update(&Vec::new(), scanned);
        proof {
            assert(Map::<Seq<char>, FleetsUsedMissilesView>::empty().remove_keys(
                missing_paths(Seq::empty()),
            ) =~= Map::empty());
        }
        cache
    }

    /// The paths of the fleet files the cache holds, each once.
    pub fn paths(&self) -> (paths: Vec<String>)
        requires
            self.wf(),
        ensures
            paths.len() == self@.dom().len(),
            forall|path: Seq<char>|
                self@.contains_key(path) <==> exists|k: int|
                    0 <= k < paths.len() && (#[trigger] paths[k])@ == path,
            forall|a: int, b: int|
                0 <= a < b < paths.len() ==> (#[trigger] paths[a])@ != (#[trigger] paths[b])@,
    {
        let mut paths: Vec<String> = Vec::new();
        let mut i: usize = 0;
        while i < self.fleets.len()
            invariant
                i <= self.fleets.len(),
                paths.len() == i,
                forall|k: int| 0 <= k < i ==> (#[trigger] paths[k])@ == self.fleets[k].path@,
            decreases self.fleets.len() - i,
        {
            paths.push(self.fleets[i].path.clone());
            i += 1;
        }
        proof {
            self.lemma_dom_len();
            assert forall|path: Seq<char>| self@.contains_key(path) <==> exists|k: int|
                0 <= k < paths.len() && (#[trigger] paths[k])@ == path by {
                lemma_map_keys(self.fleets@, path);
                if self@.contains_key(path) {
                    let k = choose|k: int|
                        0 <= k < self.fleets.len() && (#[trigger] self.fleets[k]).path@ == path;
                    assert(paths[k]@ == path);
                }
                if exists|k: int| 0 <= k < paths.len() && (#[trigger] paths[k])@ == path {
                    let k = choose|k: int| 0 <= k < paths.len() && (#[trigger] paths[k])@ == path;
                    assert(self.fleets[k].path@ == path);
                }
            }
            assert forall|a: int, b: int| 0 <= a < b < paths.len() implies (#[trigger] paths[a])@
                != (#[trigger] paths[b])@ by {
                assert(self.fleets[a].path@ != self.fleets[b].path@);
            }
        }
        paths
    }

    /// The paths of the fleet files that hold a template of this identity,
    /// each once.
    pub fn fleets_using(&self, id: &MissileTemplateId) -> (paths: Vec<String>)
        requires
            self.wf(),
        ensures
            forall|path: Seq<char>|
                (self@.contains_key(path) && self@[path].uses(id@)) <==> exists|k: int|
                    0 <= k < paths.len() && (#[trigger] paths[k])@ == path,
            forall|a: int, b: int|
                0 <= a < b < paths.len() ==> (#[trigger] paths[a])@ != (#[trigger] paths[b])@,
    {
        let mut paths: Vec<String> = Vec::new();
        let ghost mut places: Seq<int> = Seq::empty();
        let mut i: usize = 0;
        while i < self.fleets.len()
            invariant
                i <= self.fleets.len(),
                places.len() == paths.len(),
                forall|k: int|
                    0 <= k < places.len() ==> 0 <= (#[trigger] places[k]) < i && paths[k]@
                        == self.fleets[places[k]].path@ && self.fleets[places[k]].data@.uses(id@),
                forall|a: int, b: int|
                    0 <= a < b < places.len() ==> (#[trigger] places[a]) < (#[trigger] places[b]),
                forall|j: int|
                    0 <= j < i && (#[trigger] self.fleets[j]).data@.uses(id@) ==> exists|k: int|
                        0 <= k < paths.len() && (#[trigger] paths[k])@ == self.fleets[j].path@,
            decreases self.fleets.len() - i,
        {
            if self.fleets[i].data.uses(id) {
                let ghost before = paths@;
                let path = self.fleets[i].path.clone();
                paths.push(path);
                proof {
                    places = places.push(i as int);
                    assert forall|j: int|
                        0 <= j < i + 1 && (#[trigger] self.fleets[j]).data@.uses(
                            id@,
                        ) implies exists|k: int|
                        0 <= k < paths.len() && (#[trigger] paths[k])@ == self.fleets[j].path@ by {
                        if j < i {
                            let k = choose|k: int|
                                0 <= k < before.len() && (#[trigger] before[k])@
                                    == self.fleets[j].path@;
                            assert(paths[k]@ == self.fleets[j].path@);
                        } else {
                            assert(paths[paths.len() - 1]@ == self.fleets[j].path@);
                        }
                    }
                }
            }
            i += 1;
        }
        proof {
            assert forall|path: Seq<char>|
                (self@.contains_key(path) && self@[path].uses(id@)) <==> exists|k: int|
                    0 <= k < paths.len() && (#[trigger] paths[k])@ == path by {
                lemma_map_keys(self.fleets@, path);
                if self@.contains_key(path) && self@[path].uses(id@) {
                    let j = choose|j: int|
                        0 <= j < self.fleets.len() && (#[trigger] self.fleets[j]).path@ == path;
                    lemma_map_value(self.fleets@, j);
                    assert(self.fleets[j].data@.uses(id@));
                }
                if exists|k: int| 0 <= k < paths.len() && (#[trigger] paths[k])@ == path {
                    let k = choose|k: int| 0 <= k < paths.len() && (#[trigger] paths[k])@ == path;
                    let j = places[k];
                    lemma_map_value(self.fleets@, j);
                    assert(self.fleets[j].path@ == path);
                }
            }
            assert forall|a: int, b: int| 0 <= a < b < paths.len() implies (#[trigger] paths[a])@
                != (#[trigger] paths[b])@ by {
                assert(places[a] < places[b]);
                assert(self.fleets[places[a]].path@ != self.fleets[places[b]].path@);
            }
        }
        paths
    }
}

/// Where no path occurs twice, the map has as many paths as there are
/// entries.
pub proof fn lemma_entries_dom(entries: Seq<CachedFleet>)
    requires
        distinct_paths(entries),
    ensures
        entries_map(entries).dom().finite(),
        entries_map(entries).dom().len() == entries.len(),
    decreases entries.len(),
{
    if entries.len() > 0 {
        let rest = entries.drop_last();
        assert(distinct_paths(rest)) by {
            assert forall|a: int, b: int| 0 <= a < b < rest.len() implies (#[trigger] rest[a]).path@
                != (#[trigger] rest[b]).path@ by {
                assert(entries[a].path@ != entries[b].path@);
            }
        }
        lemma_entries_dom(rest);
        let path = entries.last().path@;
        lemma_map_keys(rest, path);
        if entries_map(rest).contains_key(path) {
            let k = choose|k: int| 0 <= k < rest.len() && (#[trigger] rest[k]).path@ == path;
            assert(entries[k].path@ != entries[entries.len() - 1].path@);
        }
        assert(entries_map(entries).dom() =~= entries_map(rest).dom().insert(path));
    }
}

} // verus!
