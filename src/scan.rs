//! The scan session: an append-only table of directories, an index that
//! groups files by content fingerprint, and a log of the entries skipped.

use std::collections::HashMap;
use vstd::prelude::*;
use crate::fingerprint::{Fingerprint, sha256_digest};

verus! {

broadcast use vstd::std_specs::hash::group_hash_axioms;

/// A discovered directory or file: its entry name and the id of the directory
/// holding it. A scan root holds its own id.
pub struct DupeScanItem {
    pub name: String,
    pub parent_id: usize,
}

/// The files found with one fingerprint, in discovery order.
pub struct DupeGroup {
    pub fingerprint: Fingerprint,
    pub files: Vec<DupeScanItem>,
}

/// Why an entry was left out of the scan.
#[derive(Clone, Copy, Debug, PartialEq, Eq, Structural)]
pub enum SkipReason {
    /// Its metadata, content or listing could not be read.
    Unreadable,
    /// It is neither a regular file nor a directory.
    UnsupportedType,
}

/// An entry that the scan passed over.
pub struct SkippedEntry {
    pub name: String,
    pub parent_id: usize,
    pub reason: SkipReason,
}

/// What the walker learned of one entry under a directory.
pub enum EntryOutcome {
    /// A regular file whose whole content hashed to this fingerprint.
    File(Fingerprint),
    /// A directory whose listing was opened.
    Directory,
    /// Neither a regular file nor a directory.
    Unsupported,
    /// Reading the entry, its metadata, content or listing failed.
    Failed,
}

/// The kind of a directory entry, as its metadata gives it.
#[derive(Clone, Copy, Debug, PartialEq, Eq, Structural)]
pub enum EntryKind {
    File,
    Directory,
    Unsupported,
}

impl EntryKind {
    /// A regular file is hashed, a directory is descended into, anything else
    /// (symlink, device, pipe, socket) is unsupported.
    pub fn classify(is_file: bool, is_dir: bool) -> (r: EntryKind)
        ensures
            is_file ==> r == EntryKind::File,
            !is_file && is_dir ==> r == EntryKind::Directory,
            !is_file && !is_dir ==> r == EntryKind::Unsupported,
    {
        if is_file {
            EntryKind::File
        } else if is_dir {
            EntryKind::Directory
        } else {
            EntryKind::Unsupported
        }
    }
}

/// Every directory's parent was registered no later than itself; a root is
/// its own parent.
pub open spec fn is_forest(dirs: Seq<DupeScanItem>) -> bool {
    forall|i: int| 0 <= i < dirs.len() ==> #[trigger] dirs[i].parent_id <= i
}

/// Fingerprints are unique across groups, no group is empty, and every file
/// lies in one of `n_dirs` directories.
pub open spec fn is_index(groups: Seq<DupeGroup>, n_dirs: nat) -> bool {
    &&& forall|i: int, j: int|
        0 <= i < groups.len() && 0 <= j < groups.len() && i != j
            ==> #[trigger] groups[i].fingerprint@ != #[trigger] groups[j].fingerprint@
    &&& forall|i: int| 0 <= i < groups.len() ==> #[trigger] groups[i].files@.len() > 0
    &&& forall|i: int, k: int|
        0 <= i < groups.len() && 0 <= k < groups[i].files@.len()
            ==> #[trigger] groups[i].files@[k].parent_id < n_dirs
}

/// `after` is the index `before` with `item` recorded under `fingerprint` in
/// the group at position `g`: appended to that fingerprint's group, or, where
/// there was none, to a new group at the end.
pub open spec fn records_at(
    before: Seq<DupeGroup>,
    after: Seq<DupeGroup>,
    fingerprint: Seq<u8>,
    item: DupeScanItem,
    g: int,
) -> bool {
    &&& 0 <= g < after.len()
    &&& after[g].fingerprint@ == fingerprint
    &&& forall|i: int| 0 <= i < before.len() && i != g ==> #[trigger] after[i] == before[i]
    &&& if g < before.len() {
        &&& before[g].fingerprint@ == fingerprint
        &&& after.len() == before.len()
        &&& after[g].files@ == before[g].files@.push(item)
    } else {
        &&& forall|i: int| 0 <= i < before.len() ==> #[trigger] before[i].fingerprint@ != fingerprint
        &&& g == before.len()
        &&& after.len() == before.len() + 1
        &&& after[g].files@ == seq![item]
    }
}

/// A group that holds more than one file.
pub open spec fn is_duplicate(g: DupeGroup) -> bool {
    g.files@.len() >= 2
}

/// The bucket of a fingerprint in the lookup table: its first eight bytes,
/// little-endian.
pub open spec fn bucket_of(fingerprint: Seq<u8>) -> u64 {
    (fingerprint[0] as u64)
    | ((fingerprint[1] as u64) << 8u64)
    | ((fingerprint[2] as u64) << 16u64)
    | ((fingerprint[3] as u64) << 24u64)
    | ((fingerprint[4] as u64) << 32u64)
    | ((fingerprint[5] as u64) << 40u64)
    | ((fingerprint[6] as u64) << 48u64)
    | ((fingerprint[7] as u64) << 56u64)
}

fn bucket_key(fingerprint: &Fingerprint) -> (r: u64)
    ensures
        r == bucket_of(fingerprint@),
{
    (fingerprint[0] as u64)
    | ((fingerprint[1] as u64) << 8u64)
    | ((fingerprint[2] as u64) << 16u64)
    | ((fingerprint[3] as u64) << 24u64)
    | ((fingerprint[4] as u64) << 32u64)
    | ((fingerprint[5] as u64) << 40u64)
    | ((fingerprint[6] as u64) << 48u64)
    | ((fingerprint[7] as u64) << 56u64)
}

/// `positions` holds position `g`.
pub open spec fn lists(positions: Seq<usize>, g: int) -> bool {
    exists|i: int| 0 <= i < positions.len() && #[trigger] positions[i] as int == g
}

fn same_fingerprint(a: &Fingerprint, b: &Fingerprint) -> (r: bool)
    ensures
        r == (a@ == b@),
{
    let mut i: usize = 0;
    while i < 32
        invariant
            0 <= i <= 32,
            a@.len() == 32,
            b@.len() == 32,
            forall|k: int| 0 <= k < i ==> a@[k] == b@[k],
        decreases 32 - i,
    {
        if a[i] != b[i] {
            return false;
        }
        i = i + 1;
    }
    assert(a@ =~= b@);
    true
}

/// One scan session over any number of roots.
pub struct DupeScan {
    dirs: Vec<DupeScanItem>,
    groups: Vec<DupeGroup>,
    skipped: Vec<SkippedEntry>,
    /// For each bucket, the positions of the groups whose fingerprint falls in it.
    buckets: HashMap<u64, Vec<usize>>,
}

impl DupeScan {
    /// The directory table: a directory's id is its position.
    pub closed spec fn dir_table(&self) -> Seq<DupeScanItem> {
        self.dirs@
    }

    /// The duplicate index: one group per fingerprint, in order of first sight.
    pub closed spec fn groups(&self) -> Seq<DupeGroup> {
        self.groups@
    }

    /// The entries skipped, in order.
    pub closed spec fn skip_log(&self) -> Seq<SkippedEntry> {
        self.skipped@
    }

    /// Every group is listed under its fingerprint's bucket, and every
    /// position listed is a group's.
    pub closed spec fn buckets_wf(&self) -> bool {
        &&& forall|g: int|
            0 <= g < self.groups@.len() ==> {
                let k = bucket_of(#[trigger] self.groups@[g].fingerprint@);
                self.buckets@.contains_key(k) && lists(self.buckets@[k]@, g)
            }
        &&& forall|k: u64, j: int|
            self.buckets@.contains_key(k) && 0 <= j < self.buckets@[k]@.len() ==> #[trigger] self.buckets@[k]@[j]
                < self.groups@.len()
    }

    /// The session's invariant: the directory table is a forest, the index
    /// keeps one group per fingerprint over known directories, and the lookup
    /// table lists every group.
    pub open spec fn wf(&self) -> bool {
        &&& is_forest(self.dir_table())
        &&& is_index(self.groups(), self.dir_table().len())
        &&& self.buckets_wf()
    }

    /// An empty session.
    pub fn new() -> (r: DupeScan)
        ensures
            r.wf(),
            r.dir_table().len() == 0,
            r.groups().len() == 0,
            r.skip_log().len() == 0,
    {
        DupeScan {
            dirs: Vec::new(),
            groups: Vec::new(),
            skipped: Vec::new(),
            buckets: HashMap::new(),
        }
    }

    /// The directory table, indexed by id.
    pub fn directories(&self) -> (r: &Vec<DupeScanItem>)
        ensures
            r@ == self.dir_table(),
    {
        &self.dirs
    }

    /// Every group of the index, singletons included, in order of first sight.
    pub fn index(&self) -> (r: &Vec<DupeGroup>)
        ensures
            r@ == self.groups(),
    {
        &self.groups
    }

    /// The entries skipped so far, in order.
    pub fn skipped(&self) -> (r: &Vec<SkippedEntry>)
        ensures
            r@ == self.skip_log(),
    {
        &self.skipped
    }

    /// The group of files whose content has `fingerprint`, if any.
    pub fn group_of(&self, fingerprint: &Fingerprint) -> (r: Option<&DupeGroup>)
        requires
            self.wf(),
        ensures
            match r {
                Some(g) => exists|i: int|
                    0 <= i < self.groups().len() && #[trigger] self.groups()[i] == *g
                        && g.fingerprint@ == fingerprint@,
                None => forall|i: int|
                    0 <= i < self.groups().len() ==> #[trigger] self.groups()[i].fingerprint@
                        != fingerprint@,
            },
    {
        match self.find_group(fingerprint) {
            Some(i) => Some(&self.groups[i]),
            None => None,
        }
    }

    /// The groups that hold two files or more, in index order.
    pub fn groups_with_duplicates(&self) -> (r: Vec<&DupeGroup>)
        ensures
            r@.map_values(|g: &DupeGroup| *g) == self.groups().filter(|g: DupeGroup| is_duplicate(g)),
    {
        let mut r: Vec<&DupeGroup> = Vec::new();
        let mut i: usize = 0;
        while i < self.groups.len()
            invariant
                0 <= i <= self.groups@.len(),
                r@.map_values(|g: &DupeGroup| *g) == self.groups@.take(i as int).filter(
                    |g: DupeGroup| is_duplicate(g),
                ),
            decreases self.groups@.len() - i,
        {
            proof {
                let pred = |g: DupeGroup| is_duplicate(g);
                let next = self.groups@.take(i + 1);
                assert(next.drop_last() =~= self.groups@.take(i as int));
                assert(next.last() == self.groups@[i as int]);
                reveal(Seq::filter);
                assert(next.filter(pred) == if pred(next.last()) {
                    next.drop_last().filter(pred).push(next.last())
                } else {
                    next.drop_last().filter(pred)
                });
            }
            let g = &self.groups[i];
            if g.files.len() >= 2 {
                let ghost before = r@;
                r.push(g);
                assert(r@.map_values(|g: &DupeGroup| *g) =~= before.map_values(|g: &DupeGroup| *g).push(
                    *g,
                ));
            }
            i = i + 1;
        }
        assert(self.groups@.take(self.groups@.len() as int) =~= self.groups@);
        r
    }

    /// The ids from directory `id` up its parent chain to its scan root: each
    /// is the parent of the one before, ids fall strictly, and the last is a
    /// root, its own parent.
    pub fn ancestors(&self, id: usize) -> (r: Vec<usize>)
        requires
            self.wf(),
            id < self.dir_table().len(),
        ensures
            r@.len() >= 1,
            r@[0] == id,
            forall|k: int| 0 <= k < r@.len() ==> #[trigger] r@[k] < self.dir_table().len(),
            forall|k: int|
                0 <= k < r@.len() - 1 ==> #[trigger] r@[k + 1] == self.dir_table()[r@[k] as int].parent_id
                    && r@[k + 1] < r@[k],
            self.dir_table()[r@.last() as int].parent_id == r@.last(),
    {
        let mut r: Vec<usize> = Vec::new();
        let mut cur: usize = id;
        r.push(cur);
        while self.dirs[cur].parent_id != cur
            invariant
                self.wf(),
                cur < self.dirs@.len(),
                r@.len() >= 1,
                r@[0] == id,
                r@.last() == cur,
                forall|k: int| 0 <= k < r@.len() ==> #[trigger] r@[k] < self.dirs@.len(),
                forall|k: int|
                    0 <= k < r@.len() - 1 ==> #[trigger] r@[k + 1] == self.dirs@[r@[k] as int].parent_id
                        && r@[k + 1] < r@[k],
            decreases cur,
        {
            assert(self.dirs@[cur as int].parent_id <= cur);
            cur = self.dirs[cur].parent_id;
            r.push(cur);
        }
        r
    }

    /// Registers a scan root under its path. Its id is the next free one and it
    /// is its own parent.
    pub fn register_root(&mut self, root_path: String) -> (r: usize)
        requires
            old(self).wf(),
        ensures
            final(self).wf(),
            r == old(self).dir_table().len(),
            final(self).dir_table() == old(self).dir_table().push(
                DupeScanItem { name: root_path, parent_id: r },
            ),
            final(self).groups() == old(self).groups(),
            final(self).skip_log() == old(self).skip_log(),
    {
        let id = self.dirs.len();
        self.dirs.push(DupeScanItem { name: root_path, parent_id: id });
        id
    }

    /// Registers a directory found under `parent_id`. Its id is the next free
    /// one, so it is greater than every id before it, its parent's included.
    pub fn register_dir(&mut self, name: String, parent_id: usize) -> (r: usize)
        requires
            old(self).wf(),
            parent_id < old(self).dir_table().len(),
        ensures
            final(self).wf(),
            r == old(self).dir_table().len(),
            parent_id < r,
            final(self).dir_table() == old(self).dir_table().push(DupeScanItem { name, parent_id }),
            final(self).groups() == old(self).groups(),
            final(self).skip_log() == old(self).skip_log(),
    {
        let id = self.dirs.len();
        self.dirs.push(DupeScanItem { name, parent_id });
        id
    }

    /// Notes an entry under `parent_id` that the scan passes over.
    pub fn skip(&mut self, name: String, parent_id: usize, reason: SkipReason)
        requires
            old(self).wf(),
        ensures
            final(self).wf(),
            final(self).dir_table() == old(self).dir_table(),
            final(self).groups() == old(self).groups(),
            final(self).skip_log() == old(self).skip_log().push(
                SkippedEntry { name, parent_id, reason },
            ),
    {
        self.skipped.push(SkippedEntry { name, parent_id, reason });
    }

    /// Takes in what was learned of one entry under directory `parent_id`.
    /// A hashed file joins the index, an opened directory is registered and its
    /// id returned for the walk to descend into; an unsupported or failed entry
    /// is logged and skipped, and the walk goes on with its siblings.
    pub fn scan_entry(&mut self, name: String, parent_id: usize, outcome: EntryOutcome) -> (r:
        Option<usize>)
        requires
            old(self).wf(),
            parent_id < old(self).dir_table().len(),
        ensures
            final(self).wf(),
            match outcome {
                EntryOutcome::File(fingerprint) => {
                    &&& r is None
                    &&& final(self).dir_table() == old(self).dir_table()
                    &&& final(self).skip_log() == old(self).skip_log()
                    &&& exists|g: int|
                        #[trigger] records_at(
                            old(self).groups(),
                            final(self).groups(),
                            fingerprint@,
                            DupeScanItem { name, parent_id },
                            g,
                        )
                },
                EntryOutcome::Directory => {
                    &&& r == Some(old(self).dir_table().len() as usize)
                    &&& final(self).dir_table() == old(self).dir_table().push(
                        DupeScanItem { name, parent_id },
                    )
                    &&& final(self).groups() == old(self).groups()
                    &&& final(self).skip_log() == old(self).skip_log()
                },
                EntryOutcome::Unsupported => {
                    &&& r is None
                    &&& final(self).dir_table() == old(self).dir_table()
                    &&& final(self).groups() == old(self).groups()
                    &&& final(self).skip_log() == old(self).skip_log().push(
                        SkippedEntry { name, parent_id, reason: SkipReason::UnsupportedType },
                    )
                },
                EntryOutcome::Failed => {
                    &&& r is None
                    &&& final(self).dir_table() == old(self).dir_table()
                    &&& final(self).groups() == old(self).groups()
                    &&& final(self).skip_log() == old(self).skip_log().push(
                        SkippedEntry { name, parent_id, reason: SkipReason::Unreadable },
                    )
                },
            },
    {
        match outcome {
            EntryOutcome::File(fingerprint) => {
                let _ = self.record_file(fingerprint, name, parent_id);
                None
            },
            EntryOutcome::Directory => Some(self.register_dir(name, parent_id)),
            EntryOutcome::Unsupported => {
                self.skip(name, parent_id, SkipReason::UnsupportedType);
                None
            },
            EntryOutcome::Failed => {
                self.skip(name, parent_id, SkipReason::Unreadable);
                None
            },
        }
    }

    /// The position of the group for `fingerprint`, if there is one.
    pub fn find_group(&self, fingerprint: &Fingerprint) -> (r: Option<usize>)
        requires
            self.wf(),
        ensures
            match r {
                Some(i) => i < self.groups().len() && self.groups()[i as int].fingerprint@
                    == fingerprint@,
                None => forall|i: int|
                    0 <= i < self.groups().len() ==> #[trigger] self.groups()[i].fingerprint@
                        != fingerprint@,
            },
    {
        let positions = match self.buckets.get(&bucket_key(fingerprint)) {
            Some(positions) => positions,
            None => {
                assert forall|g: int| 0 <= g < self.groups@.len() implies #[trigger] self.groups@[g].fingerprint@
                    != fingerprint@ by {
                    if self.groups@[g].fingerprint@ == fingerprint@ {
                        assert(self.buckets@.contains_key(bucket_of(self.groups@[g].fingerprint@)));
                    }
                }
                return None;
            },
        };
        let ghost key = bucket_of(fingerprint@);
        let mut j: usize = 0;
        while j < positions.len()
            invariant
                self.wf(),
                self.buckets@.contains_key(key),
                *positions == self.buckets@[key],
                0 <= j <= positions@.len(),
                forall|i: int|
                    0 <= i < j ==> #[trigger] self.groups@[positions@[i] as int].fingerprint@ != fingerprint@,
            decreases positions@.len() - j,
        {
            let p = positions[j];
            if same_fingerprint(&self.groups[p].fingerprint, fingerprint) {
                return Some(p);
            }
            j = j + 1;
        }
        assert forall|g: int| 0 <= g < self.groups@.len() implies #[trigger] self.groups@[g].fingerprint@
            != fingerprint@ by {
            if self.groups@[g].fingerprint@ == fingerprint@ {
                assert(bucket_of(self.groups@[g].fingerprint@) == key);
                assert(lists(positions@, g));
                let i = choose|i: int| 0 <= i < positions@.len() && positions@[i] as int == g;
                assert(self.groups@[positions@[i] as int].fingerprint@ != fingerprint@);
            }
        }
        None
    }

    /// Records a file under its content fingerprint: it joins the end of that
    /// fingerprint's group, or starts a new group at the end of the index.
    /// Returns the group's position.
    pub fn record_file(&mut self, fingerprint: Fingerprint, name: String, parent_id: usize) -> (r:
        usize)
        requires
            old(self).wf(),
            parent_id < old(self).dir_table().len(),
        ensures
            final(self).wf(),
            final(self).dir_table() == old(self).dir_table(),
            final(self).skip_log() == old(self).skip_log(),
            records_at(
                old(self).groups(),
                final(self).groups(),
                fingerprint@,
                DupeScanItem { name, parent_id },
                r as int,
            ),
    {
        let item = DupeScanItem { name, parent_id };
        match self.find_group(&fingerprint) {
            Some(i) => {
                self.groups[i].files.push(item);
                i
            },
            None => {
                let key = bucket_key(&fingerprint);
                let g = self.groups.len();
                let mut files: Vec<DupeScanItem> = Vec::with_capacity(1);
                files.push(item);
                self.groups.push(DupeGroup { fingerprint, files });
                let ghost old_buckets = self.buckets@;
                let mut positions = match self.buckets.remove(&key) {
                    Some(positions) => positions,
                    None => Vec::new(),
                };
                proof {
                    assert(old_buckets.contains_key(key) ==> positions == old_buckets[key]);
                }
                let ghost old_positions = positions@;
                positions.push(g);
                self.buckets.insert(key, positions);
                proof {
                    assert forall|h: int| 0 <= h < self.groups@.len() implies {
                        let k = bucket_of(#[trigger] self.groups@[h].fingerprint@);
                        self.buckets@.contains_key(k) && lists(self.buckets@[k]@, h)
                    } by {
                        let k = bucket_of(self.groups@[h].fingerprint@);
                        if h == g {
                            assert(self.buckets@[key]@[old_positions.len() as int] == g);
                        } else if k == key {
                            let i = choose|i: int|
                                0 <= i < old_buckets[k]@.len() && old_buckets[k]@[i] as int == h;
                            assert(self.buckets@[key]@[i] as int == h);
                        }
                    }
                    assert forall|k: u64, j: int|
                        self.buckets@.contains_key(k) && 0 <= j < self.buckets@[k]@.len() implies #[trigger] self.buckets@[k]@[j]
                        < self.groups@.len() by {
                        if k == key && j < old_positions.len() {
                            assert(old_buckets.contains_key(key));
                        }
                    }
                }
                g
            },
        }
    }
}

/// Files land in the same group exactly when their fingerprints agree. In
/// particular two files with identical content share a group, and files in
/// different groups differ in content.
pub proof fn lemma_same_content_same_group(
    scan: DupeScan,
    i: int,
    j: int,
    content_i: Seq<u8>,
    content_j: Seq<u8>,
)
    requires
        scan.wf(),
        0 <= i < scan.groups().len(),
        0 <= j < scan.groups().len(),
        scan.groups()[i].fingerprint@ == sha256_digest(content_i),
        scan.groups()[j].fingerprint@ == sha256_digest(content_j),
    ensures
        content_i == content_j ==> i == j,
        i != j ==> content_i != content_j,
        (i == j) <==> (scan.groups()[i].fingerprint@ == scan.groups()[j].fingerprint@),
{
}

/// The directory table is a forest: a scan root is its own parent, and every
/// other directory's parent has a smaller id, so it was registered earlier.
pub proof fn lemma_dir_table_is_forest(scan: DupeScan, id: int)
    requires
        scan.wf(),
        0 <= id < scan.dir_table().len(),
    ensures
        scan.dir_table()[id].parent_id == id || scan.dir_table()[id].parent_id < id,
{
}

/// Recording the same file into the same index always gives the same index:
/// the group chosen, and the fingerprints and files of every group, are
/// determined. So a scan fed the same entries in the same order groups them
/// identically on every run.
pub proof fn lemma_record_is_deterministic(
    before: Seq<DupeGroup>,
    n_dirs: nat,
    after1: Seq<DupeGroup>,
    after2: Seq<DupeGroup>,
    fingerprint: Seq<u8>,
    item: DupeScanItem,
    g1: int,
    g2: int,
)
    requires
        is_index(before, n_dirs),
        records_at(before, after1, fingerprint, item, g1),
        records_at(before, after2, fingerprint, item, g2),
    ensures
        g1 == g2,
        after1.len() == after2.len(),
        forall|i: int|
            0 <= i < after1.len() ==> #[trigger] after1[i].fingerprint@ == after2[i].fingerprint@
                && after1[i].files@ == after2[i].files@,
{
    if g1 < before.len() && g2 < before.len() {
        assert(before[g1].fingerprint@ == before[g2].fingerprint@);
    }
}

} // verus!
