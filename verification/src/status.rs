//! Per-file change flags and their collapse into a three-way repository marker.

use vstd::prelude::*;

verus! {

/// The two comparisons git makes for every path.
#[derive(Clone, Copy, Debug, PartialEq, Eq, Structural)]
pub enum Area {
    /// The index compared with the last commit.
    Index,
    /// The working tree compared with the index.
    WorkingTree,
}

/// How a path differs in one comparison.
#[derive(Clone, Copy, Debug, PartialEq, Eq, Structural)]
pub enum ChangeKind {
    New,
    Modified,
    Deleted,
    TypeChanged,
    Renamed,
}

/// One difference of one path: where it was found and of what kind it is.
#[derive(Clone, Copy, Debug, PartialEq, Eq, Structural)]
pub struct Change {
    pub area: Area,
    pub kind: ChangeKind,
}

/// The overall state of a repository, lowest rank first.
#[derive(Clone, Copy, Debug, PartialEq, Eq, Structural)]
pub enum StatusMarker {
    Clean,
    StagedChange,
    UnstagedChange,
}

/// The flag word git reports for one path.
#[derive(Clone, Copy, Debug, PartialEq, Eq, Structural)]
pub struct FileStatus {
    pub bits: u32,
}

/// The single bit that stands for `change` in a flag word, as git numbers
/// its status flags.
pub open spec fn flag(change: Change) -> u32 {
    match (change.area, change.kind) {
        (Area::Index, ChangeKind::New) => 0x0001u32,
        (Area::Index, ChangeKind::Modified) => 0x0002u32,
        (Area::Index, ChangeKind::Deleted) => 0x0004u32,
        (Area::Index, ChangeKind::Renamed) => 0x0008u32,
        (Area::Index, ChangeKind::TypeChanged) => 0x0010u32,
        (Area::WorkingTree, ChangeKind::New) => 0x0080u32,
        (Area::WorkingTree, ChangeKind::Modified) => 0x0100u32,
        (Area::WorkingTree, ChangeKind::Deleted) => 0x0200u32,
        (Area::WorkingTree, ChangeKind::TypeChanged) => 0x0400u32,
        (Area::WorkingTree, ChangeKind::Renamed) => 0x0800u32,
    }
}

/// Each change has a bit of its own.
pub proof fn lemma_flags_are_distinct_bits(first: Change, second: Change)
    ensures
        flag(first) != 0,
        first != second ==> flag(first) & flag(second) == 0,
{
    assert(forall|x: u32, y: u32|
        #![trigger x & y]
        (x == 0x0001 || x == 0x0002 || x == 0x0004 || x == 0x0008 || x == 0x0010 || x == 0x0080
            || x == 0x0100 || x == 0x0200 || x == 0x0400 || x == 0x0800) && (y == 0x0001 || y
            == 0x0002 || y == 0x0004 || y == 0x0008 || y == 0x0010 || y == 0x0080 || y == 0x0100
            || y == 0x0200 || y == 0x0400 || y == 0x0800) && x != y ==> x & y == 0)
        by (bit_vector);
    assert(first != second ==> flag(first) != flag(second));
}

impl Change {
    /// The single bit that stands for this change in a flag word.
    pub fn bit(&self) -> (bit: u32)
        ensures
            bit == flag(*self),
    {
        match (self.area, self.kind) {
            (Area::Index, ChangeKind::New) => 0x0001,
            (Area::Index, ChangeKind::Modified) => 0x0002,
            (Area::Index, ChangeKind::Deleted) => 0x0004,
            (Area::Index, ChangeKind::Renamed) => 0x0008,
            (Area::Index, ChangeKind::TypeChanged) => 0x0010,
            (Area::WorkingTree, ChangeKind::New) => 0x0080,
            (Area::WorkingTree, ChangeKind::Modified) => 0x0100,
            (Area::WorkingTree, ChangeKind::Deleted) => 0x0200,
            (Area::WorkingTree, ChangeKind::TypeChanged) => 0x0400,
            (Area::WorkingTree, ChangeKind::Renamed) => 0x0800,
        }
    }
}

/// All index flags together.
pub const INDEX_CHANGES: u32 = 0x001f;

/// All working-tree flags together.
pub const WORKING_TREE_CHANGES: u32 = 0x0f80;

impl View for FileStatus {
    type V = Set<Change>;

    /// A flag word is the set of changes whose bit is set in it.
    open spec fn view(&self) -> Set<Change> {
        Set::new(|change: Change| self.bits & flag(change) != 0)
    }
}

impl FileStatus {
    /// Some change of this path is in the working tree.
    pub open spec fn unstaged(&self) -> bool {
        exists|kind: ChangeKind| #[trigger]
            self@.contains(Change { area: Area::WorkingTree, kind })
    }

    /// Some change of this path is in the index.
    pub open spec fn staged(&self) -> bool {
        exists|kind: ChangeKind| #[trigger] self@.contains(Change { area: Area::Index, kind })
    }

    /// Wraps a flag word as git reports it.
    pub fn from_bits(bits: u32) -> (status: FileStatus)
        ensures
            status.bits == bits,
    {
        FileStatus { bits }
    }

    /// The status of a path without any change.
    pub fn unchanged() -> (status: FileStatus)
        ensures
            status.bits == 0,
            status@ == Set::<Change>::empty(),
    {
        let status = FileStatus { bits: 0 };
        proof {
            assert forall|change: Change| !status@.contains(change) by {
                let bit: u32 = flag(change);
                assert(0u32 & bit == 0) by (bit_vector);
            }
            assert(status@ =~= Set::<Change>::empty());
        }
        status
    }

    /// This status with `change` added to it.
    pub fn with(self, change: Change) -> (status: FileStatus)
        ensures
            status@ == self@.insert(change),
    {
        let added: u32 = change.bit();
        let status = FileStatus { bits: self.bits | added };
        proof {
            let bits: u32 = self.bits;
            assert forall|other: Change| status@.contains(other) == self@.insert(change).contains(
                other,
            ) by {
                let tested: u32 = flag(other);
                lemma_flags_are_distinct_bits(change, other);
                if other == change {
                    assert(added != 0 ==> (bits | added) & added != 0) by (bit_vector);
                } else {
                    assert(added & tested == 0 ==> (bits | added) & tested == bits & tested)
                        by (bit_vector);
                }
            }
            assert(status@ =~= self@.insert(change));
        }
        status
    }

    /// Whether `change` is among the changes of this path.
    pub fn contains(&self, change: Change) -> (yes: bool)
        ensures
            yes == self@.contains(change),
    {
        self.bits & change.bit() != 0
    }

    /// Whether the working tree differs from the index for this path.
    pub fn is_unstaged(&self) -> (yes: bool)
        ensures
            yes == self.unstaged(),
    {
        let bits: u32 = self.bits;
        let yes = bits & WORKING_TREE_CHANGES != 0;
        proof {
            assert((bits & 0x0f80u32 != 0) == (bits & 0x0080u32 != 0 || bits & 0x0100u32 != 0
                || bits & 0x0200u32 != 0 || bits & 0x0400u32 != 0 || bits & 0x0800u32 != 0))
                by (bit_vector);
            let new = Change { area: Area::WorkingTree, kind: ChangeKind::New };
            let modified = Change { area: Area::WorkingTree, kind: ChangeKind::Modified };
            let deleted = Change { area: Area::WorkingTree, kind: ChangeKind::Deleted };
            let type_changed = Change { area: Area::WorkingTree, kind: ChangeKind::TypeChanged };
            let renamed = Change { area: Area::WorkingTree, kind: ChangeKind::Renamed };
            assert(self@.contains(new) == (bits & 0x0080u32 != 0));
            assert(self@.contains(modified) == (bits & 0x0100u32 != 0));
            assert(self@.contains(deleted) == (bits & 0x0200u32 != 0));
            assert(self@.contains(type_changed) == (bits & 0x0400u32 != 0));
            assert(self@.contains(renamed) == (bits & 0x0800u32 != 0));
        }
        yes
    }

    /// Whether the index differs from the last commit for this path.
    pub fn is_staged(&self) -> (yes: bool)
        ensures
            yes == self.staged(),
    {
        let bits: u32 = self.bits;
        let yes = bits & INDEX_CHANGES != 0;
        proof {
            assert((bits & 0x001fu32 != 0) == (bits & 0x0001u32 != 0 || bits & 0x0002u32 != 0
                || bits & 0x0004u32 != 0 || bits & 0x0008u32 != 0 || bits & 0x0010u32 != 0))
                by (bit_vector);
            let new = Change { area: Area::Index, kind: ChangeKind::New };
            let modified = Change { area: Area::Index, kind: ChangeKind::Modified };
            let deleted = Change { area: Area::Index, kind: ChangeKind::Deleted };
            let type_changed = Change { area: Area::Index, kind: ChangeKind::TypeChanged };
            let renamed = Change { area: Area::Index, kind: ChangeKind::Renamed };
            assert(self@.contains(new) == (bits & 0x0001u32 != 0));
            assert(self@.contains(modified) == (bits & 0x0002u32 != 0));
            assert(self@.contains(deleted) == (bits & 0x0004u32 != 0));
            assert(self@.contains(type_changed) == (bits & 0x0010u32 != 0));
            assert(self@.contains(renamed) == (bits & 0x0008u32 != 0));
        }
        yes
    }
}

/// Some listed path has a change in the working tree.
pub open spec fn any_unstaged(files: Seq<FileStatus>) -> bool {
    exists|i: int| 0 <= i < files.len() && #[trigger] files[i].unstaged()
}

/// Some listed path has a change in the index.
pub open spec fn any_staged(files: Seq<FileStatus>) -> bool {
    exists|i: int| 0 <= i < files.len() && #[trigger] files[i].staged()
}

/// The marker of a listing: an unstaged change anywhere outranks a staged one,
/// and a staged one outranks none.
pub open spec fn marker_of(files: Seq<FileStatus>) -> StatusMarker {
    if any_unstaged(files) {
        StatusMarker::UnstagedChange
    } else if any_staged(files) {
        StatusMarker::StagedChange
    } else {
        StatusMarker::Clean
    }
}

/// Collapses a listing into its marker. The scan ends at the first unstaged
/// path; a staged path is remembered and the scan goes on.
pub fn classify(files: &Vec<FileStatus>) -> (marker: StatusMarker)
    ensures
        marker == marker_of(files@),
{
    let mut marker = StatusMarker::Clean;
    let mut i: usize = 0;
    while i < files.len()
        invariant
            i <= files.len(),
            !any_unstaged(files@.take(i as int)),
            marker == marker_of(files@.take(i as int)),
        decreases files.len() - i,
    {
        let file = &files[i];
        if file.is_unstaged() {
            assert(files@[i as int].unstaged());
            return StatusMarker::UnstagedChange;
        }
        let staged = file.is_staged();
        proof {
            let before = files@.take(i as int);
            let after = files@.take(i + 1);
            assert(forall|k: int| 0 <= k < before.len() ==> before[k] == after[k]);
            assert(after[i as int] == files@[i as int]);
            if any_unstaged(after) {
                let k = choose|k: int| 0 <= k < after.len() && #[trigger] after[k].unstaged();
                assert(before[k].unstaged());
            }
            if any_staged(after) && !staged {
                let k = choose|k: int| 0 <= k < after.len() && #[trigger] after[k].staged();
                assert(before[k].staged());
            }
            if any_staged(before) {
                let k = choose|k: int| 0 <= k < before.len() && #[trigger] before[k].staged();
                assert(after[k].staged());
            }
        }
        if staged {
            marker = StatusMarker::StagedChange;
        }
        i += 1;
    }
    assert(files@.take(i as int) == files@);
    marker
}

/// A listing in which no path has a change is clean.
pub proof fn lemma_unchanged_listing_is_clean(files: Seq<FileStatus>)
    requires
        forall|i: int|
            0 <= i < files.len() ==> !(#[trigger] files[i]).unstaged() && !files[i].staged(),
    ensures
        marker_of(files) == StatusMarker::Clean,
{
}

/// One path with a working-tree change, put anywhere into any listing, makes
/// the marker `UnstagedChange`.
pub proof fn lemma_one_unstaged_path(files: Seq<FileStatus>, at: int, file: FileStatus)
    requires
        0 <= at <= files.len(),
        file.unstaged(),
    ensures
        marker_of(files.insert(at, file)) == StatusMarker::UnstagedChange,
{
    assert(files.insert(at, file)[at] == file);
}

/// One path whose only changes are in the index, put anywhere into a clean
/// listing, makes the marker `StagedChange`.
pub proof fn lemma_one_staged_path(files: Seq<FileStatus>, at: int, file: FileStatus)
    requires
        0 <= at <= files.len(),
        marker_of(files) == StatusMarker::Clean,
        file.staged(),
        !file.unstaged(),
    ensures
        marker_of(files.insert(at, file)) == StatusMarker::StagedChange,
{
    let grown = files.insert(at, file);
    assert(grown[at] == file);
    assert forall|k: int| 0 <= k < grown.len() implies !(#[trigger] grown[k]).unstaged() by {
        if k < at {
            assert(grown[k] == files[k]);
        } else if k > at {
            assert(grown[k] == files[k - 1]);
        }
    }
}

/// Where one path has a working-tree change and one has an index change, the
/// marker is `UnstagedChange`, wherever the two stand in the listing.
pub proof fn lemma_unstaged_outranks_staged(
    files: Seq<FileStatus>,
    unstaged_at: int,
    staged_at: int,
)
    requires
        0 <= unstaged_at < files.len(),
        0 <= staged_at < files.len(),
        files[unstaged_at].unstaged(),
        files[staged_at].staged(),
    ensures
        marker_of(files) == StatusMarker::UnstagedChange,
{
}

/// Two listings of the same paths in any two orders have the same marker.
pub proof fn lemma_marker_ignores_order(first: Seq<FileStatus>, second: Seq<FileStatus>)
    requires
        first.to_multiset() == second.to_multiset(),
    ensures
        marker_of(first) == marker_of(second),
{
    lemma_same_paths(first, second);
    lemma_same_paths(second, first);
}

/// Every path of `first` also stands somewhere in `second`.
proof fn lemma_same_paths(first: Seq<FileStatus>, second: Seq<FileStatus>)
    requires
        first.to_multiset() == second.to_multiset(),
    ensures
        any_unstaged(first) ==> any_unstaged(second),
        any_staged(first) ==> any_staged(second),
{
    first.to_multiset_ensures();
    second.to_multiset_ensures();
    assert forall|i: int| 0 <= i < first.len() implies second.contains(#[trigger] first[i]) by {
        assert(first.contains(first[i]));
        assert(first.to_multiset().count(first[i]) > 0);
    }
    if any_unstaged(first) {
        let i = choose|i: int| 0 <= i < first.len() && #[trigger] first[i].unstaged();
        assert(second.contains(first[i]));
        let j = choose|j: int| 0 <= j < second.len() && second[j] == first[i];
        assert(second[j].unstaged());
    }
    if any_staged(first) {
        let i = choose|i: int| 0 <= i < first.len() && #[trigger] first[i].staged();
        assert(second.contains(first[i]));
        let j = choose|j: int| 0 <= j < second.len() && second[j] == first[i];
        assert(second[j].staged());
    }
}

} // verus!
