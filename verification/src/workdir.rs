//! The working area between two replayed commits: what to remove from it,
//! and what to copy into it from a snapshot.

use crate::meta::copy_texts;
use vstd::prelude::*;
use vstd::string::*;

verus! {

/// The name of the engine's own directory, which is never removed.
pub open spec fn engine_dir() -> Seq<char> {
    ".git"@
}

/// The name of the metadata file, which is never copied.
pub open spec fn metadata_file() -> Seq<char> {
    ".commit-meta.json"@
}

/// The name of the metadata file that lies beside a snapshot's files.
pub fn metadata_file_name() -> (name: &'static str)
    ensures
        name@ == metadata_file(),
{
    ".commit-meta.json"
}

/// One entry at the top of the working area.
#[derive(Clone, Debug, PartialEq, Eq)]
pub struct DirEntry {
    /// The entry's name.
    pub name: String,
    /// Whether it is a directory.
    pub is_dir: bool,
}

/// What a `DirEntry` holds.
pub struct DirEntryModel {
    pub name: Seq<char>,
    pub is_dir: bool,
}

impl View for DirEntry {
    type V = DirEntryModel;

    open spec fn view(&self) -> DirEntryModel {
        DirEntryModel { name: self.name@, is_dir: self.is_dir }
    }
}

impl DeepView for DirEntry {
    type V = DirEntryModel;

    open spec fn deep_view(&self) -> DirEntryModel {
        self@
    }
}

/// One removal from the working area.
#[derive(Clone, Debug, PartialEq, Eq)]
pub enum ClearStep {
    /// Remove the directory of this name with all that is in it.
    RemoveDir { name: String },
    /// Remove the file of this name.
    RemoveFile { name: String },
}

/// What a `ClearStep` holds.
pub enum ClearStepModel {
    RemoveDir { name: Seq<char> },
    RemoveFile { name: Seq<char> },
}

impl View for ClearStep {
    type V = ClearStepModel;

    open spec fn view(&self) -> ClearStepModel {
        match *self {
            ClearStep::RemoveDir { name } => ClearStepModel::RemoveDir { name: name@ },
            ClearStep::RemoveFile { name } => ClearStepModel::RemoveFile { name: name@ },
        }
    }
}

impl DeepView for ClearStep {
    type V = ClearStepModel;

    open spec fn deep_view(&self) -> ClearStepModel {
        self@
    }
}

/// Whether an entry of the working area is removed: all but the engine's
/// own directory.
pub open spec fn is_cleared(entry: DirEntryModel) -> bool {
    entry.name != engine_dir()
}

/// The removal of an entry.
pub open spec fn removal_of(entry: DirEntryModel) -> ClearStepModel {
    if entry.is_dir {
        ClearStepModel::RemoveDir { name: entry.name }
    } else {
        ClearStepModel::RemoveFile { name: entry.name }
    }
}

/// The removals that empty a working area: one for each entry but the
/// engine's own directory, in the order of the entries.
pub open spec fn clear_steps(entries: Seq<DirEntryModel>) -> Seq<ClearStepModel> {
    entries.filter(|entry: DirEntryModel| is_cleared(entry)).map_values(
        |entry: DirEntryModel| removal_of(entry),
    )
}

/// Plans the emptying of the working area from the entries at its top:
/// everything goes but the engine's own directory.
pub fn clear_workdir(entries: &Vec<DirEntry>) -> (steps: Vec<ClearStep>)
    ensures
        steps.deep_view() == clear_steps(entries.deep_view()),
{
    let ghost models = entries.deep_view();
    let ghost kept = |entry: DirEntryModel| is_cleared(entry);
    let ghost step = |entry: DirEntryModel| removal_of(entry);
    let engine = String::from_str(".git");
    let mut steps: Vec<ClearStep> = Vec::new();
    let mut i: usize = 0;
    proof {
        reveal(Seq::filter);
        assert(models.take(0) =~= Seq::<DirEntryModel>::empty());
        assert(steps.deep_view() =~= models.take(0).filter(kept).map_values(step));
    }
    while i < entries.len()
        invariant
            i <= entries.len(),
            models == entries.deep_view(),
            engine@ == engine_dir(),
            kept == |entry: DirEntryModel| is_cleared(entry),
            step == |entry: DirEntryModel| removal_of(entry),
            steps.deep_view() == models.take(i as int).filter(kept).map_values(step),
        decreases entries.len() - i,
    {
        let entry = &entries[i];
        let ghost before = steps.deep_view();
        proof {
            reveal(Seq::filter);
            assert(models.take(i + 1).drop_last() =~= models.take(i as int));
            assert(models.take(i + 1).last() == entry@);
        }
        if entry.name != engine {
            if entry.is_dir {
                steps.push(ClearStep::RemoveDir { name: entry.name.clone() });
            } else {
                steps.push(ClearStep::RemoveFile { name: entry.name.clone() });
            }
            assert(steps.deep_view() =~= before.push(removal_of(entry@)));
        }
        assert(steps.deep_view() =~= models.take(i + 1).filter(kept).map_values(step));
        i = i + 1;
    }
    assert(models.take(entries.len() as int) =~= models);
    steps
}

/// One entry found while a snapshot directory is walked.
#[derive(Clone, Debug, PartialEq, Eq)]
pub struct WalkEntry {
    /// The entry's own name.
    pub file_name: String,
    /// The names that lead from the snapshot directory to the entry; none
    /// for the snapshot directory itself.
    pub path: Vec<String>,
    /// Whether it is a directory.
    pub is_dir: bool,
}

/// What a `WalkEntry` holds.
pub struct WalkEntryModel {
    pub file_name: Seq<char>,
    pub path: Seq<Seq<char>>,
    pub is_dir: bool,
}

impl View for WalkEntry {
    type V = WalkEntryModel;

    open spec fn view(&self) -> WalkEntryModel {
        WalkEntryModel {
            file_name: self.file_name@,
            path: self.path.deep_view(),
            is_dir: self.is_dir,
        }
    }
}

impl DeepView for WalkEntry {
    type V = WalkEntryModel;

    open spec fn deep_view(&self) -> WalkEntryModel {
        self@
    }
}

/// One thing to do while a snapshot is copied.  Paths are lists of names,
/// the same below the snapshot directory and below the working area.
#[derive(Clone, Debug, PartialEq, Eq)]
pub enum CopyStep {
    /// Make sure the directory `path` exists in the working area.
    CreateDir { path: Vec<String> },
    /// Make sure the directory above `path` exists in the working area, and
    /// copy the file at `path` there.
    CopyFile { path: Vec<String> },
}

/// What a `CopyStep` holds.
pub enum CopyStepModel {
    CreateDir { path: Seq<Seq<char>> },
    CopyFile { path: Seq<Seq<char>> },
}

impl View for CopyStep {
    type V = CopyStepModel;

    open spec fn view(&self) -> CopyStepModel {
        match *self {
            CopyStep::CreateDir { path } => CopyStepModel::CreateDir { path: path.deep_view() },
            CopyStep::CopyFile { path } => CopyStepModel::CopyFile { path: path.deep_view() },
        }
    }
}

impl DeepView for CopyStep {
    type V = CopyStepModel;

    open spec fn deep_view(&self) -> CopyStepModel {
        self@
    }
}

/// Whether an entry of a snapshot is tracked content: all but entries with
/// the name of the metadata file.
pub open spec fn is_copied(entry: WalkEntryModel) -> bool {
    entry.file_name != metadata_file()
}

/// The copy of an entry, at the same path.
pub open spec fn copy_of(entry: WalkEntryModel) -> CopyStepModel {
    if entry.is_dir {
        CopyStepModel::CreateDir { path: entry.path }
    } else {
        CopyStepModel::CopyFile { path: entry.path }
    }
}

/// The steps that copy a snapshot: one for each entry but those with the
/// name of the metadata file, in the order of the walk, each to the path it
/// was found at.
pub open spec fn copy_steps(entries: Seq<WalkEntryModel>) -> Seq<CopyStepModel> {
    entries.filter(|entry: WalkEntryModel| is_copied(entry)).map_values(
        |entry: WalkEntryModel| copy_of(entry),
    )
}

/// Plans the copy of a snapshot into the working area from the entries that
/// a walk of the snapshot directory found: directories are made, files are
/// copied, both at the path they have in the snapshot, and whatever bears
/// the name of the metadata file is left behind.
pub fn copy_commit_files(entries: &Vec<WalkEntry>) -> (steps: Vec<CopyStep>)
    ensures
        steps.deep_view() == copy_steps(entries.deep_view()),
{
    let ghost models = entries.deep_view();
    let ghost kept = |entry: WalkEntryModel| is_copied(entry);
    let ghost step = |entry: WalkEntryModel| copy_of(entry);
    let reserved = String::from_str(metadata_file_name());
    let mut steps: Vec<CopyStep> = Vec::new();
    let mut i: usize = 0;
    proof {
        reveal(Seq::filter);
        assert(models.take(0) =~= Seq::<WalkEntryModel>::empty());
        assert(steps.deep_view() =~= models.take(0).filter(kept).map_values(step));
    }
    while i < entries.len()
        invariant
            i <= entries.len(),
            models == entries.deep_view(),
            reserved@ == metadata_file(),
            kept == |entry: WalkEntryModel| is_copied(entry),
            step == |entry: WalkEntryModel| copy_of(entry),
            steps.deep_view() == models.take(i as int).filter(kept).map_values(step),
        decreases entries.len() - i,
    {
        let entry = &entries[i];
        let ghost before = steps.deep_view();
        proof {
            reveal(Seq::filter);
            assert(models.take(i + 1).drop_last() =~= models.take(i as int));
            assert(models.take(i + 1).last() == entry@);
        }
        if entry.file_name != reserved {
            let path = copy_texts(&entry.path);
            if entry.is_dir {
                steps.push(CopyStep::CreateDir { path });
            } else {
                steps.push(CopyStep::CopyFile { path });
            }
            assert(steps.deep_view() =~= before.push(copy_of(entry@)));
        }
        assert(steps.deep_view() =~= models.take(i + 1).filter(kept).map_values(step));
        i = i + 1;
    }
    assert(models.take(entries.len() as int) =~= models);
    steps
}

/// The clearing is exact.  Every entry but the engine's own directory has
/// its removal, and every removal is that of such an entry: the engine's
/// directory is never removed.
pub proof fn lemma_clear_exact(entries: Seq<DirEntryModel>)
    ensures
        forall|i: int|
            0 <= i < entries.len() && is_cleared(#[trigger] entries[i]) ==> clear_steps(
                entries,
            ).contains(removal_of(entries[i])),
        forall|k: int|
            0 <= k < clear_steps(entries).len() ==> exists|i: int|
                0 <= i < entries.len() && is_cleared(#[trigger] entries[i])
                    && #[trigger] clear_steps(entries)[k] == removal_of(entries[i]),
{
    let kept = |entry: DirEntryModel| is_cleared(entry);
    let chosen = entries.filter(kept);
    let steps = clear_steps(entries);
    assert forall|i: int| 0 <= i < entries.len() && is_cleared(
        #[trigger] entries[i],
    ) implies steps.contains(removal_of(entries[i])) by {
        entries.lemma_filter_contains(kept, i);
        let j = choose|j: int| 0 <= j < chosen.len() && chosen[j] == entries[i];
        assert(steps[j] == removal_of(entries[i]));
    }
    assert forall|k: int| 0 <= k < steps.len() implies exists|i: int|
        0 <= i < entries.len() && is_cleared(#[trigger] entries[i]) && #[trigger] steps[k]
            == removal_of(entries[i]) by {
        entries.lemma_filter_pred(kept, k);
        assert(chosen.contains(chosen[k]));
        entries.lemma_filter_contains_rev(kept, chosen[k]);
        let i = choose|i: int| 0 <= i < entries.len() && entries[i] == chosen[k];
        assert(is_cleared(entries[i]));
    }
}

/// The copy is exact.  Every entry of the snapshot but those with the name
/// of the metadata file has its step, at the path it was found at; and every
/// step is that of such an entry, so that the working area receives the
/// snapshot's paths and no others.
pub proof fn lemma_copy_exact(entries: Seq<WalkEntryModel>)
    ensures
        forall|i: int|
            0 <= i < entries.len() && is_copied(#[trigger] entries[i]) ==> copy_steps(
                entries,
            ).contains(copy_of(entries[i])),
        forall|k: int|
            0 <= k < copy_steps(entries).len() ==> exists|i: int|
                0 <= i < entries.len() && is_copied(#[trigger] entries[i])
                    && #[trigger] copy_steps(entries)[k] == copy_of(entries[i]),
{
    let kept = |entry: WalkEntryModel| is_copied(entry);
    let chosen = entries.filter(kept);
    let steps = copy_steps(entries);
    assert forall|i: int| 0 <= i < entries.len() && is_copied(
        #[trigger] entries[i],
    ) implies steps.contains(copy_of(entries[i])) by {
        entries.lemma_filter_contains(kept, i);
        let j = choose|j: int| 0 <= j < chosen.len() && chosen[j] == entries[i];
        assert(steps[j] == copy_of(entries[i]));
    }
    assert forall|k: int| 0 <= k < steps.len() implies exists|i: int|
        0 <= i < entries.len() && is_copied(#[trigger] entries[i]) && #[trigger] steps[k]
            == copy_of(entries[i]) by {
        entries.lemma_filter_pred(kept, k);
        assert(chosen.contains(chosen[k]));
        entries.lemma_filter_contains_rev(kept, chosen[k]);
        let i = choose|i: int| 0 <= i < entries.len() && entries[i] == chosen[k];
        assert(is_copied(entries[i]));
    }
}

} // verus!
