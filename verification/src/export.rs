//! Writing a tree out as files: what to do for each entry of one tree.

use crate::meta::copy_texts;
use vstd::prelude::*;
use vstd::string::*;

verus! {

/// What an entry of a tree points at.
#[derive(Clone, Copy, Debug, PartialEq, Eq, Structural)]
pub enum EntryKind {
    /// File content.
    Blob,
    /// Another tree.
    Tree,
    /// Anything else, such as a link to another repository.
    Other,
}

/// One entry of a tree.
#[derive(Clone, Debug, PartialEq, Eq)]
pub struct TreeEntry {
    /// The entry's name within its tree.
    pub name: String,
    /// What the entry points at.
    pub kind: EntryKind,
    /// The identifier of what it points at.
    pub id: String,
}

/// What a `TreeEntry` holds.
pub struct TreeEntryModel {
    pub name: Seq<char>,
    pub kind: EntryKind,
    pub id: Seq<char>,
}

impl View for TreeEntry {
    type V = TreeEntryModel;

    open spec fn view(&self) -> TreeEntryModel {
        TreeEntryModel { name: self.name@, kind: self.kind, id: self.id@ }
    }
}

impl DeepView for TreeEntry {
    type V = TreeEntryModel;

    open spec fn deep_view(&self) -> TreeEntryModel {
        self@
    }
}

/// One thing to do while a tree is written out.  Paths are lists of names
/// below the directory of the snapshot.
#[derive(Clone, Debug, PartialEq, Eq)]
pub enum ExportStep {
    /// Make sure the directory above `path` exists, and write the blob's
    /// bytes to `path`.
    WriteBlob { path: Vec<String>, blob: String },
    /// Make sure the directory `path` exists, and write the tree out into it.
    ExportTree { path: Vec<String>, tree: String },
}

/// What an `ExportStep` holds.
pub enum ExportStepModel {
    WriteBlob { path: Seq<Seq<char>>, blob: Seq<char> },
    ExportTree { path: Seq<Seq<char>>, tree: Seq<char> },
}

impl View for ExportStep {
    type V = ExportStepModel;

    open spec fn view(&self) -> ExportStepModel {
        match *self {
            ExportStep::WriteBlob { path, blob } => ExportStepModel::WriteBlob {
                path: path.deep_view(),
                blob: blob@,
            },
            ExportStep::ExportTree { path, tree } => ExportStepModel::ExportTree {
                path: path.deep_view(),
                tree: tree@,
            },
        }
    }
}

impl DeepView for ExportStep {
    type V = ExportStepModel;

    open spec fn deep_view(&self) -> ExportStepModel {
        self@
    }
}

/// Whether an entry is written out: blobs and trees are, the rest is passed
/// over.
pub open spec fn is_exported(entry: TreeEntryModel) -> bool {
    entry.kind != EntryKind::Other
}

/// What is done for an entry that is written out into `out_dir`.
pub open spec fn step_for(entry: TreeEntryModel, out_dir: Seq<Seq<char>>) -> ExportStepModel {
    if entry.kind == EntryKind::Tree {
        ExportStepModel::ExportTree { path: out_dir.push(entry.name), tree: entry.id }
    } else {
        ExportStepModel::WriteBlob { path: out_dir.push(entry.name), blob: entry.id }
    }
}

/// The steps for a tree's entries: one for each blob and each tree, in the
/// order of the entries, each at the entry's name below `out_dir`.
pub open spec fn export_steps(entries: Seq<TreeEntryModel>, out_dir: Seq<Seq<char>>) -> Seq<
    ExportStepModel,
> {
    entries.filter(|entry: TreeEntryModel| is_exported(entry)).map_values(
        |entry: TreeEntryModel| step_for(entry, out_dir),
    )
}

/// Plans the export of one tree into `out_dir`: for each blob a write at the
/// entry's name, for each tree a directory of that name to descend into, and
/// nothing for entries of another kind.  The caller carries the steps out
/// and comes back with the entries of each tree it is told to descend into.
pub fn export_tree(entries: &Vec<TreeEntry>, out_dir: &Vec<String>) -> (steps: Vec<ExportStep>)
    ensures
        steps.deep_view() == export_steps(entries.deep_view(), out_dir.deep_view()),
{
    let ghost models = entries.deep_view();
    let ghost dir = out_dir.deep_view();
    let ghost kept = |entry: TreeEntryModel| is_exported(entry);
    let ghost step = |entry: TreeEntryModel| step_for(entry, dir);
    let mut steps: Vec<ExportStep> = Vec::new();
    let mut i: usize = 0;
    proof {
        reveal(Seq::filter);
        assert(models.take(0) =~= Seq::<TreeEntryModel>::empty());
        assert(steps.deep_view() =~= models.take(0).filter(kept).map_values(step));
    }
    while i < entries.len()
        invariant
            i <= entries.len(),
            models == entries.deep_view(),
            dir == out_dir.deep_view(),
            kept == |entry: TreeEntryModel| is_exported(entry),
            step == |entry: TreeEntryModel| step_for(entry, dir),
            steps.deep_view() == models.take(i as int).filter(kept).map_values(step),
        decreases entries.len() - i,
    {
        let entry = &entries[i];
        let ghost before = steps.deep_view();
        proof {
            reveal(Seq::filter);
            assert(models.take(i + 1).drop_last() =~= models.take(i as int));
            assert(models.take(i + 1).last() == entry@);
        }
        match entry.kind {
            EntryKind::Blob => {
                let mut path = copy_texts(out_dir);
                path.push(entry.name.clone());
                assert(path.deep_view() =~= dir.push(entry.name@));
                steps.push(ExportStep::WriteBlob { path, blob: entry.id.clone() });
                assert(steps.deep_view() =~= before.push(step_for(entry@, dir)));
            },
            EntryKind::Tree => {
                let mut path = copy_texts(out_dir);
                path.push(entry.name.clone());
                assert(path.deep_view() =~= dir.push(entry.name@));
                steps.push(ExportStep::ExportTree { path, tree: entry.id.clone() });
                assert(steps.deep_view() =~= before.push(step_for(entry@, dir)));
            },
            EntryKind::Other => {},
        }
        assert(steps.deep_view() =~= models.take(i + 1).filter(kept).map_values(step));
        i = i + 1;
    }
    assert(models.take(entries.len() as int) =~= models);
    steps
}

/// The plan of a tree is exact.  Every blob and every tree among the
/// entries has its step, at the entry's name below the output directory and
/// with the entry's identifier; and every step is the step of such an entry,
/// so that nothing is written that the tree does not hold.
pub proof fn lemma_export_exact(entries: Seq<TreeEntryModel>, out_dir: Seq<Seq<char>>)
    ensures
        forall|i: int|
            0 <= i < entries.len() && is_exported(#[trigger] entries[i]) ==> export_steps(
                entries,
                out_dir,
            ).contains(step_for(entries[i], out_dir)),
        forall|k: int|
            0 <= k < export_steps(entries, out_dir).len() ==> exists|i: int|
                0 <= i < entries.len() && is_exported(#[trigger] entries[i])
                    && #[trigger] export_steps(entries, out_dir)[k] == step_for(
                    entries[i],
                    out_dir,
                ),
{
    let kept = |entry: TreeEntryModel| is_exported(entry);
    let step = |entry: TreeEntryModel| step_for(entry, out_dir);
    let chosen = entries.filter(kept);
    let steps = export_steps(entries, out_dir);
    assert forall|i: int| 0 <= i < entries.len() && is_exported(
        #[trigger] entries[i],
    ) implies steps.contains(step_for(entries[i], out_dir)) by {
        entries.lemma_filter_contains(kept, i);
        let j = choose|j: int| 0 <= j < chosen.len() && chosen[j] == entries[i];
        assert(steps[j] == step_for(entries[i], out_dir));
    }
    assert forall|k: int| 0 <= k < steps.len() implies exists|i: int|
        0 <= i < entries.len() && is_exported(#[trigger] entries[i]) && #[trigger] steps[k]
            == step_for(entries[i], out_dir) by {
        entries.lemma_filter_pred(kept, k);
        assert(chosen.contains(chosen[k]));
        entries.lemma_filter_contains_rev(kept, chosen[k]);
        let i = choose|i: int| 0 <= i < entries.len() && entries[i] == chosen[k];
        assert(is_exported(entries[i]));
    }
}

} // verus!
