//! The metadata record of one commit, and the manifest of a whole branch.

use crate::history::{parents_first, walk_nodes, CommitInfo, CommitInfoModel, Node};
use crate::text::{trim_end, trimmed_end, zero_padded, zero_padded_text};
use crate::time::{date_of, git2_to_chrono_date, CommitDate, DateModel, InvalidTimestamp};
use vstd::prelude::*;
use vstd::string::*;

verus! {

/// Digits that a commit's number in its directory name is padded to.
pub const FOLDER_DIGITS: usize = 4;

/// One commit, as it is written down at extraction and read at replay.
#[derive(Clone, Debug, PartialEq, Eq)]
pub struct CommitMeta {
    /// The original identifier.
    pub sha: String,
    /// The original identifiers of the parents, first parent first.
    pub parents: Vec<String>,
    /// The author's name.
    pub author_name: String,
    /// The author's contact.
    pub author_email: String,
    /// When the commit was authored, with the offset it was written in.
    pub date: CommitDate,
    /// The message, without whitespace at its end.
    pub message: String,
    /// The original identifier of the tree.
    pub tree_sha: String,
    /// The directory that holds the commit's snapshot.
    pub folder: String,
}

/// What a `CommitMeta` holds.
pub struct CommitMetaModel {
    pub sha: Seq<char>,
    pub parents: Seq<Seq<char>>,
    pub author_name: Seq<char>,
    pub author_email: Seq<char>,
    pub date: DateModel,
    pub message: Seq<char>,
    pub tree_sha: Seq<char>,
    pub folder: Seq<char>,
}

impl View for CommitMeta {
    type V = CommitMetaModel;

    open spec fn view(&self) -> CommitMetaModel {
        CommitMetaModel {
            sha: self.sha@,
            parents: self.parents.deep_view(),
            author_name: self.author_name@,
            author_email: self.author_email@,
            date: self.date@,
            message: self.message@,
            tree_sha: self.tree_sha@,
            folder: self.folder@,
        }
    }
}

impl DeepView for CommitMeta {
    type V = CommitMetaModel;

    open spec fn deep_view(&self) -> CommitMetaModel {
        self@
    }
}

impl CommitMetaModel {
    /// The commit's place in the graph.
    pub open spec fn node(self) -> Node {
        Node { id: self.sha, parents: self.parents }
    }
}

/// All commits of one branch, in the order of extraction.
#[derive(Clone, Debug, PartialEq, Eq)]
pub struct RepoManifest {
    /// The repository's name.
    pub name: String,
    /// The branch that was extracted.
    pub branch: String,
    /// The commits, parents before children.
    pub commits: Vec<CommitMeta>,
}

/// What a `RepoManifest` holds.
pub struct RepoManifestModel {
    pub name: Seq<char>,
    pub branch: Seq<char>,
    pub commits: Seq<CommitMetaModel>,
}

impl View for RepoManifest {
    type V = RepoManifestModel;

    open spec fn view(&self) -> RepoManifestModel {
        RepoManifestModel {
            name: self.name@,
            branch: self.branch@,
            commits: self.commits.deep_view(),
        }
    }
}

/// The graph of a manifest's commits.
pub open spec fn manifest_nodes(commits: Seq<CommitMetaModel>) -> Seq<Node> {
    commits.map_values(|commit: CommitMetaModel| commit.node())
}

impl RepoManifestModel {
    /// The ordering invariant: every commit that is a parent of another
    /// stands before it.
    pub open spec fn ordered(self) -> bool {
        parents_first(manifest_nodes(self.commits))
    }
}

/// The name that stands for an author's name or contact that is missing.
pub open spec fn unknown_author() -> Seq<char> {
    "unknown"@
}

/// A text that may be missing, and what stands for it then.
pub open spec fn text_or(text: Option<Seq<char>>, otherwise: Seq<char>) -> Seq<char> {
    match text {
        Some(text) => text,
        None => otherwise,
    }
}

/// The record of a commit with its snapshot in `folder`, or why the commit
/// has none.
pub open spec fn captured(commit: CommitInfoModel, folder: Seq<char>) -> Result<
    CommitMetaModel,
    InvalidTimestamp,
> {
    match date_of(commit.time) {
        Ok(date) => Ok(
            CommitMetaModel {
                sha: commit.id,
                parents: commit.parent_ids,
                author_name: text_or(commit.author_name, unknown_author()),
                author_email: text_or(commit.author_email, unknown_author()),
                date,
                message: trimmed_end(text_or(commit.message, Seq::empty())),
                tree_sha: commit.tree_id,
                folder,
            },
        ),
        Err(fault) => Err(fault),
    }
}

/// The directory of the commit at a position of the walk, counted from zero:
/// under `export`, the position counted from one and padded to four digits,
/// an underscore, and the commit's identifier.
pub open spec fn folder_name(position: nat, id: Seq<char>) -> Seq<char> {
    "export/"@ + zero_padded(position + 1, FOLDER_DIGITS as nat) + "_"@ + id
}

/// Copies a list of strings.
pub(crate) fn copy_texts(texts: &Vec<String>) -> (copy: Vec<String>)
    ensures
        copy.deep_view() == texts.deep_view(),
{
    let mut copy: Vec<String> = Vec::new();
    let mut i: usize = 0;
    while i < texts.len()
        invariant
            i <= texts.len(),
            copy.len() == i,
            forall|j: int| 0 <= j < i ==> copy[j]@ == texts[j]@,
        decreases texts.len() - i,
    {
        copy.push(texts[i].clone());
        i = i + 1;
    }
    assert(copy.deep_view() =~= texts.deep_view());
    copy
}

/// The text, or what stands for a missing one.
fn text_or_default(text: &Option<String>, otherwise: &str) -> (chosen: String)
    ensures
        chosen@ == text_or(crate::history::optional_text(*text), otherwise@),
{
    match text {
        Some(text) => text.clone(),
        None => String::from_str(otherwise),
    }
}

/// Names the directory of the commit at a position of the walk, counted from
/// zero.
pub fn commit_folder(position: usize, id: &str) -> (folder: String)
    ensures
        folder@ == folder_name(position as nat, id@),
{
    let number: u128 = position as u128 + 1;
    let mut folder = String::from_str("export/");
    let digits = zero_padded_text(number, FOLDER_DIGITS);
    folder.append(digits.as_str());
    folder.append("_");
    folder.append(id);
    assert(folder@ =~= folder_name(position as nat, id@));
    folder
}

impl CommitMeta {
    /// Captures a commit: its identifiers and parents as they are, the
    /// author's name and contact or `unknown` where one is missing, the
    /// message without the whitespace at its end, the engine's timestamp as a
    /// date, and the directory of its snapshot.  Fails exactly when the
    /// timestamp names no date.
    pub fn from_commit(commit: &CommitInfo, folder: &str) -> (made: Result<
        CommitMeta,
        InvalidTimestamp,
    >)
        ensures
            match (made, captured(commit@, folder@)) {
                (Ok(meta), Ok(model)) => meta@ == model,
                (Err(fault), Err(expected)) => fault == expected,
                _ => false,
            },
    {
        let author_name = text_or_default(&commit.author_name, "unknown");
        let author_email = text_or_default(&commit.author_email, "unknown");
        let message = match &commit.message {
            Some(message) => String::from_str(trim_end(message.as_str())),
            None => String::new(),
        };
        let date = match git2_to_chrono_date(&commit.time) {
            Ok(date) => date,
            Err(fault) => {
                return Err(fault);
            },
        };
        let parents = copy_texts(&commit.parent_ids);
        Ok(
            CommitMeta {
                sha: commit.id.clone(),
                parents,
                author_name,
                author_email,
                date,
                message,
                tree_sha: commit.tree_id.clone(),
                folder: String::from_str(folder),
            },
        )
    }
}

/// A record has the identifier and the parents of the commit it was captured
/// from.
pub proof fn lemma_captured_node(commit: CommitInfoModel, folder: Seq<char>)
    requires
        captured(commit, folder) is Ok,
    ensures
        captured(commit, folder)->Ok_0.node() == commit.node(),
        captured(commit, folder)->Ok_0.date.whole_minute_offset(),
        captured(commit, folder)->Ok_0.date.valid(),
{
}

/// The ordering invariant of a manifest: where each record was captured from
/// the commit at its position of a walk in which parents come first, every
/// record that is a parent of another stands before it.
pub proof fn lemma_manifest_ordered(
    walk: Seq<CommitInfoModel>,
    folders: Seq<Seq<char>>,
    manifest: RepoManifestModel,
)
    requires
        parents_first(walk_nodes(walk)),
        folders.len() == walk.len(),
        manifest.commits.len() == walk.len(),
        forall|i: int|
            0 <= i < walk.len() ==> captured(walk[i], folders[i]) == Ok::<
                CommitMetaModel,
                InvalidTimestamp,
            >(#[trigger] manifest.commits[i]),
    ensures
        manifest.ordered(),
{
    assert forall|i: int| 0 <= i < walk.len() implies #[trigger] manifest_nodes(
        manifest.commits,
    )[i] == walk_nodes(walk)[i] by {
        assert(captured(walk[i], folders[i])->Ok_0 == manifest.commits[i]);
        lemma_captured_node(walk[i], folders[i]);
    }
    assert(manifest_nodes(manifest.commits) =~= walk_nodes(walk));
}

} // verus!
