//! Commit history as plain data: capturing the commits of one branch into a
//! manifest of metadata records, and replaying such a manifest into a fresh
//! repository with remapped parent identifiers.
//!
//! The version-control engine and the filesystem stay outside.  What is here
//! are the decisions between the engine's calls, each with a contract: the
//! timestamp codec, the walk order, the export and copy plans, the metadata
//! record and the replay state machine.

pub mod export;
pub mod history;
pub mod meta;
pub mod replay;
pub mod text;
pub mod time;
pub mod workdir;

pub use export::{export_tree, EntryKind, ExportStep, TreeEntry};
pub use history::{branch_reference, collect_all_commits, CommitInfo, OrderViolation};
pub use meta::{commit_folder, CommitMeta, RepoManifest};
pub use replay::{
    replay_commit, resolve_parents, BranchRequest, CommitRequest, RemapTable, ReplayError,
    Replayer,
};
pub use time::{CommitDate, EngineTime, InvalidTimestamp};
pub use workdir::{
    clear_workdir, copy_commit_files, metadata_file_name, ClearStep, CopyStep, DirEntry,
    WalkEntry,
};
