//! Replaying a manifest: the table from original identifiers to new ones,
//! the commit that stands for each record, and the state of a whole run.

use crate::history::CommitInfoModel;
use crate::meta::{
    captured, text_or, unknown_author, CommitMeta, CommitMetaModel, RepoManifest,
    RepoManifestModel,
};
use crate::text::trimmed_end;
use crate::time::{chrono_to_git2_time, date_of, engine_time_of, DateModel, EngineTime, InvalidTimestamp};
use vstd::hash_map::StringHashMap;
use vstd::prelude::*;
use vstd::string::*;

verus! {

/// The identifiers of the commits made so far, by the original identifier
/// of the record each was made for.
pub struct RemapTable {
    created: StringHashMap<String>,
}

impl View for RemapTable {
    type V = Map<Seq<char>, Seq<char>>;

    closed spec fn view(&self) -> Map<Seq<char>, Seq<char>> {
        self.created@.map_values(|id: String| id@)
    }
}

impl RemapTable {
    /// An empty table.
    pub fn new() -> (table: RemapTable)
        ensures
            table@ == Map::<Seq<char>, Seq<char>>::empty(),
    {
        let table = RemapTable { created: StringHashMap::new() };
        assert(table@ =~= Map::<Seq<char>, Seq<char>>::empty());
        table
    }

    /// Enters the new identifier of an original one.  A later entry for the
    /// same original identifier takes the place of an earlier one.
    pub fn insert(&mut self, original: String, created: String)
        ensures
            final(self)@ == old(self)@.insert(original@, created@),
    {
        self.created.insert(original, created);
        assert(self@ =~= old(self)@.insert(original@, created@));
    }

    /// The new identifier of an original one, if it has one yet.
    pub fn get(&self, original: &str) -> (found: Option<&String>)
        ensures
            match found {
                Some(created) => self@.contains_key(original@) && created@ == self@[original@],
                None => !self@.contains_key(original@),
            },
    {
        self.created.get(original)
    }
}

/// The new parents of a record: for each original parent that the table
/// knows, in the record's order, the identifier that the table has for it.
/// A parent that the table does not know is left out.
pub open spec fn resolved(parents: Seq<Seq<char>>, table: Map<Seq<char>, Seq<char>>) -> Seq<
    Seq<char>,
> {
    parents.filter(|parent: Seq<char>| table.contains_key(parent)).map_values(
        |parent: Seq<char>| table[parent],
    )
}

/// Looks the parents of a record up in the table.
pub fn resolve_parents(parents: &Vec<String>, table: &RemapTable) -> (found: Vec<String>)
    ensures
        found.deep_view() == resolved(parents.deep_view(), table@),
{
    let ghost originals = parents.deep_view();
    let ghost known = |parent: Seq<char>| table@.contains_key(parent);
    let ghost renamed = |parent: Seq<char>| table@[parent];
    let mut found: Vec<String> = Vec::new();
    let mut i: usize = 0;
    proof {
        reveal(Seq::filter);
        assert(originals.take(0) =~= Seq::<Seq<char>>::empty());
        assert(found.deep_view() =~= originals.take(0).filter(known).map_values(renamed));
    }
    while i < parents.len()
        invariant
            i <= parents.len(),
            originals == parents.deep_view(),
            known == |parent: Seq<char>| table@.contains_key(parent),
            renamed == |parent: Seq<char>| table@[parent],
            found.deep_view() == originals.take(i as int).filter(known).map_values(renamed),
        decreases parents.len() - i,
    {
        let ghost before = found.deep_view();
        proof {
            reveal(Seq::filter);
            assert(originals.take(i + 1).drop_last() =~= originals.take(i as int));
            assert(originals.take(i + 1).last() == parents[i as int]@);
        }
        match table.get(parents[i].as_str()) {
            Some(created) => {
                found.push(created.clone());
                assert(found.deep_view() =~= before.push(table@[parents[i as int]@]));
            },
            None => {},
        }
        assert(found.deep_view() =~= originals.take(i + 1).filter(known).map_values(renamed));
        i = i + 1;
    }
    assert(originals.take(parents.len() as int) =~= originals);
    found
}

/// The commit to make for one record.  The identity made of name, contact
/// and time is the author's and the committer's alike.
#[derive(Clone, Debug, PartialEq, Eq)]
pub struct CommitRequest {
    /// The reference that is moved to the new commit.
    pub update_ref: String,
    /// The author's name.
    pub author_name: String,
    /// The author's contact.
    pub author_email: String,
    /// When the commit was authored.
    pub time: EngineTime,
    /// The message.
    pub message: String,
    /// The new identifiers of the parents, first parent first.
    pub parents: Vec<String>,
}

/// What a `CommitRequest` holds.
pub struct CommitRequestModel {
    pub update_ref: Seq<char>,
    pub author_name: Seq<char>,
    pub author_email: Seq<char>,
    pub time: EngineTime,
    pub message: Seq<char>,
    pub parents: Seq<Seq<char>>,
}

impl View for CommitRequest {
    type V = CommitRequestModel;

    open spec fn view(&self) -> CommitRequestModel {
        CommitRequestModel {
            update_ref: self.update_ref@,
            author_name: self.author_name@,
            author_email: self.author_email@,
            time: self.time,
            message: self.message@,
            parents: self.parents.deep_view(),
        }
    }
}

/// The reference that each new commit becomes the head of.
pub open spec fn head_reference() -> Seq<char> {
    "HEAD"@
}

/// The commit that stands for a record, given the table as it is when the
/// record's turn comes.
pub open spec fn commit_request(
    meta: CommitMetaModel,
    table: Map<Seq<char>, Seq<char>>,
) -> CommitRequestModel {
    CommitRequestModel {
        update_ref: head_reference(),
        author_name: meta.author_name,
        author_email: meta.author_email,
        time: engine_time_of(meta.date),
        message: meta.message,
        parents: resolved(meta.parents, table),
    }
}

/// Decides the commit that replays a record, once the working area holds
/// the record's snapshot and is staged: the record's author, contact and
/// message, its date as the engine's timestamp, and for parents the new
/// identifiers of those original parents that the table knows.
pub fn replay_commit(meta: &CommitMeta, old_to_new: &RemapTable) -> (request: CommitRequest)
    ensures
        request@ == commit_request(meta@, old_to_new@),
{
    let time = chrono_to_git2_time(&meta.date);
    let parents = resolve_parents(&meta.parents, old_to_new);
    CommitRequest {
        update_ref: String::from_str("HEAD"),
        author_name: meta.author_name.clone(),
        author_email: meta.author_email.clone(),
        time,
        message: meta.message.clone(),
        parents,
    }
}

/// The branch to make once every record is replayed.
#[derive(Clone, Debug, PartialEq, Eq)]
pub struct BranchRequest {
    /// The branch's name.
    pub name: String,
    /// The new identifier of the commit it points at.
    pub target: String,
    /// Whether a branch of that name is moved if there is one.
    pub force: bool,
}

/// Why a run has no branch to make.
#[derive(Clone, Copy, Debug, PartialEq, Eq, Structural)]
pub enum ReplayError {
    /// The manifest has no commits, so there is no last commit.
    EmptyManifest,
    /// Records are left to replay.
    Unfinished,
}

/// The original identifiers of a manifest's records, in order.
pub open spec fn original_ids(commits: Seq<CommitMetaModel>) -> Seq<Seq<char>> {
    commits.map_values(|commit: CommitMetaModel| commit.sha)
}

/// The table once the first `count` records are replayed: each record's
/// original identifier leads to the identifier made for it, a later record
/// taking the place of an earlier one with the same original identifier.
pub open spec fn remap_after(
    originals: Seq<Seq<char>>,
    created: Seq<Seq<char>>,
    count: nat,
) -> Map<Seq<char>, Seq<char>>
    decreases count,
{
    if count == 0 {
        Map::empty()
    } else {
        remap_after(originals, created, (count - 1) as nat).insert(
            originals[count - 1],
            created[count - 1],
        )
    }
}

/// A run of the replay over one manifest: the table, and how far the run
/// has come.
pub struct Replayer {
    manifest: RepoManifest,
    table: RemapTable,
    replayed: usize,
    created: Ghost<Seq<Seq<char>>>,
}

impl Replayer {
    /// The manifest that is replayed.
    pub closed spec fn manifest(&self) -> RepoManifestModel {
        self.manifest@
    }

    /// The table as it stands.
    pub closed spec fn remap(&self) -> Map<Seq<char>, Seq<char>> {
        self.table@
    }

    /// How many records are replayed.
    pub closed spec fn replayed(&self) -> nat {
        self.replayed as nat
    }

    /// The identifiers made so far, one for each replayed record.
    pub closed spec fn created(&self) -> Seq<Seq<char>> {
        self.created@
    }

    /// What holds of every run: the table is the one that the replayed
    /// records and the identifiers made for them give.
    pub open spec fn wf(&self) -> bool {
        &&& self.replayed() <= self.manifest().commits.len()
        &&& self.created().len() == self.replayed()
        &&& self.remap() == remap_after(
            original_ids(self.manifest().commits),
            self.created(),
            self.replayed(),
        )
    }

    #[verifier::type_invariant]
    spec fn well_formed(self) -> bool {
        self.wf()
    }

    /// Starts a run: nothing is replayed and the table is empty.
    pub fn new(manifest: RepoManifest) -> (run: Replayer)
        ensures
            run.wf(),
            run.manifest() == manifest@,
            run.replayed() == 0,
            run.created() == Seq::<Seq<char>>::empty(),
            run.remap() == Map::<Seq<char>, Seq<char>>::empty(),
    {
        Replayer { manifest, table: RemapTable::new(), replayed: 0, created: Ghost(Seq::empty()) }
    }

    /// The record whose turn it is, or none when all are replayed.
    pub fn current(&self) -> (record: Option<&CommitMeta>)
        ensures
            self.wf(),
            match record {
                Some(meta) => self.replayed() < self.manifest().commits.len() && meta@
                    == self.manifest().commits[self.replayed() as int],
                None => self.replayed() == self.manifest().commits.len(),
            },
    {
        proof {
            use_type_invariant(self);
        }
        if self.replayed < self.manifest.commits.len() {
            Some(&self.manifest.commits[self.replayed])
        } else {
            None
        }
    }

    /// The table to resolve the current record's parents with.
    pub fn table(&self) -> (table: &RemapTable)
        ensures
            self.wf(),
            table@ == self.remap(),
    {
        proof {
            use_type_invariant(self);
        }
        &self.table
    }

    /// Takes the identifier of the commit that was made for the current
    /// record, enters it in the table under the record's original identifier
    /// and moves on to the next record.  With no record left, the run stays
    /// as it is.
    pub fn record(self, created: String) -> (next: Replayer)
        ensures
            next.wf(),
            next.manifest() == self.manifest(),
            self.replayed() < self.manifest().commits.len() ==> {
                &&& next.replayed() == self.replayed() + 1
                &&& next.created() == self.created().push(created@)
                &&& next.remap() == self.remap().insert(
                    self.manifest().commits[self.replayed() as int].sha,
                    created@,
                )
            },
            self.replayed() >= self.manifest().commits.len() ==> {
                &&& next.replayed() == self.replayed()
                &&& next.created() == self.created()
                &&& next.remap() == self.remap()
            },
    {
        proof {
            use_type_invariant(&self);
        }
        if self.replayed < self.manifest.commits.len() {
            let original = self.manifest.commits[self.replayed].sha.clone();
            let ghost originals = original_ids(self.manifest@.commits);
            let ghost before = self.created@;
            let ghost after = before.push(created@);
            proof {
                lemma_remap_prefix(originals, before, after, self.replayed as nat);
            }
            let Replayer { manifest, table, replayed, created: _ } = self;
            let mut table = table;
            table.insert(original, created);
            Replayer { manifest, table, replayed: replayed + 1, created: Ghost(after) }
        } else {
            self
        }
    }

    /// The branch that ends the run: the manifest's branch, at the commit
    /// that was made last.  There is none for a manifest without commits,
    /// and none while records are left.
    pub fn finish(&self) -> (branch: Result<BranchRequest, ReplayError>)
        ensures
            self.wf(),
            match branch {
                Ok(request) => {
                    &&& self.manifest().commits.len() > 0
                    &&& self.replayed() == self.manifest().commits.len()
                    &&& request.name@ == self.manifest().branch
                    &&& request.target@ == self.created().last()
                    &&& request.force
                },
                Err(ReplayError::EmptyManifest) => self.manifest().commits.len() == 0,
                Err(ReplayError::Unfinished) => 0 < self.manifest().commits.len()
                    && self.replayed() < self.manifest().commits.len(),
            },
    {
        proof {
            use_type_invariant(self);
        }
        let count = self.manifest.commits.len();
        if count == 0 {
            return Err(ReplayError::EmptyManifest);
        }
        if self.replayed < count {
            return Err(ReplayError::Unfinished);
        }
        let last = &self.manifest.commits[count - 1];
        match self.table.get(last.sha.as_str()) {
            Some(target) => Ok(
                BranchRequest { name: self.manifest.branch.clone(), target: target.clone(), force: true },
            ),
            None => Err(ReplayError::Unfinished),
        }
    }
}

/// The table does not look at identifiers beyond the records it was built
/// from.
proof fn lemma_remap_prefix(
    originals: Seq<Seq<char>>,
    created: Seq<Seq<char>>,
    longer: Seq<Seq<char>>,
    count: nat,
)
    requires
        count <= created.len(),
        created.len() <= longer.len(),
        forall|i: int| 0 <= i < created.len() ==> created[i] == longer[i],
    ensures
        remap_after(originals, created, count) == remap_after(originals, longer, count),
    decreases count,
{
    if count > 0 {
        lemma_remap_prefix(originals, created, longer, (count - 1) as nat);
    }
}

/// The keys of the table are the original identifiers of the replayed
/// records, and no others.
pub proof fn lemma_remap_keys(originals: Seq<Seq<char>>, created: Seq<Seq<char>>, count: nat)
    requires
        count <= originals.len(),
    ensures
        forall|key: Seq<char>|
            remap_after(originals, created, count).contains_key(key) <==> originals.take(
                count as int,
            ).contains(key),
    decreases count,
{
    if count > 0 {
        let before = (count - 1) as nat;
        lemma_remap_keys(originals, created, before);
        assert forall|key: Seq<char>|
            remap_after(originals, created, count).contains_key(key) <==> originals.take(
                count as int,
            ).contains(key) by {
            let shorter = originals.take(before as int);
            let longer = originals.take(count as int);
            assert(longer =~= shorter.push(originals[before as int]));
            if shorter.contains(key) {
                let j = choose|j: int| 0 <= j < shorter.len() && shorter[j] == key;
                assert(longer[j] == key);
            }
            if key == originals[before as int] {
                assert(longer[before as int] == key);
            }
        }
    } else {
        assert(originals.take(0) =~= Seq::<Seq<char>>::empty());
    }
}

/// A replayed record whose original identifier no later replayed record
/// shares is found in the table with the identifier made for it.
pub proof fn lemma_remap_value(
    originals: Seq<Seq<char>>,
    created: Seq<Seq<char>>,
    count: nat,
    position: int,
)
    requires
        0 <= position < count <= originals.len(),
        forall|later: int| position < later < count ==> originals[later] != originals[position],
    ensures
        remap_after(originals, created, count).contains_key(originals[position]),
        remap_after(originals, created, count)[originals[position]] == created[position],
    decreases count,
{
    if position < count - 1 {
        lemma_remap_value(originals, created, (count - 1) as nat, position);
    }
}

/// A filter that every element passes changes nothing.
proof fn lemma_filter_keeps_all(texts: Seq<Seq<char>>, passes: spec_fn(Seq<char>) -> bool)
    requires
        forall|i: int| 0 <= i < texts.len() ==> passes(#[trigger] texts[i]),
    ensures
        texts.filter(passes) == texts,
    decreases texts.len(),
{
    reveal(Seq::filter);
    if texts.len() > 0 {
        let shorter = texts.drop_last();
        assert forall|i: int| 0 <= i < shorter.len() implies passes(#[trigger] shorter[i]) by {
            assert(shorter[i] == texts[i]);
        }
        lemma_filter_keeps_all(shorter, passes);
        assert(passes(texts[texts.len() - 1]));
        assert(texts.filter(passes) =~= texts);
    } else {
        assert(texts.filter(passes) =~= texts);
    }
}

/// Where the table knows every parent, none is dropped: the new parents are
/// as many as the original ones, and each is what the table has for the
/// original parent at its place.
pub proof fn lemma_resolved_all(parents: Seq<Seq<char>>, table: Map<Seq<char>, Seq<char>>)
    requires
        forall|i: int| 0 <= i < parents.len() ==> table.contains_key(#[trigger] parents[i]),
    ensures
        resolved(parents, table).len() == parents.len(),
        forall|i: int|
            0 <= i < parents.len() ==> #[trigger] resolved(parents, table)[i] == table[parents[i]],
{
    let known = |parent: Seq<char>| table.contains_key(parent);
    assert forall|i: int| 0 <= i < parents.len() implies known(#[trigger] parents[i]) by {
        assert(table.contains_key(parents[i]));
    }
    lemma_filter_keeps_all(parents, known);
}

/// Where the table lacks a parent, the new parents are fewer than the
/// original ones.
pub proof fn lemma_resolved_missing(
    parents: Seq<Seq<char>>,
    table: Map<Seq<char>, Seq<char>>,
    missing: int,
)
    requires
        0 <= missing < parents.len(),
        !table.contains_key(parents[missing]),
    ensures
        resolved(parents, table).len() < parents.len(),
    decreases parents.len(),
{
    reveal(Seq::filter);
    let known = |parent: Seq<char>| table.contains_key(parent);
    let shorter = parents.drop_last();
    shorter.filter_lemma(known);
    if missing < parents.len() - 1 {
        lemma_resolved_missing(shorter, table, missing);
    }
}

/// An original identifier that a replayed record bears is found in the
/// table, with the identifier made for such a record.
pub proof fn lemma_remap_lookup(
    originals: Seq<Seq<char>>,
    created: Seq<Seq<char>>,
    count: nat,
    key: Seq<char>,
)
    requires
        count <= originals.len(),
        exists|j: int| 0 <= j < count && #[trigger] originals[j] == key,
    ensures
        remap_after(originals, created, count).contains_key(key),
        exists|j: int|
            0 <= j < count && #[trigger] originals[j] == key && remap_after(
                originals,
                created,
                count,
            )[key] == created[j],
    decreases count,
{
    let last = count - 1;
    if originals[last] == key {
        assert(remap_after(originals, created, count)[key] == created[last]);
    } else {
        let witness = choose|j: int| 0 <= j < count && #[trigger] originals[j] == key;
        assert(witness < last);
        lemma_remap_lookup(originals, created, last as nat, key);
        let j = choose|j: int|
            0 <= j < last && #[trigger] originals[j] == key && remap_after(
                originals,
                created,
                last as nat,
            )[key] == created[j];
        assert(remap_after(originals, created, count)[key] == created[j]);
    }
}

/// The topology law.  When a record's turn comes and every parent of the
/// record is one of the records before it, the commit made for it has as
/// many parents as the original, in the same order, each the commit that
/// was made for a record with the original parent's identifier.
pub proof fn lemma_topology_preserved(
    commits: Seq<CommitMetaModel>,
    created: Seq<Seq<char>>,
    position: int,
)
    requires
        0 <= position < commits.len(),
        position <= created.len(),
        forall|p: int|
            0 <= p < commits[position].parents.len() ==> exists|j: int|
                0 <= j < position && (#[trigger] commits[j]).sha
                    == #[trigger] commits[position].parents[p],
    ensures
        ({
            let table = remap_after(original_ids(commits), created, position as nat);
            let request = commit_request(commits[position], table);
            &&& request.parents.len() == commits[position].parents.len()
            &&& forall|p: int|
                0 <= p < request.parents.len() ==> exists|j: int|
                    0 <= j < position && (#[trigger] commits[j]).sha
                        == commits[position].parents[p] && #[trigger] request.parents[p]
                        == created[j]
        }),
{
    let originals = original_ids(commits);
    let table = remap_after(originals, created, position as nat);
    let parents = commits[position].parents;
    assert forall|p: int| 0 <= p < parents.len() implies table.contains_key(
        #[trigger] parents[p],
    ) && exists|j: int|
        0 <= j < position && (#[trigger] commits[j]).sha == parents[p] && table[parents[p]]
            == created[j] by {
        let earlier = choose|j: int|
            0 <= j < position && (#[trigger] commits[j]).sha == parents[p];
        assert(originals[earlier] == parents[p]);
        lemma_remap_lookup(originals, created, position as nat, parents[p]);
        let j = choose|j: int|
            0 <= j < position && #[trigger] originals[j] == parents[p] && table[parents[p]]
                == created[j];
        assert(commits[j].sha == parents[p]);
    }
    lemma_resolved_all(parents, table);
    let request = commit_request(commits[position], table);
    assert forall|p: int| 0 <= p < request.parents.len() implies exists|j: int|
        0 <= j < position && (#[trigger] commits[j]).sha == commits[position].parents[p]
            && #[trigger] request.parents[p] == created[j] by {
        assert(table.contains_key(parents[p]));
        assert(request.parents[p] == table[parents[p]]);
    }
}

/// The metadata law.  The commit made for a record has the record's author
/// name, contact and message, and its timestamp names the record's date:
/// the same instant and the same offset.
pub proof fn lemma_metadata_preserved(meta: CommitMetaModel, table: Map<Seq<char>, Seq<char>>)
    requires
        meta.date.valid(),
        meta.date.whole_minute_offset(),
    ensures
        commit_request(meta, table).author_name == meta.author_name,
        commit_request(meta, table).author_email == meta.author_email,
        commit_request(meta, table).message == meta.message,
        date_of(commit_request(meta, table).time) == Ok::<DateModel, InvalidTimestamp>(meta.date),
{
    crate::time::lemma_date_round_trip(meta.date);
}

/// From capture to replay.  The commit made for the record of a commit has
/// the engine timestamp of that commit, its author's name and contact or
/// `unknown` in their place, and its message without the whitespace at the
/// end.
pub proof fn lemma_captured_metadata_replayed(
    commit: CommitInfoModel,
    folder: Seq<char>,
    table: Map<Seq<char>, Seq<char>>,
)
    requires
        captured(commit, folder) is Ok,
    ensures
        ({
            let request = commit_request(captured(commit, folder)->Ok_0, table);
            &&& request.time == commit.time
            &&& request.author_name == text_or(commit.author_name, unknown_author())
            &&& request.author_email == text_or(commit.author_email, unknown_author())
            &&& request.message == trimmed_end(text_or(commit.message, Seq::empty()))
        }),
{
    crate::time::lemma_engine_time_round_trip(commit.time);
}

} // verus!
