//! The commit graph as the walk sees it: identifiers, parents, and the order
//! in which parents come before their children.

use crate::time::EngineTime;
use vstd::hash_map::StringHashMap;
use vstd::prelude::*;
use vstd::string::*;

verus! {

/// A commit as the engine hands it over, before anything is decided.
#[derive(Clone, Debug, PartialEq, Eq)]
pub struct CommitInfo {
    /// The commit's identifier.
    pub id: String,
    /// The identifier of the commit's tree.
    pub tree_id: String,
    /// The identifiers of the parents, first parent first.
    pub parent_ids: Vec<String>,
    /// The author's name, where the commit has a readable one.
    pub author_name: Option<String>,
    /// The author's contact, where the commit has a readable one.
    pub author_email: Option<String>,
    /// The message, where the commit has a readable one.
    pub message: Option<String>,
    /// When the commit was authored.
    pub time: EngineTime,
}

/// What a `CommitInfo` holds.
pub struct CommitInfoModel {
    pub id: Seq<char>,
    pub tree_id: Seq<char>,
    pub parent_ids: Seq<Seq<char>>,
    pub author_name: Option<Seq<char>>,
    pub author_email: Option<Seq<char>>,
    pub message: Option<Seq<char>>,
    pub time: EngineTime,
}

/// The text of an optional string.
pub open spec fn optional_text(text: Option<String>) -> Option<Seq<char>> {
    match text {
        Some(text) => Some(text@),
        None => None,
    }
}

impl View for CommitInfo {
    type V = CommitInfoModel;

    open spec fn view(&self) -> CommitInfoModel {
        CommitInfoModel {
            id: self.id@,
            tree_id: self.tree_id@,
            parent_ids: self.parent_ids.deep_view(),
            author_name: optional_text(self.author_name),
            author_email: optional_text(self.author_email),
            message: optional_text(self.message),
            time: self.time,
        }
    }
}

impl DeepView for CommitInfo {
    type V = CommitInfoModel;

    open spec fn deep_view(&self) -> CommitInfoModel {
        self@
    }
}

/// One commit of a graph: its identifier and those of its parents.
pub struct Node {
    pub id: Seq<char>,
    pub parents: Seq<Seq<char>>,
}

impl CommitInfoModel {
    /// The commit's place in the graph.
    pub open spec fn node(self) -> Node {
        Node { id: self.id, parents: self.parent_ids }
    }
}

/// The graph of a walk.
pub open spec fn walk_nodes(commits: Seq<CommitInfoModel>) -> Seq<Node> {
    commits.map_values(|commit: CommitInfoModel| commit.node())
}

/// Every commit that is a parent of another stands before it: where the
/// commit at `a` is a parent of the commit at `b`, `a < b`.
pub open spec fn parents_first(nodes: Seq<Node>) -> bool {
    forall|a: int, b: int|
        0 <= a < nodes.len() && 0 <= b < nodes.len() && #[trigger] nodes[b].parents.contains(
            #[trigger] nodes[a].id,
        ) ==> a < b
}

/// A child that does not come after one of its parents.
#[derive(Clone, Copy, Debug, PartialEq, Eq, Structural)]
pub struct OrderViolation {
    /// Position of the child.
    pub child: usize,
    /// Position of a parent of it, not before the child.
    pub parent: usize,
}

/// Whether a pair of positions is the first place where a walk is out of
/// order: the child is the first commit with a parent that does not stand
/// before it, the parent's identifier is the first in the child's list that
/// such a commit bears, and the parent is the last commit that bears it.
pub open spec fn first_violation(nodes: Seq<Node>, found: OrderViolation) -> bool {
    let child = found.child as int;
    let parent = found.parent as int;
    &&& 0 <= child <= parent < nodes.len()
    &&& forall|a: int, b: int|
        0 <= a < nodes.len() && 0 <= b < child && #[trigger] nodes[b].parents.contains(
            #[trigger] nodes[a].id,
        ) ==> a < b
    &&& forall|later: int|
        parent < later < nodes.len() ==> (#[trigger] nodes[later]).id != nodes[parent].id
    &&& exists|q: int|
        {
            &&& 0 <= q < nodes[child].parents.len()
            &&& #[trigger] nodes[child].parents[q] == nodes[parent].id
            &&& forall|e: int, a: int|
                0 <= e < q && child <= a < nodes.len() ==> (#[trigger] nodes[a]).id
                    != #[trigger] nodes[child].parents[e]
        }
}

/// What the table of last positions holds once the first `count` commits are
/// entered: each identifier among them, with the last position it stands at.
spec fn last_positions(
    nodes: Seq<Node>,
    count: int,
    last: Map<Seq<char>, usize>,
) -> bool {
    &&& forall|j: int| 0 <= j < count ==> last.contains_key(#[trigger] nodes[j].id)
    &&& forall|j: int|
        0 <= j < count ==> j <= last[#[trigger] nodes[j].id]
    &&& forall|key: Seq<char>|
        #[trigger] last.contains_key(key) ==> 0 <= last[key] < count && nodes[last[key] as int].id
            == key
}

/// The name of the reference that a branch's head is kept under.
pub fn branch_reference(branch: &str) -> (reference: String)
    ensures
        reference@ == "refs/heads/"@ + branch@,
{
    let mut reference = String::from_str("refs/heads/");
    reference.append(branch);
    reference
}

/// Takes the commits of a branch as the engine walked them, oldest first, and
/// hands them on in that order once it has seen that every parent among them
/// stands before its children.  A walk in another order is refused, with one
/// pair of positions that shows it.
pub fn collect_all_commits(walked: Vec<CommitInfo>) -> (collected: Result<
    Vec<CommitInfo>,
    OrderViolation,
>)
    ensures
        collected is Ok <==> parents_first(walk_nodes(walked.deep_view())),
        collected matches Ok(commits) ==> commits == walked,
        collected matches Err(found) ==> first_violation(walk_nodes(walked.deep_view()), found),
{
    let ghost nodes = walk_nodes(walked.deep_view());
    let count = walked.len();
    let mut last: StringHashMap<usize> = StringHashMap::new();
    let mut entered: usize = 0;
    while entered < count
        invariant
            count == walked.len(),
            nodes == walk_nodes(walked.deep_view()),
            entered <= count,
            last_positions(nodes, entered as int, last@),
        decreases count - entered,
    {
        let id = walked[entered].id.clone();
        assert(id@ == nodes[entered as int].id);
        last.insert(id, entered);
        entered = entered + 1;
    }
    let mut child: usize = 0;
    while child < count
        invariant
            count == walked.len(),
            nodes == walk_nodes(walked.deep_view()),
            nodes.len() == count,
            child <= count,
            last_positions(nodes, count as int, last@),
            forall|a: int, b: int|
                0 <= a < count && 0 <= b < child && #[trigger] nodes[b].parents.contains(
                    #[trigger] nodes[a].id,
                ) ==> a < b,
        decreases count - child,
    {
        let parents = &walked[child].parent_ids;
        assert(parents.deep_view() == nodes[child as int].parents);
        let mut k: usize = 0;
        while k < parents.len()
            invariant
                count == walked.len(),
                nodes == walk_nodes(walked.deep_view()),
                nodes.len() == count,
                child < count,
                k <= parents.len(),
                parents.deep_view() == nodes[child as int].parents,
                last_positions(nodes, count as int, last@),
                forall|a: int, b: int|
                    0 <= a < count && 0 <= b < child && #[trigger] nodes[b].parents.contains(
                        #[trigger] nodes[a].id,
                    ) ==> a < b,
                forall|q: int|
                    0 <= q < k && last@.contains_key(#[trigger] nodes[child as int].parents[q])
                        ==> last@[nodes[child as int].parents[q]] < child,
            decreases parents.len() - k,
        {
            assert(parents[k as int]@ == nodes[child as int].parents[k as int]);
            match last.get(parents[k].as_str()) {
                Some(position) => {
                    if *position >= child {
                        let found = OrderViolation { child, parent: *position };
                        proof {
                            let key = nodes[child as int].parents[k as int];
                            assert(nodes[*position as int].id == key);
                            assert forall|later: int|
                                *position < later < nodes.len()
                            implies (#[trigger] nodes[later]).id != key by {
                                if nodes[later].id == key {
                                    assert(later <= last@[nodes[later].id]);
                                }
                            }
                            assert forall|e: int, a: int|
                                0 <= e < k && child <= a < nodes.len()
                            implies (#[trigger] nodes[a]).id
                                != #[trigger] nodes[child as int].parents[e] by {
                                if nodes[a].id == nodes[child as int].parents[e] {
                                    assert(last@.contains_key(nodes[a].id));
                                    assert(a <= last@[nodes[a].id]);
                                }
                            }
                            assert(nodes[child as int].parents.contains(
                                nodes[*position as int].id,
                            ));
                            assert(first_violation(nodes, found));
                        }
                        return Err(found);
                    }
                },
                None => {},
            }
            k = k + 1;
        }
        assert forall|a: int|
            0 <= a < count && #[trigger] nodes[child as int].parents.contains(
                nodes[a].id,
            ) implies a < child by {
            let q = choose|q: int|
                0 <= q < nodes[child as int].parents.len() && nodes[child as int].parents[q]
                    == nodes[a].id;
            assert(last@.contains_key(nodes[child as int].parents[q]));
        }
        child = child + 1;
    }
    Ok(walked)
}

} // verus!
