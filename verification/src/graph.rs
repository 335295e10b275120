//! The node and edge lists that are handed to the graph widget, and the
//! mathematical values they stand for.

use crate::category::NodeCategory;
use vstd::prelude::*;
use vstd::std_specs::cmp::PartialEqSpecImpl;
use vstd::string::*;

verus! {

/// The most nodes a graph ever holds.
pub const MAX_NODES: usize = 100;

/// Identifier of a commit, as issued by the repository. It is only ever
/// compared, never interpreted.
#[derive(Debug)]
pub struct CommitId {
    pub bytes: Vec<u8>,
}

impl View for CommitId {
    type V = Seq<u8>;

    open spec fn view(&self) -> Seq<u8> {
        self.bytes@
    }
}

impl CommitId {
    /// The identifier made of `bytes`.
    pub fn new(bytes: Vec<u8>) -> (id: CommitId)
        ensures
            id@ == bytes@,
    {
        CommitId { bytes }
    }
}

impl Clone for CommitId {
    fn clone(&self) -> (id: CommitId)
        ensures
            id@ == self@,
    {
        let bytes = self.bytes.clone();
        assert(bytes@ =~= self.bytes@);
        CommitId { bytes }
    }
}

impl PartialEq for CommitId {
    fn eq(&self, other: &CommitId) -> (same: bool) {
        let same = self.bytes == other.bytes;
        assert(same == (self.bytes@ =~= other.bytes@));
        same
    }
}

impl PartialEqSpecImpl for CommitId {
    open spec fn obeys_eq_spec() -> bool {
        true
    }

    open spec fn eq_spec(&self, other: &CommitId) -> bool {
        self@ == other@
    }
}

/// What a [`GraphNode`] holds, as mathematical values.
pub struct NodeView {
    pub id: Seq<u8>,
    pub label: Seq<char>,
    pub category: Option<NodeCategory>,
}

/// One displayed commit. Its category is `None` until the node is classified.
#[derive(Debug)]
pub struct GraphNode {
    pub id: CommitId,
    pub label: String,
    pub category: Option<NodeCategory>,
}

impl View for GraphNode {
    type V = NodeView;

    open spec fn view(&self) -> NodeView {
        NodeView { id: self.id@, label: self.label@, category: self.category }
    }
}

/// What a [`GraphEdge`] holds, as mathematical values.
pub struct EdgeView {
    pub source: Seq<u8>,
    pub target: Seq<u8>,
}

/// A parent link: `target` is a parent of `source`.
#[derive(Debug)]
pub struct GraphEdge {
    pub source: CommitId,
    pub target: CommitId,
}

impl View for GraphEdge {
    type V = EdgeView;

    open spec fn view(&self) -> EdgeView {
        EdgeView { source: self.source@, target: self.target@ }
    }
}

/// The views of `nodes`, in order.
pub open spec fn node_views(nodes: Seq<GraphNode>) -> Seq<NodeView> {
    Seq::new(nodes.len(), |i: int| nodes[i]@)
}

/// The views of `edges`, in order.
pub open spec fn edge_views(edges: Seq<GraphEdge>) -> Seq<EdgeView> {
    Seq::new(edges.len(), |i: int| edges[i]@)
}

/// The views of `ids`, in order.
pub open spec fn id_views(ids: Seq<CommitId>) -> Seq<Seq<u8>> {
    Seq::new(ids.len(), |i: int| ids[i]@)
}

/// Whether one of `nodes` has the identifier `id`.
pub open spec fn has_node(nodes: Seq<NodeView>, id: Seq<u8>) -> bool {
    exists|i: int| 0 <= i < nodes.len() && (#[trigger] nodes[i]).id == id
}

/// What a [`Graph`] holds, as mathematical values.
pub struct GraphView {
    pub nodes: Seq<NodeView>,
    pub edges: Seq<EdgeView>,
}

impl GraphView {
    /// The graph without nodes.
    pub open spec fn empty() -> GraphView {
        GraphView { nodes: Seq::empty(), edges: Seq::empty() }
    }

    /// The graph keeps to the node limit and has no dangling edge: both ends
    /// of every edge are nodes of this graph.
    pub open spec fn wf(self) -> bool {
        &&& self.nodes.len() <= MAX_NODES
        &&& forall|j: int|
            0 <= j < self.edges.len() ==> has_node(self.nodes, (#[trigger] self.edges[j]).source)
                && has_node(self.nodes, self.edges[j].target)
    }

    /// This graph with its nodes classified: node `i` gets `categories[i]`.
    /// Identifiers, labels and edges stay.
    pub open spec fn with_categories(self, categories: Seq<NodeCategory>) -> GraphView {
        GraphView {
            nodes: Seq::new(
                self.nodes.len(),
                |i: int| NodeView { category: Some(categories[i]), ..self.nodes[i] },
            ),
            edges: self.edges,
        }
    }

    /// Whether every node has a category.
    pub open spec fn classified(self) -> bool {
        forall|i: int| 0 <= i < self.nodes.len() ==> (#[trigger] self.nodes[i]).category is Some
    }
}

/// The two characters that open the label of the working-copy commit.
pub open spec fn working_copy_marker() -> Seq<char> {
    seq!['@', ' ']
}

/// The label of a node: the first `prefix_len` characters of the change
/// identifier (all of it if it is shorter), behind the working-copy marker if
/// the commit is the working copy.
pub open spec fn label_of(change_id: Seq<char>, prefix_len: nat, is_wc_commit: bool) -> Seq<char> {
    let shown = if prefix_len < change_id.len() {
        change_id.take(prefix_len as int)
    } else {
        change_id
    };
    if is_wc_commit {
        working_copy_marker() + shown
    } else {
        shown
    }
}

/// The label of a node.
pub fn make_label(change_id: &str, prefix_len: usize, is_wc_commit: bool) -> (label: String)
    ensures
        label@ == label_of(change_id@, prefix_len as nat, is_wc_commit),
{
    let len: usize = change_id.unicode_len();
    let shown = if prefix_len < len {
        change_id.substring_char(0, prefix_len)
    } else {
        change_id
    };
    assert(shown@ =~= if prefix_len < change_id@.len() {
        change_id@.take(prefix_len as int)
    } else {
        change_id@
    });
    if is_wc_commit {
        let mut label = "@ ".to_owned();
        proof {
            reveal_strlit("@ ");
            assert("@ "@ =~= working_copy_marker());
        }
        label.append(shown);
        label
    } else {
        shown.to_owned()
    }
}

/// Whether `id` is the working-copy commit.
pub fn is_working_copy(working_copy: &Option<CommitId>, id: &CommitId) -> (yes: bool)
    ensures
        yes == (working_copy is Some && working_copy->0@ == id@),
{
    match working_copy {
        Some(wc) => *wc == *id,
        None => false,
    }
}

/// Whether one of `nodes` has the identifier `id`.
pub fn contains_id(nodes: &Vec<GraphNode>, id: &CommitId) -> (found: bool)
    ensures
        found == has_node(node_views(nodes@), id@),
{
    let mut i: usize = 0;
    while i < nodes.len()
        invariant
            i <= nodes.len(),
            forall|k: int| 0 <= k < i ==> (#[trigger] node_views(nodes@)[k]).id != id@,
        decreases nodes.len() - i,
    {
        if nodes[i].id == *id {
            assert(node_views(nodes@)[i as int].id == id@);
            return true;
        }
        i += 1;
    }
    false
}

/// The nodes and parent links that are displayed.
#[derive(Debug)]
pub struct Graph {
    nodes: Vec<GraphNode>,
    edges: Vec<GraphEdge>,
}

impl View for Graph {
    type V = GraphView;

    closed spec fn view(&self) -> GraphView {
        GraphView { nodes: node_views(self.nodes@), edges: edge_views(self.edges@) }
    }
}

impl Graph {
    /// Every graph keeps to the node limit and has no dangling edge.
    #[verifier::type_invariant]
    spec fn inv(&self) -> bool {
        self@.wf()
    }

    /// The graph without nodes.
    pub fn new() -> (graph: Graph)
        ensures
            graph@.wf(),
            graph@ == GraphView::empty(),
    {
        let graph = Graph { nodes: Vec::new(), edges: Vec::new() };
        assert(graph@.nodes =~= Seq::<NodeView>::empty());
        assert(graph@.edges =~= Seq::<EdgeView>::empty());
        graph
    }

    /// The graph of `nodes` and `edges`.
    pub(crate) fn from_parts(nodes: Vec<GraphNode>, edges: Vec<GraphEdge>) -> (graph: Graph)
        requires
            (GraphView { nodes: node_views(nodes@), edges: edge_views(edges@) }).wf(),
        ensures
            graph@ == (GraphView { nodes: node_views(nodes@), edges: edge_views(edges@) }),
    {
        Graph { nodes, edges }
    }

    /// The nodes, in the order in which the engine gave them: at most
    /// `MAX_NODES`.
    pub fn nodes(&self) -> (nodes: &Vec<GraphNode>)
        ensures
            node_views(nodes@) == self@.nodes,
            nodes@.len() <= MAX_NODES,
    {
        proof {
            use_type_invariant(self);
        }
        &self.nodes
    }

    /// The parent links. Both ends of each are nodes of this graph.
    pub fn edges(&self) -> (edges: &Vec<GraphEdge>)
        ensures
            edge_views(edges@) == self@.edges,
            self@.wf(),
    {
        proof {
            use_type_invariant(self);
        }
        &self.edges
    }

    /// The position of the node with the identifier `id`: the last one, should
    /// the engine have given a commit twice. The nodes are searched one by
    /// one: there are at most `MAX_NODES` of them.
    pub fn index_of(&self, id: &CommitId) -> (found: Option<usize>)
        ensures
            found is None <==> !has_node(self@.nodes, id@),
            found matches Some(i) ==> i < self@.nodes.len() && self@.nodes[i as int].id == id@
                && forall|k: int| i < k < self@.nodes.len() ==> (#[trigger] self@.nodes[k]).id != id@,
    {
        let mut i: usize = self.nodes.len();
        while i > 0
            invariant
                i <= self.nodes.len(),
                forall|k: int| i <= k < self.nodes.len() ==> (#[trigger] self@.nodes[k]).id != id@,
            decreases i,
        {
            i -= 1;
            if self.nodes[i].id == *id {
                assert(self@.nodes[i as int].id == id@);
                return Some(i);
            }
        }
        None
    }

    /// Gives node `i` the category `categories[i]`, for every node.
    pub(crate) fn set_categories(&mut self, categories: &Vec<NodeCategory>)
        requires
            categories@.len() == old(self)@.nodes.len(),
        ensures
            final(self)@ == old(self)@.with_categories(categories@),
    {
        proof {
            use_type_invariant(&*self);
        }
        // The lists are taken out of `self`, edges first, and put back, nodes
        // first: a graph without edges has no dangling edge.
        let mut edges: Vec<GraphEdge> = Vec::new();
        std::mem::swap(&mut self.edges, &mut edges);
        let mut nodes: Vec<GraphNode> = Vec::new();
        std::mem::swap(&mut self.nodes, &mut nodes);
        let ghost before = node_views(nodes@);
        let mut i: usize = 0;
        while i < nodes.len()
            invariant
                i <= nodes.len(),
                nodes@.len() == before.len(),
                categories@.len() == before.len(),
                forall|k: int|
                    0 <= k < i ==> (#[trigger] nodes@[k])@ == (NodeView {
                        category: Some(categories@[k]),
                        ..before[k]
                    }),
                forall|k: int| i <= k < nodes.len() ==> (#[trigger] nodes@[k])@ == before[k],
            decreases nodes.len() - i,
        {
            let ghost earlier = nodes@;
            nodes[i].category = Some(categories[i]);
            assert(forall|k: int| 0 <= k < nodes.len() && k != i ==> nodes@[k] == earlier[k]);
            assert(nodes@[i as int].id == earlier[i as int].id);
            assert(nodes@[i as int].label == earlier[i as int].label);
            i += 1;
        }
        proof {
            let after = node_views(nodes@);
            assert(after =~= old(self)@.with_categories(categories@).nodes);
            assert forall|id: Seq<u8>| has_node(before, id) implies has_node(after, id) by {
                let k = choose|k: int| 0 <= k < before.len() && (#[trigger] before[k]).id == id;
                assert(after[k].id == id);
            }
        }
        std::mem::swap(&mut self.nodes, &mut nodes);
        std::mem::swap(&mut self.edges, &mut edges);
    }
}

} // verus!
