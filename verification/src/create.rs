//! Building the size-bounded graph from the commits of an evaluated view
//! query.

use crate::graph::{
    contains_id, edge_views, has_node, is_working_copy, make_label, node_views, CommitId, EdgeView,
    Graph, GraphEdge, GraphNode, GraphView, NodeView, MAX_NODES,
};
use crate::revset::{
    fetched_view, fetched_views, reverse_hex, Revision, RevisionView, RevsetError,
};
use vstd::prelude::*;
use vstd::std_specs::iter::IteratorSpec;

verus! {

/// Why no graph was built.
#[derive(Debug, PartialEq)]
pub enum CreateError {
    /// The view query could not be resolved.
    RevsetParseError(String),
    /// The engine failed while the commits were read.
    JjError(String),
}

/// What a [`CreateError`] holds, as mathematical values.
pub enum CreateErrorView {
    RevsetParseError(Seq<char>),
    JjError(Seq<char>),
}

impl View for CreateError {
    type V = CreateErrorView;

    open spec fn view(&self) -> CreateErrorView {
        match self {
            CreateError::RevsetParseError(message) => CreateErrorView::RevsetParseError(message@),
            CreateError::JjError(message) => CreateErrorView::JjError(message@),
        }
    }
}

impl CreateErrorView {
    /// The text that is shown for this error.
    pub open spec fn message(self) -> Seq<char> {
        match self {
            CreateErrorView::RevsetParseError(message) => message,
            CreateErrorView::JjError(message) => message,
        }
    }
}

impl CreateError {
    /// The text that is shown for this error.
    pub fn message(&self) -> (text: &String)
        ensures
            text@ == self@.message(),
    {
        match self {
            CreateError::RevsetParseError(message) => message,
            CreateError::JjError(message) => message,
        }
    }
}

/// The view of an optional identifier.
pub open spec fn option_view(id: Option<CommitId>) -> Option<Seq<u8>> {
    match id {
        Some(id) => Some(id@),
        None => None,
    }
}

/// The node that displays `revision`, not yet classified: its label is the
/// change identifier, written out and cut to the prefix that tells it apart.
pub open spec fn node_of(revision: RevisionView, working_copy: Option<Seq<u8>>) -> NodeView {
    NodeView {
        id: revision.id,
        label: crate::graph::label_of(
            reverse_hex(revision.change_id),
            revision.prefix_len,
            working_copy == Some(revision.id),
        ),
        category: None,
    }
}

/// The nodes that display `revisions`, in order.
pub open spec fn nodes_of(revisions: Seq<RevisionView>, working_copy: Option<Seq<u8>>) -> Seq<
    NodeView,
> {
    Seq::new(revisions.len(), |i: int| node_of(revisions[i], working_copy))
}

/// The parent links of `revision`, in the order of its parents.
pub open spec fn edges_of(revision: RevisionView) -> Seq<EdgeView> {
    Seq::new(
        revision.parents.len(),
        |k: int| EdgeView { source: revision.id, target: revision.parents[k] },
    )
}

/// The parent links of all `revisions`, in order, whether or not the parent is
/// one of them.
pub open spec fn candidate_edges(revisions: Seq<RevisionView>) -> Seq<EdgeView>
    decreases revisions.len(),
{
    if revisions.len() == 0 {
        Seq::empty()
    } else {
        candidate_edges(revisions.drop_last()) + edges_of(revisions.last())
    }
}

/// The test that an edge passes when both of its ends are among `nodes`.
pub open spec fn both_ends_in(nodes: Seq<NodeView>) -> spec_fn(EdgeView) -> bool {
    |edge: EdgeView| has_node(nodes, edge.source) && has_node(nodes, edge.target)
}

/// The graph of `nodes` with those of the `candidates` that do not dangle,
/// in their order.
pub open spec fn graph_of(nodes: Seq<NodeView>, candidates: Seq<EdgeView>) -> GraphView {
    GraphView { nodes, edges: candidates.filter(both_ends_in(nodes)) }
}

/// What a [`GraphBuilder`] holds, as mathematical values.
pub struct BuilderView {
    /// The working-copy commit, if there is one.
    pub working_copy: Option<Seq<u8>>,
    /// The nodes taken so far.
    pub nodes: Seq<NodeView>,
    /// The parent links of the nodes taken so far.
    pub candidates: Seq<EdgeView>,
    /// The text of the engine's error, once it has failed.
    pub failure: Option<Seq<char>>,
}

impl BuilderView {
    /// The builder before the first item.
    pub open spec fn start(working_copy: Option<Seq<u8>>) -> BuilderView {
        BuilderView { working_copy, nodes: Seq::empty(), candidates: Seq::empty(), failure: None }
    }

    /// Whether the engine is to be asked for another item: not after a
    /// failure, and not once the node limit is reached.
    pub open spec fn wants_more(self) -> bool {
        self.failure is None && self.nodes.len() < MAX_NODES
    }

    /// The builder after the engine handed over `item`. An item that was not
    /// wanted is ignored.
    pub open spec fn push(self, item: Result<RevisionView, Seq<char>>) -> BuilderView {
        if !self.wants_more() {
            self
        } else {
            match item {
                Ok(revision) => BuilderView {
                    nodes: self.nodes.push(node_of(revision, self.working_copy)),
                    candidates: self.candidates + edges_of(revision),
                    ..self
                },
                Err(message) => BuilderView { failure: Some(message), ..self },
            }
        }
    }

    /// The builder after the engine handed over `items`, one by one.
    pub open spec fn push_all(self, items: Seq<Result<RevisionView, Seq<char>>>) -> BuilderView
        decreases items.len(),
    {
        if items.len() == 0 {
            self
        } else {
            self.push_all(items.drop_last()).push(items.last())
        }
    }

    /// What the build comes to: the engine's error if it failed, else the
    /// graph of the nodes taken and whether the node limit was reached.
    pub open spec fn finish(self) -> Result<(GraphView, bool), CreateErrorView> {
        match self.failure {
            Some(message) => Err(CreateErrorView::JjError(message)),
            None => Ok((graph_of(self.nodes, self.candidates), self.nodes.len() == MAX_NODES)),
        }
    }
}

/// Takes the commits of an evaluated query one by one, up to the node limit,
/// and makes the graph of them.
#[derive(Debug)]
pub struct GraphBuilder {
    working_copy: Option<CommitId>,
    nodes: Vec<GraphNode>,
    candidates: Vec<GraphEdge>,
    failure: Option<String>,
}

impl View for GraphBuilder {
    type V = BuilderView;

    closed spec fn view(&self) -> BuilderView {
        BuilderView {
            working_copy: option_view(self.working_copy),
            nodes: node_views(self.nodes@),
            candidates: edge_views(self.candidates@),
            failure: match self.failure {
                Some(message) => Some(message@),
                None => None,
            },
        }
    }
}

impl GraphBuilder {
    /// No builder holds more nodes than the limit.
    #[verifier::type_invariant]
    spec fn inv(&self) -> bool {
        self.nodes@.len() <= MAX_NODES
    }

    /// The builder before the first item.
    pub fn new(working_copy: Option<CommitId>) -> (builder: GraphBuilder)
        ensures
            builder@ == BuilderView::start(option_view(working_copy)),
    {
        let builder = GraphBuilder {
            working_copy,
            nodes: Vec::new(),
            candidates: Vec::new(),
            failure: None,
        };
        assert(builder@.nodes =~= Seq::<NodeView>::empty());
        assert(builder@.candidates =~= Seq::<EdgeView>::empty());
        builder
    }

    /// Whether the engine is to be asked for another item.
    pub fn wants_more(&self) -> (more: bool)
        ensures
            more == self@.wants_more(),
    {
        self.failure.is_none() && self.nodes.len() < MAX_NODES
    }

    /// Takes the next item of the engine: a commit, or the text of its error.
    pub fn push(&mut self, item: &Result<Revision, String>)
        ensures
            final(self)@ == old(self)@.push(fetched_view(*item)),
    {
        proof {
            use_type_invariant(&*self);
        }
        if !self.wants_more() {
            return;
        }
        match item {
            Err(message) => {
                self.failure = Some(message.clone());
            },
            Ok(revision) => {
                let is_wc_commit = is_working_copy(&self.working_copy, &revision.id);
                let change_id = jj_lib::hex_util::encode_reverse_hex(revision.change_id.as_slice());
                let node = GraphNode {
                    id: revision.id.clone(),
                    label: make_label(change_id.as_str(), revision.prefix_len, is_wc_commit),
                    category: None,
                };
                assert(node@ == node_of(revision@, self@.working_copy));
                // Both lists are extended outside of `self`.
                let mut candidates: Vec<GraphEdge> = Vec::new();
                std::mem::swap(&mut self.candidates, &mut candidates);
                let mut k: usize = 0;
                while k < revision.parents.len()
                    invariant
                        k <= revision.parents.len(),
                        edge_views(candidates@) =~= old(self)@.candidates + edges_of(revision@).take(
                            k as int,
                        ),
                    decreases revision.parents.len() - k,
                {
                    let edge = GraphEdge {
                        source: revision.id.clone(),
                        target: revision.parents[k].clone(),
                    };
                    assert(edge@ == edges_of(revision@)[k as int]);
                    let ghost earlier = edge_views(candidates@);
                    candidates.push(edge);
                    assert(edge_views(candidates@) =~= earlier.push(edge@));
                    assert(edges_of(revision@).take(k + 1) =~= edges_of(revision@).take(k as int).push(
                        edge@,
                    ));
                    k += 1;
                }
                assert(edges_of(revision@).take(k as int) =~= edges_of(revision@));
                std::mem::swap(&mut self.candidates, &mut candidates);
                let mut nodes: Vec<GraphNode> = Vec::new();
                std::mem::swap(&mut self.nodes, &mut nodes);
                nodes.push(node);
                assert(node_views(nodes@) =~= old(self)@.nodes.push(node@));
                std::mem::swap(&mut self.nodes, &mut nodes);
            },
        }
    }

    /// Takes items from `items` for as long as another one is wanted and
    /// there is one. No item is asked for that is not wanted.
    ///
    /// Whatever the iterator does, the builder ends as if the items that it
    /// gave had been pushed one by one. Of an iterator that keeps to the laws
    /// of iterators more is known: the builder ends as if all of its items
    /// had been pushed, and the iterator was asked for an item only while the
    /// builder wanted one.
    pub fn take_from<I: Iterator<Item = Result<Revision, String>>>(&mut self, items: &mut I)
        ensures
            exists|taken: Seq<Result<Revision, String>>|
                final(self)@ == old(self)@.push_all(#[trigger] fetched_views(taken)),
            <I as IteratorSpec>::obeys_prophetic_iter_laws(old(items)) ==> {
                let held = <I as IteratorSpec>::remaining(old(items));
                let left = <I as IteratorSpec>::remaining(final(items));
                &&& final(self)@ == old(self)@.push_all(fetched_views(held))
                &&& exists|count: int|
                    {
                        &&& 0 <= count <= held.len()
                        &&& left == #[trigger] held.skip(count)
                        &&& count > 0 ==> old(self)@.push_all(
                            fetched_views(held.take(count - 1)),
                        ).wants_more()
                    }
            },
    {
        let ghost all = <I as IteratorSpec>::remaining(items);
        let ghost lawful = <I as IteratorSpec>::obeys_prophetic_iter_laws(items);
        let ghost mut taken: Seq<Result<Revision, String>> = Seq::empty();
        assert(fetched_views(taken) =~= Seq::empty());
        assert(all.skip(0) =~= all);
        assert(all.take(0) =~= taken);
        loop
            invariant
                self@ == old(self)@.push_all(fetched_views(taken)),
                lawful == <I as IteratorSpec>::obeys_prophetic_iter_laws(items),
                lawful ==> {
                    &&& taken.len() <= all.len()
                    &&& taken == all.take(taken.len() as int)
                    &&& <I as IteratorSpec>::remaining(items) == all.skip(taken.len() as int)
                    &&& taken.len() > 0 ==> old(self)@.push_all(
                        fetched_views(all.take(taken.len() - 1)),
                    ).wants_more()
                },
            ensures
                self@ == old(self)@.push_all(fetched_views(taken)),
                lawful ==> {
                    &&& taken.len() <= all.len()
                    &&& taken == all.take(taken.len() as int)
                    &&& <I as IteratorSpec>::remaining(items) == all.skip(taken.len() as int)
                    &&& taken.len() > 0 ==> old(self)@.push_all(
                        fetched_views(all.take(taken.len() - 1)),
                    ).wants_more()
                    &&& !self@.wants_more() || taken.len() == all.len()
                },
            decreases
                (if self@.failure is None { 1nat } else { 0nat }) + MAX_NODES - self@.nodes.len(),
        {
            proof {
                use_type_invariant(&*self);
            }
            if !self.wants_more() {
                break;
            }
            let ghost rest = <I as IteratorSpec>::remaining(items);
            let ghost shorter = taken;
            let next = items.next();
            match next {
                Some(item) => {
                    self.push(&item);
                    proof {
                        taken = taken.push(item);
                    }
                    assert(fetched_views(taken).drop_last() =~= fetched_views(shorter));
                    assert(fetched_views(taken).last() == fetched_view(item));
                    assert(lawful ==> {
                        &&& taken.len() <= all.len()
                        &&& taken == all.take(taken.len() as int)
                        &&& <I as IteratorSpec>::remaining(items) == all.skip(taken.len() as int)
                        &&& all.take(taken.len() - 1) == shorter
                    }) by {
                        if lawful {
                            assert(rest.len() > 0);
                            assert(item == all[shorter.len() as int]);
                            assert(taken =~= all.take(taken.len() as int));
                            assert(all.skip(shorter.len() as int).drop_first() =~= all.skip(
                                taken.len() as int,
                            ));
                            assert(all.take(taken.len() - 1) =~= shorter);
                        }
                    }
                },
                None => {
                    assert(lawful ==> taken.len() == all.len()) by {
                        if lawful {
                            assert(rest.len() == 0);
                        }
                    }
                    break;
                },
            }
        }
        assert(lawful ==> self@ == old(self)@.push_all(fetched_views(all))) by {
            if lawful {
                if taken.len() < all.len() {
                    let behind = all.skip(taken.len() as int);
                    assert(all =~= taken + behind);
                    assert(fetched_views(all) =~= fetched_views(taken) + fetched_views(behind));
                    lemma_push_all_append(old(self)@, fetched_views(taken), fetched_views(behind));
                    lemma_push_all_ignored(self@, fetched_views(behind));
                } else {
                    assert(all =~= taken);
                }
            }
        }
    }

    /// Ends the build: the engine's error if it failed, else the graph of the
    /// nodes taken, without the edges that dangle, and whether the node limit
    /// was reached.
    pub fn finish(self) -> (result: Result<(Graph, bool), CreateError>)
        ensures
            outcome_view(result) == self@.finish(),
            result matches Ok((graph, overflow)) ==> graph@.wf() && (overflow <==> graph@.nodes.len()
                == MAX_NODES),
    {
        proof {
            use_type_invariant(&self);
        }
        let GraphBuilder { working_copy: _, nodes, candidates, failure } = self;
        match failure {
            Some(message) => Err(CreateError::JjError(message)),
            None => {
                let ghost keep = both_ends_in(node_views(nodes@));
                let mut edges: Vec<GraphEdge> = Vec::new();
                let mut j: usize = 0;
                assert(edge_views(candidates@).take(0) =~= Seq::<EdgeView>::empty());
                assert(edge_views(edges@) =~= Seq::<EdgeView>::empty().filter(keep)) by {
                    reveal(Seq::filter);
                }
                while j < candidates.len()
                    invariant
                        j <= candidates.len(),
                        keep == both_ends_in(node_views(nodes@)),
                        edge_views(edges@) =~= edge_views(candidates@).take(j as int).filter(keep),
                    decreases candidates.len() - j,
                {
                    let candidate = &candidates[j];
                    let ghost before = edge_views(candidates@).take(j as int);
                    let ghost after = edge_views(candidates@).take(j + 1);
                    assert(after.drop_last() =~= before);
                    assert(after.last() == candidate@);
                    assert(after.filter(keep) == if keep(candidate@) {
                        before.filter(keep).push(candidate@)
                    } else {
                        before.filter(keep)
                    }) by {
                        reveal(Seq::filter);
                    }
                    if contains_id(&nodes, &candidate.source) && contains_id(&nodes, &candidate.target) {
                        edges.push(
                            GraphEdge {
                                source: candidate.source.clone(),
                                target: candidate.target.clone(),
                            },
                        );
                    }
                    j += 1;
                }
                assert(edge_views(candidates@).take(j as int) =~= edge_views(candidates@));
                let overflow = nodes.len() == MAX_NODES;
                proof {
                    let kept = edge_views(candidates@).filter(keep);
                    assert forall|e: int| 0 <= e < kept.len() implies has_node(
                        node_views(nodes@),
                        (#[trigger] kept[e]).source,
                    ) && has_node(node_views(nodes@), kept[e].target) by {
                        edge_views(candidates@).lemma_filter_pred(keep, e);
                    }
                }
                Ok((Graph::from_parts(nodes, edges), overflow))
            },
        }
    }
}

/// The view of what a build came to.
pub open spec fn outcome_view(result: Result<(Graph, bool), CreateError>) -> Result<
    (GraphView, bool),
    CreateErrorView,
> {
    match result {
        Ok((graph, overflow)) => Ok((graph@, overflow)),
        Err(error) => Err(error@),
    }
}

/// The items that a build reads: the first `MAX_NODES`, or all of them where
/// there are fewer.
pub open spec fn read_items(items: Seq<Result<RevisionView, Seq<char>>>) -> Seq<
    Result<RevisionView, Seq<char>>,
> {
    if items.len() > MAX_NODES {
        items.take(MAX_NODES as int)
    } else {
        items
    }
}

/// Whether the engine failed on none of `items`.
pub open spec fn all_fetched(items: Seq<Result<RevisionView, Seq<char>>>) -> bool {
    forall|i: int| 0 <= i < items.len() ==> (#[trigger] items[i]) is Ok
}

/// Whether `i` is the place of the first of `items` on which the engine failed.
pub open spec fn is_first_failure(items: Seq<Result<RevisionView, Seq<char>>>, i: int) -> bool {
    &&& 0 <= i < items.len()
    &&& items[i] is Err
    &&& all_fetched(items.take(i))
}

/// The place of the first of `items` on which the engine failed.
pub open spec fn first_failure(items: Seq<Result<RevisionView, Seq<char>>>) -> int {
    choose|i: int| is_first_failure(items, i)
}

/// The revisions of `items`, in order, where the engine failed on none.
pub open spec fn revisions(items: Seq<Result<RevisionView, Seq<char>>>) -> Seq<RevisionView> {
    Seq::new(items.len(), |i: int| items[i]->Ok_0)
}

/// The view of an evaluated query: its items, or the text of the error with
/// which it could not be resolved.
pub open spec fn evaluated_view(revset: Result<Vec<Result<Revision, String>>, RevsetError>) -> Result<
    Seq<Result<RevisionView, Seq<char>>>,
    Seq<char>,
> {
    match revset {
        Ok(items) => Ok(fetched_views(items@)),
        Err(error) => Err(error.spec_message()),
    }
}

/// What building a graph from an evaluated view query comes to.
///
/// A query that could not be resolved gives its error. Otherwise the first
/// `MAX_NODES` items are read. If the engine failed on one of them, the first
/// such failure is the error. If not, each item read becomes a node, in
/// order; the edges are the parent links of these items whose two ends are
/// both among the nodes; and the flag tells whether exactly `MAX_NODES` nodes
/// were made.
pub open spec fn created(
    revset: Result<Seq<Result<RevisionView, Seq<char>>>, Seq<char>>,
    working_copy: Option<Seq<u8>>,
) -> Result<(GraphView, bool), CreateErrorView> {
    match revset {
        Err(message) => Err(CreateErrorView::RevsetParseError(message)),
        Ok(items) => {
            let read = read_items(items);
            if all_fetched(read) {
                Ok(
                    (
                        graph_of(
                            nodes_of(revisions(read), working_copy),
                            candidate_edges(revisions(read)),
                        ),
                        read.len() == MAX_NODES,
                    ),
                )
            } else {
                Err(CreateErrorView::JjError(read[first_failure(read)]->Err_0))
            }
        },
    }
}

/// Only one place is the place of the first failure.
proof fn lemma_first_failure_unique(items: Seq<Result<RevisionView, Seq<char>>>, i: int)
    requires
        is_first_failure(items, i),
    ensures
        first_failure(items) == i,
        !all_fetched(items),
{
    let j = first_failure(items);
    assert(is_first_failure(items, j));
    if j < i {
        assert(items.take(i)[j] is Ok);
    }
    if i < j {
        assert(items.take(j)[i] is Ok);
    }
}

/// Reading one more revision adds its node and its parent links.
proof fn lemma_read_one_more(
    items: Seq<Result<RevisionView, Seq<char>>>,
    i: int,
    working_copy: Option<Seq<u8>>,
)
    requires
        0 <= i < items.len(),
        all_fetched(items.take(i + 1)),
    ensures
        all_fetched(items.take(i)),
        nodes_of(revisions(items.take(i + 1)), working_copy) == nodes_of(
            revisions(items.take(i)),
            working_copy,
        ).push(node_of(items[i]->Ok_0, working_copy)),
        candidate_edges(revisions(items.take(i + 1))) == candidate_edges(revisions(items.take(i)))
            + edges_of(items[i]->Ok_0),
{
    let shorter = items.take(i);
    let longer = items.take(i + 1);
    assert forall|k: int| 0 <= k < shorter.len() implies (#[trigger] shorter[k]) is Ok by {
        assert(longer[k] is Ok);
    }
    assert(revisions(longer).drop_last() =~= revisions(shorter));
    assert(revisions(longer).last() == items[i]->Ok_0);
    assert(nodes_of(revisions(longer), working_copy) =~= nodes_of(revisions(shorter), working_copy).push(
        node_of(items[i]->Ok_0, working_copy),
    ));
}

/// Builds the graph of an evaluated view query: see [`created`].
pub fn create_graph(
    revset: &Result<Vec<Result<Revision, String>>, RevsetError>,
    working_copy: Option<CommitId>,
) -> (result: Result<(Graph, bool), CreateError>)
    ensures
        outcome_view(result) == created(evaluated_view(*revset), option_view(working_copy)),
        result matches Ok((graph, overflow)) ==> graph@.wf() && (overflow <==> graph@.nodes.len()
            == MAX_NODES),
{
    let items = match revset {
        Err(error) => {
            return Err(CreateError::RevsetParseError(error.message()));
        },
        Ok(items) => items,
    };
    let ghost wc = option_view(working_copy);
    let ghost views = fetched_views(items@);
    let mut builder = GraphBuilder::new(working_copy);
    let ghost start = builder@;
    let mut i: usize = 0;
    assert(views.take(0) =~= Seq::empty());
    while i < items.len() && builder.wants_more()
        invariant
            i <= items.len(),
            views == fetched_views(items@),
            builder@ == start.push_all(views.take(i as int)),
        decreases items.len() - i,
    {
        builder.push(&items[i]);
        assert(views.take(i + 1).drop_last() =~= views.take(i as int));
        assert(views.take(i + 1).last() == fetched_view(items@[i as int]));
        i += 1;
    }
    proof {
        // What lies behind the items taken would have been ignored.
        let behind = views.skip(i as int);
        assert(views =~= views.take(i as int) + behind);
        lemma_push_all_append(start, views.take(i as int), behind);
        if i < items.len() {
            lemma_push_all_ignored(builder@, behind);
        }
        lemma_builder_gives_created(views, wc);
    }
    builder.finish()
}

/// Every graph that a build gives keeps to the node limit and has no
/// dangling edge. It holds one node for each item of the query, but never more
/// than `MAX_NODES`, and its flag is set exactly when it holds `MAX_NODES`.
pub proof fn lemma_created_wf(
    revset: Result<Seq<Result<RevisionView, Seq<char>>>, Seq<char>>,
    working_copy: Option<Seq<u8>>,
)
    ensures
        created(revset, working_copy) matches Ok((graph, limit_hit)) ==> {
            &&& graph.wf()
            &&& graph.nodes.len() <= MAX_NODES
            &&& graph.nodes.len() == if revset->Ok_0.len() > MAX_NODES {
                MAX_NODES as nat
            } else {
                revset->Ok_0.len()
            }
            &&& limit_hit <==> graph.nodes.len() == MAX_NODES
            &&& limit_hit <==> revset->Ok_0.len() >= MAX_NODES
            &&& forall|j: int|
                0 <= j < graph.edges.len() ==> has_node(graph.nodes, (#[trigger] graph.edges[j]).source)
                    && has_node(graph.nodes, graph.edges[j].target)
        },
{
    if let Ok((graph, limit_hit)) = created(revset, working_copy) {
        let read = read_items(revset->Ok_0);
        let nodes = nodes_of(revisions(read), working_copy);
        let candidates = candidate_edges(revisions(read));
        assert forall|j: int| 0 <= j < graph.edges.len() implies has_node(
            graph.nodes,
            (#[trigger] graph.edges[j]).source,
        ) && has_node(graph.nodes, graph.edges[j].target) by {
            candidates.lemma_filter_pred(both_ends_in(nodes), j);
        }
    }
}

/// What lies behind the first `MAX_NODES` items has no part in a build: the
/// engine need not be asked for it.
pub proof fn lemma_created_reads_limit(
    items: Seq<Result<RevisionView, Seq<char>>>,
    working_copy: Option<Seq<u8>>,
)
    ensures
        created(Ok(items), working_copy) == created(Ok(read_items(items)), working_copy),
{
    assert(read_items(read_items(items)) =~= read_items(items));
}

/// A build is a function of the engine's items and the working copy alone:
/// the same items give the same nodes, labels, edges and flag.
pub proof fn lemma_created_again(
    first: Result<Seq<Result<RevisionView, Seq<char>>>, Seq<char>>,
    second: Result<Seq<Result<RevisionView, Seq<char>>>, Seq<char>>,
    working_copy: Option<Seq<u8>>,
)
    requires
        first is Ok <==> second is Ok,
        first is Err ==> first->Err_0 =~= second->Err_0,
        first is Ok ==> first->Ok_0 =~= second->Ok_0,
    ensures
        created(first, working_copy) == created(second, working_copy),
{
}

/// An edge is kept exactly when the parent it points to was read too: the
/// edges of a build are its candidates in order, without those whose target
/// is no node.
pub proof fn lemma_edge_kept_iff_parent_read(revisions: Seq<RevisionView>, working_copy: Option<Seq<u8>>)
    ensures
        graph_of(nodes_of(revisions, working_copy), candidate_edges(revisions)).edges
            == candidate_edges(revisions).filter(
            |edge: EdgeView| has_node(nodes_of(revisions, working_copy), edge.target),
        ),
    decreases revisions.len(),
{
    let nodes = nodes_of(revisions, working_copy);
    let candidates = candidate_edges(revisions);
    let target_in = |edge: EdgeView| has_node(nodes, edge.target);
    lemma_sources_are_nodes(revisions, working_copy, revisions.len() as int);
    assert(candidate_edges(revisions.take(revisions.len() as int)) == candidates) by {
        assert(revisions.take(revisions.len() as int) =~= revisions);
    }
    lemma_filter_agree(candidates, both_ends_in(nodes), target_in);
}

/// The source of every candidate edge of the first `count` revisions is one
/// of the nodes.
proof fn lemma_sources_are_nodes(revisions: Seq<RevisionView>, working_copy: Option<Seq<u8>>, count: int)
    requires
        0 <= count <= revisions.len(),
    ensures
        forall|j: int|
            0 <= j < candidate_edges(revisions.take(count)).len() ==> has_node(
                nodes_of(revisions, working_copy),
                (#[trigger] candidate_edges(revisions.take(count))[j]).source,
            ),
    decreases count,
{
    if count > 0 {
        let taken = revisions.take(count);
        assert(taken.drop_last() =~= revisions.take(count - 1));
        lemma_sources_are_nodes(revisions, working_copy, count - 1);
        let nodes = nodes_of(revisions, working_copy);
        assert(nodes[count - 1].id == revisions[count - 1].id);
        assert(has_node(nodes, taken.last().id));
        let earlier = candidate_edges(revisions.take(count - 1));
        assert forall|j: int| 0 <= j < candidate_edges(taken).len() implies has_node(
            nodes,
            (#[trigger] candidate_edges(taken)[j]).source,
        ) by {
            if j < earlier.len() {
                assert(candidate_edges(taken)[j] == earlier[j]);
            } else {
                assert(candidate_edges(taken)[j] == edges_of(taken.last())[j - earlier.len()]);
            }
        }
    }
}

/// Two tests that agree on every element of a sequence keep the same of it.
proof fn lemma_filter_agree(s: Seq<EdgeView>, p: spec_fn(EdgeView) -> bool, q: spec_fn(EdgeView) -> bool)
    requires
        forall|j: int| 0 <= j < s.len() ==> p(#[trigger] s[j]) == q(s[j]),
    ensures
        s.filter(p) == s.filter(q),
    decreases s.len(),
{
    reveal(Seq::filter);
    if s.len() > 0 {
        lemma_filter_agree(s.drop_last(), p, q);
    }
}

/// Builds the graph of an evaluated view query whose items come one by one,
/// and asks for no item that is not needed: none behind a failure, none
/// behind the node limit.
///
/// A query that could not be resolved gives its error. Otherwise the outcome
/// is that of [`created`] on the items that the iterator gave; of an iterator
/// that keeps to the laws of iterators, on all the items that it holds.
pub fn create_graph_from<I: Iterator<Item = Result<Revision, String>>>(
    revset: Result<I, RevsetError>,
    working_copy: Option<CommitId>,
) -> (result: Result<(Graph, bool), CreateError>)
    ensures
        result matches Ok((graph, overflow)) ==> graph@.wf() && (overflow <==> graph@.nodes.len()
            == MAX_NODES),
        revset matches Err(error) ==> outcome_view(result) == Err::<(GraphView, bool), CreateErrorView>(
            CreateErrorView::RevsetParseError(error.spec_message()),
        ),
        revset is Ok ==> exists|taken: Seq<Result<Revision, String>>|
            outcome_view(result) == created(
                Ok(#[trigger] fetched_views(taken)),
                option_view(working_copy),
            ),
        revset matches Ok(items) ==> (<I as IteratorSpec>::obeys_prophetic_iter_laws(&items)
            ==> outcome_view(result) == created(
            Ok(fetched_views(<I as IteratorSpec>::remaining(&items))),
            option_view(working_copy),
        )),
{
    match revset {
        Err(error) => Err(CreateError::RevsetParseError(error.message())),
        Ok(items) => {
            let ghost wc = option_view(working_copy);
            let ghost all = <I as IteratorSpec>::remaining(&items);
            let mut items = items;
            let mut builder = GraphBuilder::new(working_copy);
            let ghost start = builder@;
            builder.take_from(&mut items);
            let ghost taken = choose|taken: Seq<Result<Revision, String>>|
                builder@ == start.push_all(#[trigger] fetched_views(taken));
            assert(builder@.finish() == created(Ok(fetched_views(taken)), wc)) by {
                lemma_builder_gives_created(fetched_views(taken), wc);
            }
            assert(builder@.finish() == created(Ok(fetched_views(all)), wc) || builder@
                != start.push_all(fetched_views(all))) by {
                lemma_builder_gives_created(fetched_views(all), wc);
            }
            builder.finish()
        },
    }
}

/// A builder that wants no more items ignores all that are pushed.
pub proof fn lemma_push_all_ignored(builder: BuilderView, items: Seq<Result<RevisionView, Seq<char>>>)
    requires
        !builder.wants_more(),
    ensures
        builder.push_all(items) == builder,
    decreases items.len(),
{
    if items.len() > 0 {
        lemma_push_all_ignored(builder, items.drop_last());
    }
}

/// Pushing two runs of items one after the other is pushing them all.
pub proof fn lemma_push_all_append(
    builder: BuilderView,
    first: Seq<Result<RevisionView, Seq<char>>>,
    second: Seq<Result<RevisionView, Seq<char>>>,
)
    ensures
        builder.push_all(first + second) == builder.push_all(first).push_all(second),
    decreases second.len(),
{
    if second.len() == 0 {
        assert(first + second =~= first);
    } else {
        assert((first + second).drop_last() =~= first + second.drop_last());
        assert((first + second).last() == second.last());
        lemma_push_all_append(builder, first, second.drop_last());
    }
}

/// Where the engine failed on one of `items`, there is a first such item.
proof fn lemma_first_failure_exists(items: Seq<Result<RevisionView, Seq<char>>>)
    requires
        !all_fetched(items),
    ensures
        is_first_failure(items, first_failure(items)),
    decreases items.len(),
{
    let shorter = items.drop_last();
    if all_fetched(shorter) {
        assert(items.take(items.len() - 1) =~= shorter);
        assert(items.last() is Err) by {
            if items.last() is Ok {
                assert forall|i: int| 0 <= i < items.len() implies (#[trigger] items[i]) is Ok by {
                    if i < items.len() - 1 {
                        assert(shorter[i] is Ok);
                    }
                }
            }
        }
        assert(is_first_failure(items, items.len() - 1));
    } else {
        lemma_first_failure_exists(shorter);
        let at = first_failure(shorter);
        assert(items.take(at) =~= shorter.take(at));
        assert(items[at] == shorter[at]);
        assert(is_first_failure(items, at));
    }
}

/// What a builder holds after it was handed `items` from the start.
proof fn lemma_pushed_state(items: Seq<Result<RevisionView, Seq<char>>>, working_copy: Option<Seq<u8>>)
    ensures
        ({
            let builder = BuilderView::start(working_copy).push_all(items);
            let read = read_items(items);
            &&& builder.working_copy == working_copy
            &&& all_fetched(read) ==> {
                &&& builder.failure is None
                &&& builder.nodes == nodes_of(revisions(read), working_copy)
                &&& builder.candidates == candidate_edges(revisions(read))
            }
            &&& !all_fetched(read) ==> builder.failure == Some(read[first_failure(read)]->Err_0)
        }),
    decreases items.len(),
{
    let start = BuilderView::start(working_copy);
    if items.len() == 0 {
        assert(revisions(items) =~= Seq::empty());
        assert(nodes_of(revisions(items), working_copy) =~= Seq::empty());
    } else {
        let shorter = items.drop_last();
        let earlier = start.push_all(shorter);
        lemma_pushed_state(shorter, working_copy);
        let last = items.len() - 1;
        if shorter.len() >= MAX_NODES {
            assert(read_items(items) =~= read_items(shorter));
        } else {
            assert(read_items(shorter) == shorter);
            assert(read_items(items) == items);
            assert(items.take(last) =~= shorter);
            if all_fetched(shorter) {
                if items[last] is Ok {
                    assert forall|i: int| 0 <= i < items.len() implies (#[trigger] items[i]) is Ok by {
                        if i < last {
                            assert(shorter[i] is Ok);
                        }
                    }
                    assert(items.take(last + 1) =~= items);
                    lemma_read_one_more(items, last, working_copy);
                } else {
                    assert(is_first_failure(items, last));
                    lemma_first_failure_unique(items, last);
                }
            } else {
                let at = first_failure(shorter);
                lemma_first_failure_exists(shorter);
                assert(items.take(at) =~= shorter.take(at));
                assert(items[at] == shorter[at]);
                assert(is_first_failure(items, at));
                lemma_first_failure_unique(items, at);
            }
        }
    }
}

/// Taking the items of a query one by one, as a builder does, comes to what
/// a build is said to be: see [`created`].
pub proof fn lemma_builder_gives_created(
    items: Seq<Result<RevisionView, Seq<char>>>,
    working_copy: Option<Seq<u8>>,
)
    ensures
        BuilderView::start(working_copy).push_all(items).finish() == created(Ok(items), working_copy),
{
    lemma_pushed_state(items, working_copy);
    let read = read_items(items);
    if all_fetched(read) {
        assert(nodes_of(revisions(read), working_copy).len() == read.len());
    }
}

} // verus!
