//! Classifying the nodes of a graph from the answers of the engine to the
//! selection query and to the immutability query.

use crate::category::NodeCategory;
use crate::create::option_view;
use crate::graph::{is_working_copy, node_views, CommitId, Graph, GraphNode, GraphView};
use crate::revset::RevsetError;
use vstd::prelude::*;

verus! {

/// Why the nodes were not, or not fully, classified.
#[derive(Debug, PartialEq)]
pub enum MarkError {
    /// The selection query could not be resolved. The nodes are classified
    /// all the same, as if the query held of none.
    RevsetParseError(String),
    /// The engine failed. No node was touched.
    JjError,
}

/// What a [`MarkError`] holds, as mathematical values.
pub enum MarkErrorView {
    RevsetParseError(Seq<char>),
    JjError,
}

impl View for MarkError {
    type V = MarkErrorView;

    open spec fn view(&self) -> MarkErrorView {
        match self {
            MarkError::RevsetParseError(message) => MarkErrorView::RevsetParseError(message@),
            MarkError::JjError => MarkErrorView::JjError,
        }
    }
}

/// The view of what marking came to.
pub open spec fn mark_view(result: Result<(), MarkError>) -> Result<(), MarkErrorView> {
    match result {
        Ok(()) => Ok(()),
        Err(error) => Err(error@),
    }
}

/// The view of one membership test: the answer, or the text of the engine's
/// error.
pub type TestView = Result<bool, Seq<char>>;

/// The view of a query that was put to the nodes: the tests in the order of
/// the nodes, or the text of the error with which the query could not be
/// resolved.
pub type ProbeView = Result<Seq<TestView>, Seq<char>>;

/// The view of one membership test.
pub open spec fn test_view(test: Result<bool, String>) -> TestView {
    match test {
        Ok(answer) => Ok(answer),
        Err(message) => Err(message@),
    }
}

/// Whether a membership test says that the query holds of the commit.
pub open spec fn holds(test: TestView) -> bool {
    test is Ok && test->Ok_0
}

/// The view of a query that was put to the nodes.
pub open spec fn probe_view(probe: Result<Vec<Result<bool, String>>, RevsetError>) -> ProbeView {
    match probe {
        Ok(tests) => Ok(Seq::new(tests@.len(), |i: int| test_view(tests@[i]))),
        Err(error) => Err(error.spec_message()),
    }
}

/// Whether `tests` holds an answer for each of `count` nodes.
pub open spec fn answers_all(tests: Seq<TestView>, count: nat) -> bool {
    &&& tests.len() == count
    &&& forall|i: int| 0 <= i < tests.len() ==> (#[trigger] tests[i]) is Ok
}

/// Whether `tests` is what comes of testing `count` nodes in order up to the
/// first failure: every test but the last is an answer, and tests are missing
/// only behind a failure.
pub open spec fn complete_or_failed(tests: Seq<TestView>, count: nat) -> bool {
    &&& tests.len() <= count
    &&& forall|i: int| 0 <= i < tests.len() - 1 ==> (#[trigger] tests[i]) is Ok
    &&& tests.len() < count ==> tests.len() > 0 && tests.last() is Err
}

/// Whether the engine failed: the immutability query could not be resolved,
/// or a query that was resolved lacks the answer for a node.
pub open spec fn engine_failed(
    count: nat,
    filter: ProbeView,
    immutable: ProbeView,
) -> bool {
    ||| immutable is Err
    ||| !answers_all(immutable->Ok_0, count)
    ||| filter is Ok && !answers_all(filter->Ok_0, count)
}

/// Whether the selection query holds of node `i`: never, where the query
/// could not be resolved.
pub open spec fn matches_filter(filter: ProbeView, i: int) -> bool {
    filter is Ok && holds(filter->Ok_0[i])
}

/// The category of each node, where the engine did not fail.
pub open spec fn categories_of(
    graph: GraphView,
    working_copy: Option<Seq<u8>>,
    filter: ProbeView,
    immutable: ProbeView,
) -> Seq<NodeCategory> {
    Seq::new(
        graph.nodes.len(),
        |i: int|
            NodeCategory::spec_of(
                working_copy == Some(graph.nodes[i].id),
                holds(immutable->Ok_0[i]),
                matches_filter(filter, i),
            ),
    )
}

/// The graph after marking: unchanged where the engine failed, else with
/// every node classified.
pub open spec fn marked_graph(
    graph: GraphView,
    working_copy: Option<Seq<u8>>,
    filter: ProbeView,
    immutable: ProbeView,
) -> GraphView {
    if engine_failed(graph.nodes.len(), filter, immutable) {
        graph
    } else {
        graph.with_categories(categories_of(graph, working_copy, filter, immutable))
    }
}

/// What marking reports: a failure of the engine before all else, then the
/// error of a selection query that could not be resolved.
pub open spec fn marked_result(
    count: nat,
    filter: ProbeView,
    immutable: ProbeView,
) -> Result<(), MarkErrorView> {
    if engine_failed(count, filter, immutable) {
        Err(MarkErrorView::JjError)
    } else if filter is Err {
        Err(MarkErrorView::RevsetParseError(filter->Err_0))
    } else {
        Ok(())
    }
}

/// Whether `tests` holds an answer for each of `count` nodes.
pub fn has_all_answers(tests: &Vec<Result<bool, String>>, count: usize) -> (complete: bool)
    ensures
        complete == answers_all(probe_view(Ok(*tests))->Ok_0, count as nat),
{
    let ghost views = probe_view(Ok(*tests))->Ok_0;
    if tests.len() != count {
        return false;
    }
    let mut i: usize = 0;
    while i < tests.len()
        invariant
            i <= tests.len(),
            views == probe_view(Ok(*tests))->Ok_0,
            forall|k: int| 0 <= k < i ==> (#[trigger] views[k]) is Ok,
        decreases tests.len() - i,
    {
        if tests[i].is_err() {
            assert(views[i as int] is Err);
            return false;
        }
        i += 1;
    }
    true
}

/// The answer of test `i`, where there is one.
fn answer(tests: &Vec<Result<bool, String>>, i: usize) -> (yes: bool)
    requires
        i < tests@.len(),
    ensures
        yes == holds(probe_view(Ok(*tests))->Ok_0[i as int]),
{
    match &tests[i] {
        Ok(answer) => *answer,
        Err(_) => false,
    }
}

/// Puts the membership test `contains` to the nodes of `graph`, in order, up
/// to the first node on which the engine fails.
///
/// Each test in the result is what `contains` gave for the node in its place.
/// Where the engine failed, the failure is the last test and the nodes behind
/// it were not asked about, so that the result lacks their answers.
pub fn probe_nodes<F: Fn(&CommitId) -> Result<bool, String>>(graph: &Graph, contains: F) -> (tests: Vec<
    Result<bool, String>,
>)
    requires
        forall|id: &CommitId| call_requires(contains, (id,)),
    ensures
        tests@.len() <= graph@.nodes.len(),
        forall|i: int|
            0 <= i < tests@.len() ==> exists|id: &CommitId|
                id@ == graph@.nodes[i].id && call_ensures(contains, (id,), #[trigger] tests@[i]),
        forall|i: int| 0 <= i < tests@.len() - 1 ==> (#[trigger] tests@[i]) is Ok,
        tests@.len() < graph@.nodes.len() ==> tests@.len() > 0 && tests@.last() is Err,
{
    let nodes = graph.nodes();
    let mut tests: Vec<Result<bool, String>> = Vec::new();
    let mut i: usize = 0;
    while i < nodes.len()
        invariant
            i <= nodes.len(),
            tests@.len() == i,
            node_views(nodes@) == graph@.nodes,
            forall|id: &CommitId| call_requires(contains, (id,)),
            forall|k: int|
                0 <= k < tests@.len() ==> exists|id: &CommitId|
                    id@ == graph@.nodes[k].id && call_ensures(contains, (id,), #[trigger] tests@[k]),
            forall|k: int| 0 <= k < tests@.len() ==> (#[trigger] tests@[k]) is Ok,
        decreases nodes.len() - i,
    {
        let id: &CommitId = &nodes[i].id;
        assert(id@ == graph@.nodes[i as int].id) by {
            assert(node_views(nodes@)[i as int] == nodes@[i as int]@);
        }
        let test = contains(id);
        let failed = test.is_err();
        tests.push(test);
        if failed {
            return tests;
        }
        i += 1;
    }
    tests
}

/// Classifies every node of `graph` from the answers of the engine.
///
/// `filter` and `immutable` hold, for the selection query and for the
/// immutability query, one membership test for each node, in the order of the
/// nodes, or the error with which the query could not be resolved.
///
/// Where the immutability query could not be resolved, or a resolved query
/// lacks the answer for a node, the graph stays as it is and the result is
/// `JjError`. Otherwise every node gets its category: working copy before
/// immutable before regular, paired with whether the selection query holds of
/// it. A selection query that could not be resolved holds of no node, and its
/// error is the result.
pub fn mark_graph(
    graph: &mut Graph,
    working_copy: &Option<CommitId>,
    filter: &Result<Vec<Result<bool, String>>, RevsetError>,
    immutable: &Result<Vec<Result<bool, String>>, RevsetError>,
) -> (result: Result<(), MarkError>)
    ensures
        final(graph)@ == marked_graph(
            old(graph)@,
            option_view(*working_copy),
            probe_view(*filter),
            probe_view(*immutable),
        ),
        mark_view(result) == marked_result(
            old(graph)@.nodes.len(),
            probe_view(*filter),
            probe_view(*immutable),
        ),
{
    let count: usize = graph.nodes().len();
    let immutable_tests = match immutable {
        Ok(tests) => tests,
        Err(_) => {
            return Err(MarkError::JjError);
        },
    };
    if !has_all_answers(immutable_tests, count) {
        return Err(MarkError::JjError);
    }
    match filter {
        Ok(tests) => {
            if !has_all_answers(tests, count) {
                return Err(MarkError::JjError);
            }
        },
        Err(_) => {},
    }
    let ghost wanted = categories_of(
        old(graph)@,
        option_view(*working_copy),
        probe_view(*filter),
        probe_view(*immutable),
    );
    let mut categories: Vec<NodeCategory> = Vec::new();
    let mut i: usize = 0;
    while i < count
        invariant
            i <= count,
            count == graph@.nodes.len(),
            graph@ == old(graph)@,
            *immutable == Ok::<Vec<Result<bool, String>>, RevsetError>(*immutable_tests),
            immutable_tests@.len() == count,
            filter matches Ok(tests) ==> tests@.len() == count,
            wanted == categories_of(
                old(graph)@,
                option_view(*working_copy),
                probe_view(*filter),
                probe_view(*immutable),
            ),
            categories@ =~= wanted.take(i as int),
        decreases count - i,
    {
        let node: &GraphNode = &graph.nodes()[i];
        assert(node@ == graph@.nodes[i as int]);
        let is_wc_commit = is_working_copy(working_copy, &node.id);
        let is_immutable = answer(immutable_tests, i);
        let matches = match filter {
            Ok(tests) => answer(tests, i),
            Err(_) => false,
        };
        categories.push(NodeCategory::of(is_wc_commit, is_immutable, matches));
        assert(categories@ =~= wanted.take(i + 1));
        i += 1;
    }
    assert(wanted.take(count as int) =~= wanted);
    graph.set_categories(&categories);
    match filter {
        Ok(_) => Ok(()),
        Err(error) => Err(MarkError::RevsetParseError(error.message())),
    }
}

/// After marking without a failure of the engine, every node has a category,
/// and no node is marked as matching where the selection query could not be
/// resolved.
pub proof fn lemma_marked_total(
    graph: GraphView,
    working_copy: Option<Seq<u8>>,
    filter: ProbeView,
    immutable: ProbeView,
)
    requires
        !engine_failed(graph.nodes.len(), filter, immutable),
    ensures
        marked_graph(graph, working_copy, filter, immutable).classified(),
        marked_graph(graph, working_copy, filter, immutable).nodes.len() == graph.nodes.len(),
        marked_graph(graph, working_copy, filter, immutable).edges == graph.edges,
        filter is Err ==> forall|i: int|
            0 <= i < graph.nodes.len() ==> (#[trigger] marked_graph(
                graph,
                working_copy,
                filter,
                immutable,
            ).nodes[i]).category->0.filter_match == crate::category::FilterMatch::NoMatch,
{
}

} // verus!
