use revset_explorer::category::{FilterMatch, NodeCategory, NodeType};
use revset_explorer::create::create_graph;
use revset_explorer::graph::{CommitId, Graph};
use revset_explorer::mark::{mark_graph, probe_nodes, MarkError};
use std::cell::RefCell;
use revset_explorer::revset::{Revision, RevsetError};

fn commit(n: u8) -> CommitId {
    CommitId::new(vec![n])
}

/// Commits 1, 2, 3 and 4, each the child of the next.
fn four_nodes() -> Graph {
    let items = (1..=4u8)
        .map(|n| {
            Ok(Revision {
                id: commit(n),
                change_id: vec![n],
                prefix_len: 2,
                parents: vec![commit(n + 1)],
            })
        })
        .collect();
    create_graph(&Ok(items), Some(commit(1))).unwrap().0
}

fn answers(values: &[bool]) -> Result<Vec<Result<bool, String>>, RevsetError> {
    Ok(values.iter().map(|v| Ok(*v)).collect())
}

fn categories(graph: &Graph) -> Vec<Option<(NodeType, FilterMatch)>> {
    graph
        .nodes()
        .iter()
        .map(|n| n.category.map(|c| (c.node_type, c.filter_match)))
        .collect()
}

#[test]
fn every_node_gets_its_category() {
    let mut graph = four_nodes();
    let result = mark_graph(
        &mut graph,
        &Some(commit(1)),
        &answers(&[true, false, true, false]),
        &answers(&[true, false, false, true]),
    );
    assert_eq!(result, Ok(()));
    assert_eq!(
        categories(&graph),
        vec![
            // The working copy stays the working copy though it is immutable.
            Some((NodeType::WorkingCopy, FilterMatch::Match)),
            Some((NodeType::Regular, FilterMatch::NoMatch)),
            Some((NodeType::Regular, FilterMatch::Match)),
            Some((NodeType::Immutable, FilterMatch::NoMatch)),
        ]
    );
}

#[test]
fn marking_keeps_ids_labels_and_edges() {
    let mut graph = four_nodes();
    mark_graph(
        &mut graph,
        &Some(commit(1)),
        &answers(&[true, true, true, true]),
        &answers(&[false, false, false, false]),
    )
    .unwrap();
    let labels: Vec<&str> = graph.nodes().iter().map(|n| n.label.as_str()).collect();
    assert_eq!(labels, vec!["@ zy", "zx", "zw", "zv"]);
    let ids: Vec<&CommitId> = graph.nodes().iter().map(|n| &n.id).collect();
    assert_eq!(ids, vec![&commit(1), &commit(2), &commit(3), &commit(4)]);
    assert_eq!(graph.edges().len(), 3);
}

#[test]
fn without_working_copy_no_node_is_the_working_copy() {
    let mut graph = four_nodes();
    mark_graph(
        &mut graph,
        &None,
        &answers(&[false, false, false, false]),
        &answers(&[true, false, false, false]),
    )
    .unwrap();
    assert_eq!(
        graph.nodes()[0].category,
        Some(NodeCategory { node_type: NodeType::Immutable, filter_match: FilterMatch::NoMatch })
    );
}

#[test]
fn unresolved_selection_matches_nothing_and_is_reported() {
    let mut graph = four_nodes();
    let result = mark_graph(
        &mut graph,
        &Some(commit(2)),
        &Err(RevsetError::ParseError("no such function".to_owned())),
        &answers(&[false, false, true, true]),
    );
    assert_eq!(
        result,
        Err(MarkError::RevsetParseError("Failed to parse revset: no such function".to_owned()))
    );
    assert_eq!(
        categories(&graph),
        vec![
            Some((NodeType::Regular, FilterMatch::NoMatch)),
            Some((NodeType::WorkingCopy, FilterMatch::NoMatch)),
            Some((NodeType::Immutable, FilterMatch::NoMatch)),
            Some((NodeType::Immutable, FilterMatch::NoMatch)),
        ]
    );
}

#[test]
fn unresolved_immutability_query_touches_nothing() {
    let mut graph = four_nodes();
    let result = mark_graph(
        &mut graph,
        &Some(commit(1)),
        &answers(&[true, true, true, true]),
        &Err(RevsetError::ParseError("broken alias".to_owned())),
    );
    assert_eq!(result, Err(MarkError::JjError));
    assert_eq!(categories(&graph), vec![None, None, None, None]);
}

#[test]
fn engine_failure_outranks_the_parse_error() {
    let mut graph = four_nodes();
    let result = mark_graph(
        &mut graph,
        &None,
        &Err(RevsetError::ParseError("bad".to_owned())),
        &Err(RevsetError::ParseError("worse".to_owned())),
    );
    assert_eq!(result, Err(MarkError::JjError));
    assert_eq!(categories(&graph), vec![None, None, None, None]);
}

#[test]
fn failed_membership_test_keeps_the_previous_categories() {
    let mut graph = four_nodes();
    mark_graph(
        &mut graph,
        &None,
        &answers(&[true, false, false, false]),
        &answers(&[false, false, false, false]),
    )
    .unwrap();
    let before = categories(&graph);

    let failing = Ok(vec![Ok(true), Ok(true), Err("index is corrupt".to_owned()), Ok(true)]);
    let result = mark_graph(&mut graph, &None, &failing, &answers(&[true, true, true, true]));
    assert_eq!(result, Err(MarkError::JjError));
    assert_eq!(categories(&graph), before);

    let failing = Ok(vec![Err("index is corrupt".to_owned()), Ok(true), Ok(true), Ok(true)]);
    let result = mark_graph(&mut graph, &None, &answers(&[true, true, true, true]), &failing);
    assert_eq!(result, Err(MarkError::JjError));
    assert_eq!(categories(&graph), before);
}

#[test]
fn missing_answers_count_as_engine_failure() {
    let mut graph = four_nodes();
    let result = mark_graph(
        &mut graph,
        &None,
        &answers(&[true, true, true]),
        &answers(&[true, true, true, true]),
    );
    assert_eq!(result, Err(MarkError::JjError));
    let result = mark_graph(
        &mut graph,
        &None,
        &answers(&[true, true, true, true]),
        &answers(&[true, true, true, true, true]),
    );
    assert_eq!(result, Err(MarkError::JjError));
    assert_eq!(categories(&graph), vec![None, None, None, None]);
}

#[test]
fn marking_again_replaces_the_categories() {
    let mut graph = four_nodes();
    mark_graph(
        &mut graph,
        &None,
        &answers(&[true, true, true, true]),
        &answers(&[false, false, false, false]),
    )
    .unwrap();
    mark_graph(
        &mut graph,
        &None,
        &answers(&[false, false, false, true]),
        &answers(&[false, false, false, false]),
    )
    .unwrap();
    assert_eq!(
        categories(&graph),
        vec![
            Some((NodeType::Regular, FilterMatch::NoMatch)),
            Some((NodeType::Regular, FilterMatch::NoMatch)),
            Some((NodeType::Regular, FilterMatch::NoMatch)),
            Some((NodeType::Regular, FilterMatch::Match)),
        ]
    );
}

#[test]
fn empty_graph_is_marked_without_answers() {
    let mut graph = Graph::new();
    assert_eq!(mark_graph(&mut graph, &None, &answers(&[]), &answers(&[])), Ok(()));
    assert!(graph.nodes().is_empty());
}

#[test]
fn nodes_are_probed_in_order() {
    let graph = four_nodes();
    let asked = RefCell::new(Vec::new());
    let tests = probe_nodes(&graph, |id: &CommitId| {
        asked.borrow_mut().push(id.clone());
        Ok(id.bytes[0] % 2 == 0)
    });
    assert_eq!(tests, vec![Ok(false), Ok(true), Ok(false), Ok(true)]);
    assert_eq!(*asked.borrow(), vec![commit(1), commit(2), commit(3), commit(4)]);
}

#[test]
fn probing_stops_at_the_first_failure() {
    let graph = four_nodes();
    let asked = RefCell::new(0);
    let tests = probe_nodes(&graph, |id: &CommitId| {
        *asked.borrow_mut() += 1;
        if id.bytes[0] == 2 {
            Err("index is corrupt".to_owned())
        } else {
            Ok(true)
        }
    });
    assert_eq!(tests, vec![Ok(true), Err("index is corrupt".to_owned())]);
    assert_eq!(*asked.borrow(), 2);

    // The answers that are missing make marking fail, and nothing is touched.
    let mut graph = graph;
    let result = mark_graph(&mut graph, &None, &answers(&[true; 4]), &Ok(tests));
    assert_eq!(result, Err(MarkError::JjError));
    assert_eq!(categories(&graph), vec![None, None, None, None]);
}

#[test]
fn probing_an_empty_graph_asks_nothing() {
    let tests = probe_nodes(&Graph::new(), |_: &CommitId| Err("never asked".to_owned()));
    assert!(tests.is_empty());
}

#[test]
fn probed_answers_mark_the_graph() {
    let mut graph = four_nodes();
    let filter = Ok(probe_nodes(&graph, |id: &CommitId| Ok(id.bytes[0] >= 3)));
    let immutable = Ok(probe_nodes(&graph, |id: &CommitId| Ok(id.bytes[0] == 4)));
    assert_eq!(mark_graph(&mut graph, &Some(commit(1)), &filter, &immutable), Ok(()));
    assert_eq!(
        categories(&graph),
        vec![
            Some((NodeType::WorkingCopy, FilterMatch::NoMatch)),
            Some((NodeType::Regular, FilterMatch::NoMatch)),
            Some((NodeType::Regular, FilterMatch::Match)),
            Some((NodeType::Immutable, FilterMatch::Match)),
        ]
    );
}
