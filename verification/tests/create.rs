use revset_explorer::create::{create_graph, create_graph_from, CreateError, GraphBuilder};
use std::cell::Cell;
use revset_explorer::graph::{contains_id, is_working_copy, make_label, CommitId, Graph, MAX_NODES};
use revset_explorer::revset::{Revision, RevsetError};

fn id(n: usize) -> CommitId {
    CommitId::new(vec![(n / 256) as u8, (n % 256) as u8])
}

fn revision(n: usize, change_id: &[u8], prefix_len: usize, parents: &[usize]) -> Revision {
    Revision {
        id: id(n),
        change_id: change_id.to_vec(),
        prefix_len,
        parents: parents.iter().map(|p| id(*p)).collect(),
    }
}

/// A chain of `count` commits, each the child of the next.
fn chain(count: usize) -> Vec<Result<Revision, String>> {
    (0..count).map(|n| Ok(revision(n, &[n as u8, 0x5c], 2, &[n + 1]))).collect()
}

fn edge_pairs(graph: &Graph) -> Vec<(Vec<u8>, Vec<u8>)> {
    graph
        .edges()
        .iter()
        .map(|e| (e.source.bytes.clone(), e.target.bytes.clone()))
        .collect()
}

#[test]
fn label_is_the_prefix_of_the_change_id() {
    assert_eq!(make_label("kmzwxyqp", 3, false), "kmz");
    assert_eq!(make_label("kmzwxyqp", 0, false), "");
    assert_eq!(make_label("kmzwxyqp", 8, false), "kmzwxyqp");
}

#[test]
fn label_of_the_working_copy_has_the_marker() {
    assert_eq!(make_label("kmzwxyqp", 3, true), "@ kmz");
    assert_eq!(make_label("kmzwxyqp", 0, true), "@ ");
}

#[test]
fn label_takes_the_whole_change_id_when_the_prefix_is_longer() {
    assert_eq!(make_label("kmz", 12, false), "kmz");
    assert_eq!(make_label("", 1, true), "@ ");
}

#[test]
fn label_counts_characters() {
    assert_eq!(make_label("äöüx", 2, false), "äö");
}

#[test]
fn change_id_is_written_with_the_digits_z_to_k() {
    let items = vec![
        Ok(revision(1, &[0x00, 0x1f, 0xa5, 0xff], 8, &[])),
        Ok(revision(2, &[0x01, 0x23, 0x45, 0x67, 0x89, 0xab, 0xcd, 0xef], 16, &[])),
        Ok(revision(3, &[], 4, &[])),
        Ok(revision(4, &[0x7a], 1, &[])),
    ];
    let (graph, _) = create_graph(&Ok(items), Some(id(4))).unwrap();
    let labels: Vec<&str> = graph.nodes().iter().map(|n| n.label.as_str()).collect();
    assert_eq!(labels, vec!["zzykpukk", "zyxwvutsrqponmlk", "", "@ s"]);
}

#[test]
fn commit_ids_compare_by_their_bytes() {
    assert_eq!(id(7), id(7));
    assert_ne!(id(7), id(8));
    assert_eq!(id(300).clone(), id(300));
    assert!(is_working_copy(&Some(id(3)), &id(3)));
    assert!(!is_working_copy(&Some(id(3)), &id(4)));
    assert!(!is_working_copy(&None, &id(3)));
}

#[test]
fn empty_query_gives_empty_graph() {
    let (graph, limit_hit) = create_graph(&Ok(vec![]), None).unwrap();
    assert!(graph.nodes().is_empty());
    assert!(graph.edges().is_empty());
    assert!(!limit_hit);
}

#[test]
fn nodes_come_in_the_order_of_the_engine() {
    let items = vec![
        Ok(revision(1, &[0x0f, 0xff], 1, &[2])),
        Ok(revision(2, &[0x12, 0x34], 2, &[3])),
        Ok(revision(3, &[0xab, 0xcd], 3, &[])),
    ];
    let (graph, limit_hit) = create_graph(&Ok(items), Some(id(2))).unwrap();
    let nodes = graph.nodes();
    assert_eq!(nodes.len(), 3);
    assert_eq!(nodes[0].id, id(1));
    assert_eq!(nodes[1].id, id(2));
    assert_eq!(nodes[2].id, id(3));
    assert_eq!(nodes[0].label, "z");
    assert_eq!(nodes[1].label, "@ yx");
    assert_eq!(nodes[2].label, "pon");
    assert!(nodes.iter().all(|n| n.category.is_none()));
    assert_eq!(
        edge_pairs(&graph),
        vec![(id(1).bytes, id(2).bytes), (id(2).bytes, id(3).bytes)]
    );
    assert!(!limit_hit);
}

#[test]
fn edge_to_a_commit_outside_the_graph_is_dropped() {
    let items = vec![
        Ok(revision(1, &[0x41], 1, &[2, 9])),
        Ok(revision(2, &[0x42], 2, &[7])),
    ];
    let (graph, _) = create_graph(&Ok(items), None).unwrap();
    assert_eq!(edge_pairs(&graph), vec![(id(1).bytes, id(2).bytes)]);
}

#[test]
fn merge_commit_keeps_its_edges_in_parent_order() {
    let items = vec![
        Ok(revision(1, &[0x41], 1, &[3, 2])),
        Ok(revision(2, &[0x42], 2, &[])),
        Ok(revision(3, &[0x43], 3, &[])),
    ];
    let (graph, _) = create_graph(&Ok(items), None).unwrap();
    assert_eq!(
        edge_pairs(&graph),
        vec![(id(1).bytes, id(3).bytes), (id(1).bytes, id(2).bytes)]
    );
}

#[test]
fn graph_below_the_limit_is_complete() {
    let (graph, limit_hit) = create_graph(&Ok(chain(MAX_NODES - 1)), None).unwrap();
    assert_eq!(graph.nodes().len(), MAX_NODES - 1);
    assert!(!limit_hit);
    // The parent of the last commit is not part of the graph.
    assert_eq!(graph.edges().len(), MAX_NODES - 2);
}

#[test]
fn graph_of_exactly_the_limit_reports_the_limit() {
    let (graph, limit_hit) = create_graph(&Ok(chain(MAX_NODES)), None).unwrap();
    assert_eq!(graph.nodes().len(), MAX_NODES);
    assert!(limit_hit);
}

#[test]
fn graph_is_cut_at_the_limit() {
    let (graph, limit_hit) = create_graph(&Ok(chain(MAX_NODES + 50)), None).unwrap();
    assert_eq!(MAX_NODES, 100);
    assert_eq!(graph.nodes().len(), 100);
    assert!(limit_hit);
    // The edge from the last node to the commit behind the limit is dropped.
    assert_eq!(graph.edges().len(), 99);
    for edge in graph.edges() {
        assert!(contains_id(graph.nodes(), &edge.source));
        assert!(contains_id(graph.nodes(), &edge.target));
    }
    assert!(!contains_id(graph.nodes(), &id(100)));
}

#[test]
fn unresolved_query_is_a_parse_error() {
    let revset = Err(RevsetError::ParseError("unexpected `)`".to_owned()));
    let error = create_graph(&revset, None).unwrap_err();
    assert_eq!(
        error,
        CreateError::RevsetParseError("Failed to parse revset: unexpected `)`".to_owned())
    );
    assert_eq!(error.message(), "Failed to parse revset: unexpected `)`");
}

#[test]
fn revset_error_message_has_its_prefix() {
    assert_eq!(
        RevsetError::ParseError("boom".to_owned()).message(),
        "Failed to parse revset: boom"
    );
    assert_eq!(RevsetError::ParseError(String::new()).message(), "Failed to parse revset: ");
}

#[test]
fn first_engine_failure_ends_the_build() {
    let items = vec![
        Ok(revision(1, &[0x41], 1, &[])),
        Err("object missing".to_owned()),
        Ok(revision(3, &[0x43], 3, &[])),
        Err("second failure".to_owned()),
    ];
    let error = create_graph(&Ok(items), None).unwrap_err();
    assert_eq!(error, CreateError::JjError("object missing".to_owned()));
    assert_eq!(error.message(), "object missing");
}

#[test]
fn engine_failure_behind_the_limit_is_not_seen() {
    let mut items = chain(MAX_NODES);
    items.push(Err("object missing".to_owned()));
    let (graph, limit_hit) = create_graph(&Ok(items), None).unwrap();
    assert_eq!(graph.nodes().len(), MAX_NODES);
    assert!(limit_hit);
}

#[test]
fn engine_failure_on_the_last_item_read_is_seen() {
    let mut items = chain(MAX_NODES - 1);
    items.push(Err("object missing".to_owned()));
    let error = create_graph(&Ok(items), None).unwrap_err();
    assert_eq!(error, CreateError::JjError("object missing".to_owned()));
}

#[test]
fn builder_stops_asking_at_the_limit() {
    let mut builder = GraphBuilder::new(None);
    let mut asked = 0;
    let mut items = chain(MAX_NODES + 5).into_iter();
    while builder.wants_more() {
        let Some(item) = items.next() else { break };
        asked += 1;
        builder.push(&item);
    }
    assert_eq!(asked, MAX_NODES);
    let (graph, limit_hit) = builder.finish().unwrap();
    assert_eq!(graph.nodes().len(), MAX_NODES);
    assert!(limit_hit);
}

#[test]
fn builder_stops_asking_after_a_failure() {
    let mut builder = GraphBuilder::new(None);
    assert!(builder.wants_more());
    builder.push(&Ok(revision(1, &[0x41], 1, &[])));
    assert!(builder.wants_more());
    builder.push(&Err("object missing".to_owned()));
    assert!(!builder.wants_more());
    // What is pushed all the same is ignored.
    builder.push(&Err("later".to_owned()));
    builder.push(&Ok(revision(2, &[0x42], 1, &[])));
    assert_eq!(
        builder.finish().unwrap_err(),
        CreateError::JjError("object missing".to_owned())
    );
}

#[test]
fn builder_ignores_items_past_the_limit() {
    let mut builder = GraphBuilder::new(None);
    for item in chain(MAX_NODES + 3) {
        builder.push(&item);
    }
    let (graph, limit_hit) = builder.finish().unwrap();
    assert_eq!(graph.nodes().len(), MAX_NODES);
    assert!(limit_hit);
}

#[test]
fn builder_and_create_graph_agree() {
    let items = vec![
        Ok(revision(1, &[0x01], 1, &[2, 5])),
        Ok(revision(2, &[0x02], 2, &[3])),
        Ok(revision(3, &[0x89, 0xa0], 3, &[])),
    ];
    let mut builder = GraphBuilder::new(Some(id(3)));
    for item in &items {
        builder.push(item);
    }
    let (stepwise, _) = builder.finish().unwrap();
    let (at_once, _) = create_graph(&Ok(items), Some(id(3))).unwrap();
    assert_eq!(edge_pairs(&stepwise), edge_pairs(&at_once));
    assert_eq!(stepwise.nodes().len(), at_once.nodes().len());
    for (a, b) in stepwise.nodes().iter().zip(at_once.nodes()) {
        assert_eq!(a.id, b.id);
        assert_eq!(a.label, b.label);
    }
    assert_eq!(at_once.nodes()[2].label, "@ rqp");
}

#[test]
fn building_twice_gives_the_same_graph() {
    let items = || {
        Ok(vec![
            Ok(revision(1, &[0x41], 1, &[2])),
            Ok(revision(2, &[0x42], 2, &[4])),
        ])
    };
    let (first, first_hit) = create_graph(&items(), Some(id(1))).unwrap();
    let (second, second_hit) = create_graph(&items(), Some(id(1))).unwrap();
    assert_eq!(first_hit, second_hit);
    assert_eq!(edge_pairs(&first), edge_pairs(&second));
    assert_eq!(first.nodes().len(), second.nodes().len());
    for (a, b) in first.nodes().iter().zip(second.nodes()) {
        assert_eq!(a.id, b.id);
        assert_eq!(a.label, b.label);
    }
}

#[test]
fn index_of_finds_the_node() {
    let items = vec![
        Ok(revision(1, &[0x41], 1, &[])),
        Ok(revision(2, &[0x42], 2, &[])),
        Ok(revision(1, &[0x41], 2, &[])),
    ];
    let (graph, _) = create_graph(&Ok(items), None).unwrap();
    assert_eq!(graph.index_of(&id(2)), Some(1));
    // A commit that the engine gave twice is found at its last place.
    assert_eq!(graph.index_of(&id(1)), Some(2));
    assert_eq!(graph.index_of(&id(3)), None);
    assert_eq!(Graph::new().index_of(&id(1)), None);
}

#[test]
fn take_from_asks_for_no_item_behind_the_limit() {
    let asked = Cell::new(0);
    let mut items = chain(MAX_NODES + 20).into_iter().inspect(|_| asked.set(asked.get() + 1));
    let mut builder = GraphBuilder::new(None);
    builder.take_from(&mut items);
    assert_eq!(asked.get(), MAX_NODES);
    assert!(!builder.wants_more());
    // The iterator still holds what was not asked for.
    assert_eq!(items.count(), 20);
    let (graph, limit_hit) = builder.finish().unwrap();
    assert_eq!(graph.nodes().len(), MAX_NODES);
    assert!(limit_hit);
}

#[test]
fn take_from_asks_for_no_item_behind_a_failure() {
    let asked = Cell::new(0);
    let source = vec![
        Ok(revision(1, &[0x41], 1, &[])),
        Err("object missing".to_owned()),
        Ok(revision(3, &[0x43], 1, &[])),
    ];
    let mut items = source.into_iter().inspect(|_| asked.set(asked.get() + 1));
    let mut builder = GraphBuilder::new(None);
    builder.take_from(&mut items);
    assert_eq!(asked.get(), 2);
    assert_eq!(
        builder.finish().unwrap_err(),
        CreateError::JjError("object missing".to_owned())
    );
}

#[test]
fn take_from_takes_all_of_a_short_query() {
    let mut items = chain(3).into_iter();
    let mut builder = GraphBuilder::new(None);
    builder.take_from(&mut items);
    assert!(builder.wants_more());
    // A second run of items goes on where the first ended.
    let mut more = vec![Ok(revision(3, &[0x43], 1, &[]))].into_iter();
    builder.take_from(&mut more);
    let (graph, limit_hit) = builder.finish().unwrap();
    assert_eq!(graph.nodes().len(), 4);
    assert_eq!(graph.edges().len(), 3);
    assert!(!limit_hit);
}

#[test]
fn create_graph_from_agrees_with_create_graph() {
    let items = || {
        vec![
            Ok(revision(1, &[0x12, 0x34], 3, &[2, 5])),
            Ok(revision(2, &[0x56], 2, &[3])),
            Ok(revision(3, &[0x78], 1, &[])),
        ]
    };
    let (lazy, lazy_hit) = create_graph_from(Ok(items().into_iter()), Some(id(2))).unwrap();
    let (at_once, hit) = create_graph(&Ok(items()), Some(id(2))).unwrap();
    assert_eq!(lazy_hit, hit);
    assert_eq!(edge_pairs(&lazy), edge_pairs(&at_once));
    let labels: Vec<&str> = lazy.nodes().iter().map(|n| n.label.as_str()).collect();
    assert_eq!(labels, vec!["yxw", "@ ut", "s"]);
    for (a, b) in lazy.nodes().iter().zip(at_once.nodes()) {
        assert_eq!(a.id, b.id);
        assert_eq!(a.label, b.label);
    }
}

#[test]
fn create_graph_from_reports_parse_and_engine_errors() {
    let unresolved: Result<std::vec::IntoIter<Result<Revision, String>>, RevsetError> =
        Err(RevsetError::ParseError("unexpected `)`".to_owned()));
    assert_eq!(
        create_graph_from(unresolved, None).unwrap_err(),
        CreateError::RevsetParseError("Failed to parse revset: unexpected `)`".to_owned())
    );
    let failing = vec![Ok(revision(1, &[0x41], 1, &[])), Err("object missing".to_owned())];
    assert_eq!(
        create_graph_from(Ok(failing.into_iter()), None).unwrap_err(),
        CreateError::JjError("object missing".to_owned())
    );
}

#[test]
fn create_graph_from_cuts_an_endless_query_at_the_limit() {
    let endless = (0..).map(|n| Ok(revision(n, &[0x41], 1, &[n + 1])));
    let (graph, limit_hit) = create_graph_from(Ok(endless), None).unwrap();
    assert_eq!(graph.nodes().len(), MAX_NODES);
    assert_eq!(graph.edges().len(), MAX_NODES - 1);
    assert!(limit_hit);
}
