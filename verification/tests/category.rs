use revset_explorer::category::{Color, FilterMatch, NodeCategory, NodeType};

#[test]
fn working_copy_outranks_immutable() {
    let c = NodeCategory::of(true, true, true);
    assert_eq!(c.node_type, NodeType::WorkingCopy);
    assert_eq!(c.filter_match, FilterMatch::Match);
    let c = NodeCategory::of(true, true, false);
    assert_eq!(c.node_type, NodeType::WorkingCopy);
    assert_eq!(c.filter_match, FilterMatch::NoMatch);
}

#[test]
fn every_combination_has_its_category() {
    let cases = [
        (true, false, true, NodeType::WorkingCopy, FilterMatch::Match),
        (true, false, false, NodeType::WorkingCopy, FilterMatch::NoMatch),
        (false, true, true, NodeType::Immutable, FilterMatch::Match),
        (false, true, false, NodeType::Immutable, FilterMatch::NoMatch),
        (false, false, true, NodeType::Regular, FilterMatch::Match),
        (false, false, false, NodeType::Regular, FilterMatch::NoMatch),
    ];
    for (wc, immutable, matches, node_type, filter_match) in cases {
        assert_eq!(
            NodeCategory::of(wc, immutable, matches),
            NodeCategory { node_type, filter_match }
        );
        assert_eq!(NodeType::of(wc, immutable), node_type);
        assert_eq!(FilterMatch::of(matches), filter_match);
    }
}

#[test]
fn each_category_has_its_colour() {
    let colour = |node_type, filter_match| NodeCategory { node_type, filter_match }.color();
    assert_eq!(
        colour(NodeType::WorkingCopy, FilterMatch::Match),
        Color { r: 0x26, g: 0xff, b: 0x00, a: 0xff }
    );
    assert_eq!(
        colour(NodeType::WorkingCopy, FilterMatch::NoMatch),
        Color { r: 0x29, g: 0x59, b: 0x23, a: 0xff }
    );
    assert_eq!(
        colour(NodeType::Immutable, FilterMatch::Match),
        Color { r: 0x21, g: 0xcd, b: 0xff, a: 0xff }
    );
    assert_eq!(
        colour(NodeType::Immutable, FilterMatch::NoMatch),
        Color { r: 0x2e, g: 0x50, b: 0x59, a: 0xff }
    );
    assert_eq!(
        colour(NodeType::Regular, FilterMatch::Match),
        Color { r: 0xff, g: 0xfc, b: 0x00, a: 0xff }
    );
    assert_eq!(
        colour(NodeType::Regular, FilterMatch::NoMatch),
        Color { r: 0x63, g: 0x62, b: 0x22, a: 0xff }
    );
}

#[test]
fn the_six_colours_differ() {
    let mut colours = Vec::new();
    for node_type in [NodeType::WorkingCopy, NodeType::Immutable, NodeType::Regular] {
        for filter_match in [FilterMatch::Match, FilterMatch::NoMatch] {
            colours.push(NodeCategory { node_type, filter_match }.color());
        }
    }
    for i in 0..colours.len() {
        for j in 0..i {
            assert_ne!(colours[i], colours[j]);
        }
    }
}
