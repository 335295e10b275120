//! The six visual categories of a node and the colour bound to each.

use vstd::prelude::*;

verus! {

/// What kind of commit a node stands for.
#[derive(Clone, Copy, Debug, PartialEq, Eq, Hash, Structural)]
pub enum NodeType {
    /// The commit that is checked out.
    WorkingCopy,
    /// A commit that is protected from rewriting.
    Immutable,
    /// Any other commit.
    Regular,
}

/// Whether the selection query holds of a node.
#[derive(Clone, Copy, Debug, PartialEq, Eq, Hash, Structural)]
pub enum FilterMatch {
    Match,
    NoMatch,
}

/// A display colour, as red, green, blue and opacity.
#[derive(Clone, Copy, Debug, PartialEq, Eq, Hash, Structural)]
pub struct Color {
    pub r: u8,
    pub g: u8,
    pub b: u8,
    pub a: u8,
}

/// The visual category of a node: its kind paired with its selection state.
#[derive(Clone, Copy, Debug, PartialEq, Eq, Hash, Structural)]
pub struct NodeCategory {
    pub node_type: NodeType,
    pub filter_match: FilterMatch,
}

impl NodeType {
    /// The kind of a commit with the given properties. Being the working copy
    /// outranks being immutable, which outranks being a regular commit.
    pub open spec fn spec_of(is_wc_commit: bool, immutable: bool) -> NodeType {
        if is_wc_commit {
            NodeType::WorkingCopy
        } else if immutable {
            NodeType::Immutable
        } else {
            NodeType::Regular
        }
    }

    /// The kind of a commit with the given properties.
    pub fn of(is_wc_commit: bool, immutable: bool) -> (kind: NodeType)
        ensures
            kind == Self::spec_of(is_wc_commit, immutable),
    {
        if is_wc_commit {
            NodeType::WorkingCopy
        } else if immutable {
            NodeType::Immutable
        } else {
            NodeType::Regular
        }
    }
}

impl FilterMatch {
    /// `Match` exactly when the selection query holds.
    pub open spec fn spec_of(matches_filter: bool) -> FilterMatch {
        if matches_filter {
            FilterMatch::Match
        } else {
            FilterMatch::NoMatch
        }
    }

    /// `Match` exactly when the selection query holds.
    pub fn of(matches_filter: bool) -> (m: FilterMatch)
        ensures
            m == Self::spec_of(matches_filter),
    {
        if matches_filter {
            FilterMatch::Match
        } else {
            FilterMatch::NoMatch
        }
    }
}

impl NodeCategory {
    /// The category of a node that is or is not the working copy, immutable,
    /// and selected.
    pub open spec fn spec_of(is_wc_commit: bool, immutable: bool, matches_filter: bool) -> NodeCategory {
        NodeCategory {
            node_type: NodeType::spec_of(is_wc_commit, immutable),
            filter_match: FilterMatch::spec_of(matches_filter),
        }
    }

    /// The category of a node that is or is not the working copy, immutable,
    /// and selected.
    pub fn of(is_wc_commit: bool, immutable: bool, matches_filter: bool) -> (category: NodeCategory)
        ensures
            category == Self::spec_of(is_wc_commit, immutable, matches_filter),
    {
        NodeCategory {
            node_type: NodeType::of(is_wc_commit, immutable),
            filter_match: FilterMatch::of(matches_filter),
        }
    }

    /// The colour of each category.
    pub open spec fn spec_color(self) -> Color {
        match (self.node_type, self.filter_match) {
            (NodeType::WorkingCopy, FilterMatch::Match) => Color { r: 0x26, g: 0xff, b: 0x00, a: 0xff },
            (NodeType::WorkingCopy, FilterMatch::NoMatch) => Color { r: 0x29, g: 0x59, b: 0x23, a: 0xff },
            (NodeType::Immutable, FilterMatch::Match) => Color { r: 0x21, g: 0xcd, b: 0xff, a: 0xff },
            (NodeType::Immutable, FilterMatch::NoMatch) => Color { r: 0x2e, g: 0x50, b: 0x59, a: 0xff },
            (NodeType::Regular, FilterMatch::Match) => Color { r: 0xff, g: 0xfc, b: 0x00, a: 0xff },
            (NodeType::Regular, FilterMatch::NoMatch) => Color { r: 0x63, g: 0x62, b: 0x22, a: 0xff },
        }
    }

    /// The colour in which a node of this category is drawn.
    pub fn color(self) -> (color: Color)
        ensures
            color == self.spec_color(),
    {
        match (self.node_type, self.filter_match) {
            (NodeType::WorkingCopy, FilterMatch::Match) => Color { r: 0x26, g: 0xff, b: 0x00, a: 0xff },
            (NodeType::WorkingCopy, FilterMatch::NoMatch) => Color { r: 0x29, g: 0x59, b: 0x23, a: 0xff },
            (NodeType::Immutable, FilterMatch::Match) => Color { r: 0x21, g: 0xcd, b: 0xff, a: 0xff },
            (NodeType::Immutable, FilterMatch::NoMatch) => Color { r: 0x2e, g: 0x50, b: 0x59, a: 0xff },
            (NodeType::Regular, FilterMatch::Match) => Color { r: 0xff, g: 0xfc, b: 0x00, a: 0xff },
            (NodeType::Regular, FilterMatch::NoMatch) => Color { r: 0x63, g: 0x62, b: 0x22, a: 0xff },
        }
    }
}

/// Classification is total and follows the precedence working copy, then
/// immutable, then regular: the working copy is `WorkingCopy` even when it is
/// immutable too, and the selection state is independent of the kind.
pub proof fn lemma_category_precedence(is_wc_commit: bool, immutable: bool, matches_filter: bool)
    ensures
        is_wc_commit ==> NodeCategory::spec_of(is_wc_commit, immutable, matches_filter).node_type
            == NodeType::WorkingCopy,
        !is_wc_commit && immutable ==> NodeCategory::spec_of(
            is_wc_commit,
            immutable,
            matches_filter,
        ).node_type == NodeType::Immutable,
        !is_wc_commit && !immutable ==> NodeCategory::spec_of(
            is_wc_commit,
            immutable,
            matches_filter,
        ).node_type == NodeType::Regular,
        matches_filter <==> NodeCategory::spec_of(is_wc_commit, immutable, matches_filter).filter_match
            == FilterMatch::Match,
{
}

/// Every category is the category of some node: there are exactly six.
pub proof fn lemma_category_reachable(category: NodeCategory)
    ensures
        category == NodeCategory::spec_of(
            category.node_type == NodeType::WorkingCopy,
            category.node_type == NodeType::Immutable,
            category.filter_match == FilterMatch::Match,
        ),
{
}

/// Different categories are drawn in different colours.
pub proof fn lemma_colors_distinct(a: NodeCategory, b: NodeCategory)
    requires
        a != b,
    ensures
        a.spec_color() != b.spec_color(),
{
}

} // verus!
