//! The untyped document tree and its mathematical model.
//!
//! A parsed document is a tree of `Node`s: scalar text, an ordered mapping
//! of node pairs, or a sequence. The surrounding program obtains such a tree
//! from a markup parser and hands it to the conversion rules whole; nothing
//! here performs I/O. `NodeV` is the spec-level shape of a tree, and every
//! conversion contract is stated over it.

use vstd::prelude::*;

verus! {

/// One node of an untyped parsed document: scalar text, an ordered mapping
/// of node pairs (duplicate keys allowed, order preserved), or a sequence.
#[derive(Debug)]
pub enum Node {
    Scalar(String),
    Mapping(Vec<(Node, Node)>),
    Sequence(Vec<Node>),
}

/// Spec-level shape of a document node.
pub enum NodeV {
    Scalar(Seq<char>),
    Mapping(Seq<(NodeV, NodeV)>),
    Sequence(Seq<NodeV>),
}

/// Model of a `Node` as a `NodeV`.
pub open spec fn node_view(n: Node) -> NodeV
    decreases n,
{
    match n {
        Node::Scalar(s) => NodeV::Scalar(s@),
        Node::Mapping(ps) => NodeV::Mapping(pairs_view(ps@)),
        Node::Sequence(ns) => NodeV::Sequence(items_view(ns@)),
    }
}

/// Model of a sequence of node pairs, in order.
pub open spec fn pairs_view(ps: Seq<(Node, Node)>) -> Seq<(NodeV, NodeV)>
    decreases ps,
{
    if ps.len() == 0 {
        Seq::empty()
    } else {
        seq![(node_view(ps[0].0), node_view(ps[0].1))] + pairs_view(ps.drop_first())
    }
}

/// Model of a sequence of nodes, in order.
pub open spec fn items_view(ns: Seq<Node>) -> Seq<NodeV>
    decreases ns,
{
    if ns.len() == 0 {
        Seq::empty()
    } else {
        seq![node_view(ns[0])] + items_view(ns.drop_first())
    }
}

/// The model of a pair sequence has the same length and holds, pair for
/// pair, the models of the nodes.
pub proof fn lemma_pairs_view_props(ps: Seq<(Node, Node)>)
    ensures
        pairs_view(ps).len() == ps.len(),
        forall|i: int|
            0 <= i < ps.len() ==> #[trigger] pairs_view(ps)[i] == (
                node_view(ps[i].0),
                node_view(ps[i].1),
            ),
    decreases ps,
{
    if ps.len() > 0 {
        lemma_pairs_view_props(ps.drop_first());
        assert forall|i: int|
            0 <= i < ps.len() implies #[trigger] pairs_view(ps)[i] == (
            node_view(ps[i].0),
            node_view(ps[i].1),
        ) by {
            if i > 0 {
                assert(pairs_view(ps)[i] == pairs_view(ps.drop_first())[i - 1]);
                assert(ps.drop_first()[i - 1] == ps[i]);
            }
        }
    }
}

impl View for Node {
    type V = NodeV;

    open spec fn view(&self) -> NodeV {
        node_view(*self)
    }
}

/// Why a conversion failed. The first failure anywhere in the descent
/// aborts the whole conversion and propagates unchanged.
#[derive(Debug, PartialEq, Eq)]
pub enum ConvError {
    /// A scalar was required but the node had another shape.
    ExpectedScalar,
    /// A mapping was required but the node had another shape.
    ExpectedMapping,
    /// Scalar text named no member of the closed type table.
    UnknownType,
    /// An argument node was neither scalar nor mapping.
    InvalidArgumentShape,
    /// A required component key (the payload) never appeared.
    MissingRequiredField(String),
}

/// Spec-level shape of a conversion error.
pub enum ConvErrV {
    ExpectedScalar,
    ExpectedMapping,
    UnknownType,
    InvalidArgumentShape,
    MissingRequiredField(Seq<char>),
}

impl View for ConvError {
    type V = ConvErrV;

    open spec fn view(&self) -> ConvErrV {
        match self {
            ConvError::ExpectedScalar => ConvErrV::ExpectedScalar,
            ConvError::ExpectedMapping => ConvErrV::ExpectedMapping,
            ConvError::UnknownType => ConvErrV::UnknownType,
            ConvError::InvalidArgumentShape => ConvErrV::InvalidArgumentShape,
            ConvError::MissingRequiredField(s) => ConvErrV::MissingRequiredField(s@),
        }
    }
}

/// A conversion result, seen through the views of both sides.
pub open spec fn res_v<T: View, E: View>(r: Result<T, E>) -> Result<T::V, E::V> {
    match r {
        Ok(t) => Ok(t@),
        Err(e) => Err(e@),
    }
}

/// Model of the strict scalar guard: the node's text, or `ExpectedScalar`.
pub open spec fn str_v(n: NodeV) -> Result<Seq<char>, ConvErrV> {
    match n {
        NodeV::Scalar(s) => Ok(s),
        _ => Err(ConvErrV::ExpectedScalar),
    }
}

/// Model of the strict mapping guard: the node's ordered pairs, or
/// `ExpectedMapping`.
pub open spec fn pairs_v(n: NodeV) -> Result<Seq<(NodeV, NodeV)>, ConvErrV> {
    match n {
        NodeV::Mapping(ps) => Ok(ps),
        _ => Err(ConvErrV::ExpectedMapping),
    }
}

/// Strict shape guard: the scalar's text, with no coercion of any kind.
pub fn node_str(n: &Node) -> (r: Result<&String, ConvError>)
    ensures
        res_v(r) == str_v(n@),
{
    match n {
        Node::Scalar(s) => Ok(s),
        _ => Err(ConvError::ExpectedScalar),
    }
}

/// Strict shape guard: the mapping's ordered pairs.
pub fn node_pairs(n: &Node) -> (r: Result<&Vec<(Node, Node)>, ConvError>)
    ensures
        match r {
            Ok(ps) => pairs_v(n@) == Ok::<Seq<(NodeV, NodeV)>, ConvErrV>(pairs_view(ps@)),
            Err(e) => pairs_v(n@) == Err::<Seq<(NodeV, NodeV)>, ConvErrV>(e@),
        },
{
    match n {
        Node::Mapping(ps) => Ok(ps),
        _ => Err(ConvError::ExpectedMapping),
    }
}

/// Text equality between an owned key and borrowed text.
pub fn str_eq(a: &String, b: &str) -> (r: bool)
    ensures
        r == (a@ == b@),
{
    *a == b.to_owned()
}

} // verus!
