//! The tagged node tree that the scanner hands to the lowering stage.
//!
//! Each node carries the rule tag of the grammar; leaf nodes that name
//! something (`Variable`, `Classname`, `Functionname`) carry the raw source
//! text of the name, and structured nodes carry their child nodes in source
//! order. `Eoi` is the end-of-stream marker that closes a node sequence.

use vstd::prelude::*;

verus! {

broadcast use vstd::seq::axiom_seq_index_decreases;

/// One tagged node of the concrete-syntax tree.
#[derive(Debug, PartialEq)]
pub enum Node {
    /// One indentation marker standing before a line.
    Indent,
    /// A line break (also produced for a blank source line).
    Newline,
    /// The end-of-stream marker.
    Eoi,
    /// A bare name, with its raw source text.
    Variable(String),
    /// The name of a class definition.
    Classname(String),
    /// The name of a function definition.
    Functionname(String),
    /// A parameter list; its children are the `Variable` nodes of the names.
    Arguments(Vec<Node>),
    /// One item of a line; its child is a `Variable`, `Class` or `Function`.
    Item(Vec<Node>),
    /// A class definition: a `Classname` followed by a `Block`.
    Class(Vec<Node>),
    /// A function definition: a `Functionname`, an optional `Arguments`,
    /// and a `Block`.
    Function(Vec<Node>),
    /// A block: a flat run of `Indent`, `Item` and `Newline` children.
    Block(Vec<Node>),
    /// One part of a document; its child is a `Block`.
    Part(Vec<Node>),
}

/// The mathematical shape of a `Node`: the same tree over `Seq` and
/// `Seq<char>`.
pub ghost enum NodeV {
    Indent,
    Newline,
    Eoi,
    Variable(Seq<char>),
    Classname(Seq<char>),
    Functionname(Seq<char>),
    Arguments(Seq<NodeV>),
    Item(Seq<NodeV>),
    Class(Seq<NodeV>),
    Function(Seq<NodeV>),
    Block(Seq<NodeV>),
    Part(Seq<NodeV>),
}

/// The view of one node.
pub open spec fn node_view(n: Node) -> NodeV
    decreases n,
{
    match n {
        Node::Indent => NodeV::Indent,
        Node::Newline => NodeV::Newline,
        Node::Eoi => NodeV::Eoi,
        Node::Variable(t) => NodeV::Variable(t@),
        Node::Classname(t) => NodeV::Classname(t@),
        Node::Functionname(t) => NodeV::Functionname(t@),
        Node::Arguments(cs) => NodeV::Arguments(nodes_view(cs@)),
        Node::Item(cs) => NodeV::Item(nodes_view(cs@)),
        Node::Class(cs) => NodeV::Class(nodes_view(cs@)),
        Node::Function(cs) => NodeV::Function(nodes_view(cs@)),
        Node::Block(cs) => NodeV::Block(nodes_view(cs@)),
        Node::Part(cs) => NodeV::Part(nodes_view(cs@)),
    }
}

/// The views of a sequence of nodes, element by element.
pub open spec fn nodes_view(ns: Seq<Node>) -> Seq<NodeV>
    decreases ns,
{
    Seq::new(
        ns.len(),
        |i: int|
            if 0 <= i < ns.len() {
                node_view(ns[i])
            } else {
                NodeV::Eoi
            },
    )
}

impl View for Node {
    type V = NodeV;

    open spec fn view(&self) -> NodeV {
        node_view(*self)
    }
}

} // verus!
