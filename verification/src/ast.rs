//! The abstract syntax tree that lowering produces, and its mathematical
//! views.
//!
//! A `Block` owns the lines that stand directly in it and carries the one
//! canonical indentation depth that every such line reports; the bodies of
//! classes and functions are blocks of their own, canonicalized
//! independently.

use vstd::prelude::*;

verus! {

broadcast use vstd::seq::axiom_seq_index_decreases;

/// The root of the tree: the parts of one source text, in source order.
/// `location` is an unused optional source tag; lowering always leaves it
/// `None`.
#[derive(Debug, PartialEq)]
pub struct Document {
    pub parts: Vec<Part>,
    pub location: Option<String>,
}

/// One part of a document. Lowering only ever produces `Literal`; the
/// `Class` case exists in the type but has no production path.
#[derive(Debug, PartialEq)]
pub enum Part {
    Class(Class),
    Literal(Block),
}

/// A run of lines sharing one canonical indentation depth.
#[derive(Debug, PartialEq)]
pub struct Block {
    pub indent: usize,
    pub lines: Vec<Line>,
}

/// One line of a block. `indent` is the block's canonical depth, not
/// necessarily the depth the line itself measured in the source.
#[derive(Debug, PartialEq)]
pub struct Line {
    pub indent: usize,
    pub item: Item,
}

/// What a line holds. `Empty` is an unused terminal case.
#[derive(Debug, PartialEq)]
pub enum Item {
    Empty,
    Variable(String),
    Class(Class),
    Function(Function),
}

/// A class definition: its name and its body block.
#[derive(Debug, PartialEq)]
pub struct Class {
    pub name: String,
    pub block: Block,
}

/// A function definition: its name, its body block, and its parameter
/// names in source order, duplicates kept.
#[derive(Debug, PartialEq)]
pub struct Function {
    pub name: String,
    pub block: Block,
    pub input_variables: Variables,
}

/// An ordered list of parameter names.
#[derive(Debug, PartialEq)]
pub struct Variables {
    pub variables: Vec<String>,
}

/// A placeholder container for several documents; not produced by any
/// current path.
#[derive(Debug, PartialEq)]
pub struct Bundle {
    pub documents: Vec<Document>,
}

impl Bundle {}

/// The view of a `Document`.
pub ghost struct DocumentV {
    pub parts: Seq<PartV>,
    pub location: Option<Seq<char>>,
}

/// The view of a `Part`.
pub ghost enum PartV {
    Class(ClassV),
    Literal(BlockV),
}

/// The view of a `Block`.
pub ghost struct BlockV {
    pub indent: nat,
    pub lines: Seq<LineV>,
}

/// The view of a `Line`.
pub ghost struct LineV {
    pub indent: nat,
    pub item: ItemV,
}

/// The view of an `Item`.
pub ghost enum ItemV {
    Empty,
    Variable(Seq<char>),
    Class(ClassV),
    Function(FunctionV),
}

/// The view of a `Class`.
pub ghost struct ClassV {
    pub name: Seq<char>,
    pub block: BlockV,
}

/// The view of a `Function`.
pub ghost struct FunctionV {
    pub name: Seq<char>,
    pub block: BlockV,
    pub input_variables: Seq<Seq<char>>,
}

/// The view of an `Item`.
pub open spec fn item_view(it: Item) -> ItemV
    decreases it,
{
    match it {
        Item::Empty => ItemV::Empty,
        Item::Variable(t) => ItemV::Variable(t@),
        Item::Class(c) => ItemV::Class(class_view(c)),
        Item::Function(f) => ItemV::Function(function_view(f)),
    }
}

/// The view of a `Line`.
pub open spec fn line_view(l: Line) -> LineV
    decreases l,
{
    LineV { indent: l.indent as nat, item: item_view(l.item) }
}

/// The views of a sequence of lines, element by element.
pub open spec fn lines_view(ls: Seq<Line>) -> Seq<LineV>
    decreases ls,
{
    Seq::new(
        ls.len(),
        |i: int|
            if 0 <= i < ls.len() {
                line_view(ls[i])
            } else {
                LineV { indent: 0, item: ItemV::Empty }
            },
    )
}

/// The view of a `Block`.
pub open spec fn block_view(b: Block) -> BlockV
    decreases b,
{
    BlockV { indent: b.indent as nat, lines: lines_view(b.lines@) }
}

/// The view of a `Class`.
pub open spec fn class_view(c: Class) -> ClassV
    decreases c,
{
    ClassV { name: c.name@, block: block_view(c.block) }
}

/// The view of a `Function`.
pub open spec fn function_view(f: Function) -> FunctionV
    decreases f,
{
    FunctionV {
        name: f.name@,
        block: block_view(f.block),
        input_variables: f.input_variables.variables.deep_view(),
    }
}

/// The view of a `Part`.
pub open spec fn part_view(p: Part) -> PartV
    decreases p,
{
    match p {
        Part::Class(c) => PartV::Class(class_view(c)),
        Part::Literal(b) => PartV::Literal(block_view(b)),
    }
}

/// The views of a sequence of parts, element by element.
pub open spec fn parts_view(ps: Seq<Part>) -> Seq<PartV>
    decreases ps,
{
    Seq::new(
        ps.len(),
        |i: int|
            if 0 <= i < ps.len() {
                part_view(ps[i])
            } else {
                PartV::Literal(BlockV { indent: 0, lines: Seq::empty() })
            },
    )
}

/// The view of a `Document`.
pub open spec fn document_view(d: Document) -> DocumentV {
    DocumentV { parts: parts_view(d.parts@), location: d.location.deep_view() }
}

impl View for Item {
    type V = ItemV;

    open spec fn view(&self) -> ItemV {
        item_view(*self)
    }
}

impl View for Line {
    type V = LineV;

    open spec fn view(&self) -> LineV {
        line_view(*self)
    }
}

impl View for Block {
    type V = BlockV;

    open spec fn view(&self) -> BlockV {
        block_view(*self)
    }
}

impl View for Class {
    type V = ClassV;

    open spec fn view(&self) -> ClassV {
        class_view(*self)
    }
}

impl View for Function {
    type V = FunctionV;

    open spec fn view(&self) -> FunctionV {
        function_view(*self)
    }
}

impl View for Part {
    type V = PartV;

    open spec fn view(&self) -> PartV {
        part_view(*self)
    }
}

impl View for Document {
    type V = DocumentV;

    open spec fn view(&self) -> DocumentV {
        document_view(*self)
    }
}

impl View for Variables {
    type V = Seq<Seq<char>>;

    open spec fn view(&self) -> Seq<Seq<char>> {
        self.variables.deep_view()
    }
}

} // verus!
