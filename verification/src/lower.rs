//! Lowering of a tagged node tree into the abstract syntax tree.
//!
//! Every stage is specified first as a mathematical function over node
//! views (`lower_document`, `lower_block_from`, ...), and the executable
//! lexers are proved to return exactly what those functions say.
//!
//! Each lowering function carries a `fuel` bound on the recursion depth:
//! nested class and function bodies re-enter block lowering, and the fuel
//! turns an over-deep tree into a reported `Grammar` failure instead of
//! stack exhaustion. `parse` enters the pipeline with `LOWER_FUEL`, enough
//! for several hundred levels of nesting.

use vstd::prelude::*;

use crate::ast::{
    Block, BlockV, Class, ClassV, Document, DocumentV, Function, FunctionV, Item, ItemV, Line,
    LineV, Part, PartV, Variables, block_view, class_view, document_view, function_view,
    item_view, line_view, lines_view, part_view, parts_view,
};
use crate::error::{Error, Stage};
use crate::node::{Node, NodeV, node_view, nodes_view};
use crate::scan::{Grammar, ScanOut, scan_text};

verus! {

/// The recursion-depth budget that `parse` grants the lowering stage.
pub const LOWER_FUEL: u32 = 4096;

/// The depth a block reports: the latched canonical depth, or 0 when no
/// line latched one.
pub open spec fn opt_depth(latch: Option<nat>) -> nat {
    match latch {
        None => 0,
        Some(d) => d,
    }
}

/// Parameter-list lowering: the raw texts of a run of `Variable` nodes, in
/// order, duplicates kept; any other tag is a mismatch at the arguments
/// stage.
pub open spec fn lower_variables(ns: Seq<NodeV>) -> Result<Seq<Seq<char>>, Stage>
    decreases ns.len(),
{
    if ns.len() == 0 {
        Ok(Seq::empty())
    } else {
        match ns[0] {
            NodeV::Variable(t) => match lower_variables(ns.drop_first()) {
                Ok(rest) => Ok(seq![t] + rest),
                Err(st) => Err(st),
            },
            _ => Err(Stage::Arguments),
        }
    }
}

/// Line lowering from position `i`: consumes `Indent` markers (counted on
/// top of `acc`) and `Newline` nodes until an `Item` node gives the line's
/// item. Yields the measured line and the position after it, or the stage
/// that failed and the position reached.
pub open spec fn lower_line_from(ns: Seq<NodeV>, i: int, acc: nat, fuel: nat) -> (Result<
    LineV,
    Stage,
>, int)
    decreases fuel, ns.len() - i, 0int,
{
    if fuel == 0 {
        (Err(Stage::Line), i)
    } else if i < 0 || i >= ns.len() {
        (Err(Stage::Line), i)
    } else {
        match ns[i] {
            NodeV::Indent => lower_line_from(ns, i + 1, acc + 1, fuel),
            NodeV::Newline => lower_line_from(ns, i + 1, acc, fuel),
            NodeV::Item(inner) => match lower_item(inner, (fuel - 1) as nat) {
                Ok(item) => (Ok(LineV { indent: acc, item }), i + 1),
                Err(st) => (Err(st), i + 1),
            },
            _ => (Err(Stage::Line), i + 1),
        }
    }
}

/// Block lowering from position `i`, with the canonical depth latched so
/// far. Stops at the end marker or at the end of the stream; each lowered
/// line's depth is overwritten with the latched depth, which the first
/// line's measured depth fixes once and nothing re-evaluates. Yields the
/// lines, the final latch and the final position; a stream exhausted
/// before any line latched is a mismatch at the block stage.
pub open spec fn lower_block_from(
    ns: Seq<NodeV>,
    i: int,
    latch: Option<nat>,
    fuel: nat,
) -> (Result<(Seq<LineV>, Option<nat>), Stage>, int)
    decreases fuel, ns.len() - i, 1int,
{
    if fuel == 0 {
        (Err(Stage::Block), i)
    } else if i < 0 || i >= ns.len() {
        if latch is None {
            (Err(Stage::Block), i)
        } else {
            (Ok((Seq::empty(), latch)), i)
        }
    } else if ns[i] is Eoi {
        (Ok((Seq::empty(), latch)), i)
    } else {
        let (line_res, j) = lower_line_from(ns, i, 0, (fuel - 1) as nat);
        // the line lowering always advances past `i` and stays within the
        // stream; the guard makes that plain to the termination check
        let next = if i < j && j <= ns.len() {
            j
        } else {
            i + 1
        };
        match line_res {
            Ok(lv) => {
                let d = match latch {
                    None => lv.indent,
                    Some(d) => d,
                };
                let (rest_res, k) = lower_block_from(ns, next, Some(d), fuel);
                match rest_res {
                    Ok((lines, latch_out)) => (
                        Ok((seq![LineV { indent: d, item: lv.item }] + lines, latch_out)),
                        k,
                    ),
                    Err(st) => (Err(st), k),
                }
            },
            Err(st) => (Err(st), j),
        }
    }
}

/// Strict, dedent-sensitive block lowering from position `i`: as
/// `lower_block_from`, except that a line whose measured depth differs
/// from the latched depth is not relabeled but closes the block before
/// itself, leaving the cursor at its start. This is the opt-in mode for
/// consumers that need depth changes to split blocks rather than be
/// silently canonicalized away.
pub open spec fn lower_block_strict_from(
    ns: Seq<NodeV>,
    i: int,
    latch: Option<nat>,
    fuel: nat,
) -> (Result<(Seq<LineV>, Option<nat>), Stage>, int)
    decreases fuel, ns.len() - i, 1int,
{
    if fuel == 0 {
        (Err(Stage::Block), i)
    } else if i < 0 || i >= ns.len() {
        if latch is None {
            (Err(Stage::Block), i)
        } else {
            (Ok((Seq::empty(), latch)), i)
        }
    } else if ns[i] is Eoi {
        (Ok((Seq::empty(), latch)), i)
    } else {
        let (line_res, j) = lower_line_from(ns, i, 0, (fuel - 1) as nat);
        // the line lowering always advances past `i` and stays within the
        // stream; the guard makes that plain to the termination check
        let next = if i < j && j <= ns.len() {
            j
        } else {
            i + 1
        };
        match line_res {
            Ok(lv) => match latch {
                Some(d) => if lv.indent != d {
                    (Ok((Seq::empty(), latch)), i)
                } else {
                    let (rest_res, k) = lower_block_strict_from(ns, next, Some(d), fuel);
                    match rest_res {
                        Ok((lines, latch_out)) => (
                            Ok((seq![LineV { indent: d, item: lv.item }] + lines, latch_out)),
                            k,
                        ),
                        Err(st) => (Err(st), k),
                    }
                },
                None => {
                    let d = lv.indent;
                    let (rest_res, k) = lower_block_strict_from(ns, next, Some(d), fuel);
                    match rest_res {
                        Ok((lines, latch_out)) => (
                            Ok((seq![LineV { indent: d, item: lv.item }] + lines, latch_out)),
                            k,
                        ),
                        Err(st) => (Err(st), k),
                    }
                },
            },
            Err(st) => (Err(st), j),
        }
    }
}

/// Block lowering of a whole node sequence: the lines from position 0 with
/// no depth latched, and the depth the latch ended on (0 when it never
/// latched).
pub open spec fn lower_block(ns: Seq<NodeV>, fuel: nat) -> Result<BlockV, Stage>
    decreases fuel, ns.len(), 2int,
{
    match lower_block_from(ns, 0, None, fuel).0 {
        Ok((lines, latch)) => Ok(BlockV { indent: opt_depth(latch), lines }),
        Err(st) => Err(st),
    }
}

/// Item dispatch: the first node of an item's children decides. A bare
/// name becomes `Variable`; `Class` and `Function` nodes are lowered
/// recursively; an empty sequence or any other tag is a mismatch at the
/// item stage.
pub open spec fn lower_item(ns: Seq<NodeV>, fuel: nat) -> Result<ItemV, Stage>
    decreases fuel, ns.len(), 2int,
{
    if fuel == 0 {
        Err(Stage::Item)
    } else if ns.len() == 0 {
        Err(Stage::Item)
    } else {
        match ns[0] {
            NodeV::Variable(t) => Ok(ItemV::Variable(t)),
            NodeV::Class(cs) => match lower_class(cs, (fuel - 1) as nat) {
                Ok(c) => Ok(ItemV::Class(c)),
                Err(st) => Err(st),
            },
            NodeV::Function(fs) => match lower_function(fs, (fuel - 1) as nat) {
                Ok(f) => Ok(ItemV::Function(f)),
                Err(st) => Err(st),
            },
            _ => Err(Stage::Item),
        }
    }
}

/// Class lowering from position `i`: each `Classname` node rewrites the
/// name collected so far, `Newline` nodes are discarded, and the first
/// `Block` node becomes the body. No block before the end of the
/// children, or any other tag, is a mismatch at the class stage.
pub open spec fn lower_class_from(ns: Seq<NodeV>, i: int, name: Seq<char>, fuel: nat) -> Result<
    ClassV,
    Stage,
>
    decreases fuel, ns.len() - i, 0int,
{
    if fuel == 0 {
        Err(Stage::Class)
    } else if i < 0 || i >= ns.len() {
        Err(Stage::Class)
    } else {
        match ns[i] {
            NodeV::Classname(t) => lower_class_from(ns, i + 1, t, fuel),
            NodeV::Newline => lower_class_from(ns, i + 1, name, fuel),
            NodeV::Block(bs) => match lower_block(bs, (fuel - 1) as nat) {
                Ok(b) => Ok(ClassV { name, block: b }),
                Err(st) => Err(st),
            },
            _ => Err(Stage::Class),
        }
    }
}

/// Class lowering of a class node's children, starting from an empty name.
pub open spec fn lower_class(ns: Seq<NodeV>, fuel: nat) -> Result<ClassV, Stage>
    decreases fuel, ns.len(), 1int,
{
    lower_class_from(ns, 0, Seq::empty(), fuel)
}

/// Function lowering from position `i`: `Functionname` rewrites the name,
/// an `Arguments` node rewrites the parameters via parameter-list
/// lowering, `Newline` nodes are discarded, and the first `Block` node
/// becomes the body. No block, or any other tag, is a mismatch at the
/// function stage.
pub open spec fn lower_function_from(
    ns: Seq<NodeV>,
    i: int,
    name: Seq<char>,
    vars: Seq<Seq<char>>,
    fuel: nat,
) -> Result<FunctionV, Stage>
    decreases fuel, ns.len() - i, 0int,
{
    if fuel == 0 {
        Err(Stage::Function)
    } else if i < 0 || i >= ns.len() {
        Err(Stage::Function)
    } else {
        match ns[i] {
            NodeV::Functionname(t) => lower_function_from(ns, i + 1, t, vars, fuel),
            NodeV::Newline => lower_function_from(ns, i + 1, name, vars, fuel),
            NodeV::Arguments(vs) => match lower_variables(vs) {
                Ok(ws) => lower_function_from(ns, i + 1, name, ws, fuel),
                Err(st) => Err(st),
            },
            NodeV::Block(bs) => match lower_block(bs, (fuel - 1) as nat) {
                Ok(b) => Ok(FunctionV { name, block: b, input_variables: vars }),
                Err(st) => Err(st),
            },
            _ => Err(Stage::Function),
        }
    }
}

/// Function lowering of a function node's children: empty name, no
/// parameters until an `Arguments` node supplies some.
pub open spec fn lower_function(ns: Seq<NodeV>, fuel: nat) -> Result<FunctionV, Stage>
    decreases fuel, ns.len(), 1int,
{
    lower_function_from(ns, 0, Seq::empty(), Seq::empty(), fuel)
}

/// Part lowering: the first child must be a `Block` node, whose lowering
/// is wrapped as the `Literal` part; anything else is a mismatch at the
/// part stage.
pub open spec fn lower_part(ns: Seq<NodeV>, fuel: nat) -> Result<PartV, Stage>
    decreases fuel, ns.len(), 2int,
{
    if fuel == 0 {
        Err(Stage::Part)
    } else if ns.len() == 0 {
        Err(Stage::Part)
    } else {
        match ns[0] {
            NodeV::Block(bs) => match lower_block(bs, (fuel - 1) as nat) {
                Ok(b) => Ok(PartV::Literal(b)),
                Err(st) => Err(st),
            },
            _ => Err(Stage::Part),
        }
    }
}

/// Document lowering from position `i`: each `Part` node is lowered and
/// appended in order until the end marker closes the document; a stream
/// exhausted without the end marker, or any other tag, is a mismatch at
/// the document stage.
pub open spec fn lower_document_from(ns: Seq<NodeV>, i: int, fuel: nat) -> Result<
    DocumentV,
    Stage,
>
    decreases fuel, ns.len() - i, 0int,
{
    if fuel == 0 {
        Err(Stage::Document)
    } else if i < 0 || i >= ns.len() {
        Err(Stage::Document)
    } else {
        match ns[i] {
            NodeV::Part(inner) => match lower_part(inner, (fuel - 1) as nat) {
                Ok(p) => match lower_document_from(ns, i + 1, fuel) {
                    Ok(d) => Ok(DocumentV { parts: seq![p] + d.parts, location: d.location }),
                    Err(st) => Err(st),
                },
                Err(st) => Err(st),
            },
            NodeV::Eoi => Ok(DocumentV { parts: Seq::empty(), location: None }),
            _ => Err(Stage::Document),
        }
    }
}

/// Document lowering of a whole top-level node sequence.
pub open spec fn lower_document(ns: Seq<NodeV>, fuel: nat) -> Result<DocumentV, Stage>
    decreases fuel, ns.len(), 1int,
{
    lower_document_from(ns, 0, fuel)
}

/// What parsing the text `s` must return: the scanner's failure, carried
/// over; or the lowering of the scanned node stream at the `LOWER_FUEL`
/// budget, value for value.
pub open spec fn parse_result_matches(s: Seq<char>, r: Result<Document, Error>) -> bool {
    match scan_text(s) {
        ScanOut::Bad(p) => match r {
            Err(Error::Tokenize(q)) => q as int == p,
            _ => false,
        },
        ScanOut::TooDeep => match r {
            Err(Error::Grammar(st)) => st == Stage::Block,
            _ => false,
        },
        ScanOut::Nodes(ns) => match lower_document(ns, LOWER_FUEL as nat) {
            Ok(dv) => match r {
                Ok(d) => document_view(d) == dv,
                _ => false,
            },
            Err(st) => match r {
                Err(Error::Grammar(st2)) => st2 == st,
                _ => false,
            },
        },
    }
}

/// Every line that block lowering emits under a latched depth `d` reports
/// exactly `d`, and the latch leaves as it entered; under no latch, the
/// first emitted line's measured depth becomes the latch and every line
/// reports it.
proof fn lemma_block_from_depths(ns: Seq<NodeV>, i: int, latch: Option<nat>, fuel: nat)
    ensures
        ({
            let (res, j) = lower_block_from(ns, i, latch, fuel);
            match res {
                Ok((lines, lo)) => match latch {
                    Some(d) => lo == Some(d) && forall|k: int|
                        0 <= k < lines.len() ==> #[trigger] lines[k].indent == d,
                    None => if lines.len() == 0 {
                        lo is None
                    } else {
                        lo == Some(lines[0].indent) && forall|k: int|
                            0 <= k < lines.len() ==> #[trigger] lines[k].indent
                                == lines[0].indent
                    },
                },
                Err(_) => true,
            }
        }),
    decreases fuel, ns.len() - i,
{
    if fuel == 0 || i < 0 || i >= ns.len() || ns[i] is Eoi {
    } else {
        let (line_res, j) = lower_line_from(ns, i, 0, (fuel - 1) as nat);
        let next = if i < j && j <= ns.len() {
            j
        } else {
            i + 1
        };
        match line_res {
            Ok(lv) => {
                let d = match latch {
                    None => lv.indent,
                    Some(d) => d,
                };
                lemma_block_from_depths(ns, next, Some(d), fuel);
            },
            Err(_) => {},
        }
    }
}

/// Canonicalization is latch-once: when block lowering succeeds with at
/// least one line, the block's depth is the depth its first line
/// measured, and every line of the block reports that depth — whatever
/// depths later lines measured in the stream.
pub proof fn lemma_latch_once(ns: Seq<NodeV>, fuel: nat)
    ensures
        ({
            match lower_block(ns, fuel) {
                Ok(b) => b.lines.len() == 0 || ({
                    let (first, j) = lower_line_from(ns, 0, 0, (fuel - 1) as nat);
                    match first {
                        Ok(lv) => b.indent == lv.indent && forall|k: int|
                            0 <= k < b.lines.len() ==> b.lines[k].indent == b.indent,
                        Err(_) => false,
                    }
                }),
                Err(_) => true,
            }
        }),
{
    lemma_block_from_depths(ns, 0, None, fuel);
}

/// An end marker reached with zero lines yields the empty block of depth
/// 0, not an error.
pub proof fn lemma_end_marker_empty_block(ns: Seq<NodeV>, fuel: nat)
    requires
        ns.len() > 0,
        ns[0] is Eoi,
        fuel > 0,
    ensures
        lower_block(ns, fuel) == Ok::<BlockV, Stage>(
            BlockV { indent: 0, lines: Seq::empty() },
        ),
{
}

/// A node stream that is exhausted without an end marker and without one
/// line is a mismatch at the block stage.
pub proof fn lemma_exhausted_empty_block(fuel: nat)
    requires
        fuel > 0,
    ensures
        lower_block(Seq::<NodeV>::empty(), fuel) == Err::<BlockV, Stage>(Stage::Block),
{
}

/// The view of an executable latch value.
pub open spec fn opt_nat(o: Option<usize>) -> Option<nat> {
    match o {
        None => None,
        Some(d) => Some(d as nat),
    }
}

/// Whether a line's measured depth `b` becomes the block's latched depth:
/// only when no depth `a` is latched yet. A measured depth that differs
/// from the latched one never re-latches.
pub fn new_block_indent(a: Option<usize>, b: usize) -> (r: bool)
    ensures
        r <==> a is None,
{
    match a {
        None => true,
        Some(x) => if x == b {
            false
        } else {
            false
        },
    }
}

impl Block {
    /// A block with no lines and depth 0.
    pub fn empty() -> (r: Block)
        ensures
            r@ == (BlockV { indent: 0 as nat, lines: Seq::<LineV>::empty() }),
    {
        let b = Block { indent: 0, lines: Vec::new() };
        proof {
            assert(lines_view(b.lines@) =~= Seq::<LineV>::empty());
        }
        b
    }
}

impl Variables {
    /// An empty parameter list.
    pub fn new() -> (r: Variables)
        ensures
            r@ == Seq::<Seq<char>>::empty(),
    {
        let v = Variables { variables: Vec::new() };
        proof {
            assert(v.variables.deep_view() =~= Seq::<Seq<char>>::empty());
        }
        v
    }

    /// Lowers the children of an `Arguments` node into the parameter list,
    /// exactly as `lower_variables` says: every name in order, duplicates
    /// kept, or the first mismatch.
    pub fn lexer(nodes: &Vec<Node>) -> (r: Result<Variables, Error>)
        ensures
            ({
                let res = lower_variables(nodes_view(nodes@));
                match r {
                    Ok(vs) => res == Ok::<Seq<Seq<char>>, Stage>(vs@),
                    Err(Error::Grammar(st)) => res == Err::<Seq<Seq<char>>, Stage>(st),
                    Err(_) => false,
                }
            }),
    {
        let ghost ns = nodes_view(nodes@);
        let mut vars: Vec<String> = Vec::new();
        let mut i: usize = 0;
        proof {
            assert(ns.skip(0) =~= ns);
            assert(vars.deep_view() =~= Seq::<Seq<char>>::empty());
        }
        while i < nodes.len()
            invariant
                i <= nodes.len(),
                ns == nodes_view(nodes@),
                ({
                    let whole = lower_variables(ns);
                    match lower_variables(ns.skip(i as int)) {
                        Ok(tail) => whole == Ok::<Seq<Seq<char>>, Stage>(vars.deep_view() + tail),
                        Err(st) => whole == Err::<Seq<Seq<char>>, Stage>(st),
                    }
                }),
            decreases nodes.len() - i,
        {
            proof {
                assert(ns.skip(i as int)[0] == ns[i as int]);
                assert(ns.skip(i as int).drop_first() =~= ns.skip(i as int + 1));
            }
            match &nodes[i] {
                Node::Variable(t) => {
                    let ghost old_vars = vars.deep_view();
                    vars.push(t.clone());
                    proof {
                        assert(vars.deep_view() =~= old_vars + seq![t@]);
                        if let Ok(tail) = lower_variables(ns.skip(i as int + 1)) {
                            assert(old_vars + (seq![t@] + tail) =~= vars.deep_view() + tail);
                        }
                    }
                },
                _ => {
                    return Err(Error::Grammar(Stage::Arguments));
                },
            }
            i = i + 1;
        }
        proof {
            assert(ns.skip(i as int) =~= Seq::<NodeV>::empty());
            assert(vars.deep_view() + Seq::<Seq<char>>::empty() =~= vars.deep_view());
        }
        Ok(Variables { variables: vars })
    }
}

impl Class {
    /// Class lowering on the children of a `Class` node, exactly as
    /// `lower_class` says: the last `Classname` before the body names the
    /// class, and the first `Block` node is its body.
    pub fn lexer(nodes: &Vec<Node>, fuel: u32) -> (r: Result<Class, Error>)
        ensures
            ({
                let res = lower_class(nodes_view(nodes@), fuel as nat);
                match r {
                    Ok(c) => res == Ok::<ClassV, Stage>(c@),
                    Err(Error::Grammar(st)) => res == Err::<ClassV, Stage>(st),
                    Err(_) => false,
                }
            }),
        decreases fuel, 5int,
    {
        if fuel == 0 {
            return Err(Error::Grammar(Stage::Class));
        }
        let ghost ns = nodes_view(nodes@);
        let mut name = String::new();
        let mut i: usize = 0;
        while i < nodes.len()
            invariant
                i <= nodes.len(),
                1 <= fuel,
                ns == nodes_view(nodes@),
                lower_class(ns, fuel as nat) == lower_class_from(ns, i as int, name@, fuel as nat),
            decreases nodes.len() - i,
        {
            match &nodes[i] {
                Node::Classname(t) => {
                    name = t.clone();
                },
                Node::Newline => {},
                Node::Block(bs) => {
                    let mut p: usize = 0;
                    proof {
                        assert(ns[i as int] == NodeV::Block(nodes_view(bs@)));
                        assert(lower_class_from(ns, i as int, name@, fuel as nat)
                            == (match lower_block(nodes_view(bs@), (fuel - 1) as nat) {
                            Ok(bb) => Ok::<ClassV, Stage>(ClassV { name: name@, block: bb }),
                            Err(st) => Err(st),
                        }));
                    }
                    match Block::lexer(bs, &mut p, fuel - 1) {
                        Ok(b) => {
                            return Ok(Class { name, block: b });
                        },
                        Err(e) => {
                            return Err(e);
                        },
                    }
                },
                _ => {
                    return Err(Error::Grammar(Stage::Class));
                },
            }
            i = i + 1;
        }
        Err(Error::Grammar(Stage::Class))
    }
}

impl Function {
    /// Function lowering on the children of a `Function` node, exactly as
    /// `lower_function` says: the last `Functionname` before the body names
    /// the function, an `Arguments` node supplies the parameters, and the
    /// first `Block` node is its body.
    pub fn lexer(nodes: &Vec<Node>, fuel: u32) -> (r: Result<Function, Error>)
        ensures
            ({
                let res = lower_function(nodes_view(nodes@), fuel as nat);
                match r {
                    Ok(f) => res == Ok::<FunctionV, Stage>(f@),
                    Err(Error::Grammar(st)) => res == Err::<FunctionV, Stage>(st),
                    Err(_) => false,
                }
            }),
        decreases fuel, 5int,
    {
        if fuel == 0 {
            return Err(Error::Grammar(Stage::Function));
        }
        let ghost ns = nodes_view(nodes@);
        let mut name = String::new();
        let mut input_variables = Variables::new();
        let mut i: usize = 0;
        while i < nodes.len()
            invariant
                i <= nodes.len(),
                1 <= fuel,
                ns == nodes_view(nodes@),
                lower_function(ns, fuel as nat) == lower_function_from(
                    ns,
                    i as int,
                    name@,
                    input_variables@,
                    fuel as nat,
                ),
            decreases nodes.len() - i,
        {
            match &nodes[i] {
                Node::Functionname(t) => {
                    name = t.clone();
                },
                Node::Newline => {},
                Node::Arguments(vs) => {
                    match Variables::lexer(vs) {
                        Ok(ws) => {
                            input_variables = ws;
                        },
                        Err(e) => {
                            return Err(e);
                        },
                    }
                },
                Node::Block(bs) => {
                    let mut p: usize = 0;
                    proof {
                        assert(ns[i as int] == NodeV::Block(nodes_view(bs@)));
                        assert(lower_function_from(ns, i as int, name@, input_variables@, fuel as nat)
                            == (match lower_block(nodes_view(bs@), (fuel - 1) as nat) {
                            Ok(bb) => Ok::<FunctionV, Stage>(
                                FunctionV {
                                    name: name@,
                                    block: bb,
                                    input_variables: input_variables@,
                                },
                            ),
                            Err(st) => Err(st),
                        }));
                    }
                    match Block::lexer(bs, &mut p, fuel - 1) {
                        Ok(b) => {
                            return Ok(Function { name, block: b, input_variables });
                        },
                        Err(e) => {
                            return Err(e);
                        },
                    }
                },
                _ => {
                    return Err(Error::Grammar(Stage::Function));
                },
            }
            i = i + 1;
        }
        Err(Error::Grammar(Stage::Function))
    }
}

impl Part {
    /// Part lowering on the children of a `Part` node, exactly as
    /// `lower_part` says: the first child must be a `Block`, wrapped as the
    /// `Literal` part.
    pub fn lexer(nodes: &Vec<Node>, fuel: u32) -> (r: Result<Part, Error>)
        ensures
            ({
                let res = lower_part(nodes_view(nodes@), fuel as nat);
                match r {
                    Ok(p) => res == Ok::<PartV, Stage>(p@),
                    Err(Error::Grammar(st)) => res == Err::<PartV, Stage>(st),
                    Err(_) => false,
                }
            }),
        decreases fuel, 4int,
    {
        if fuel == 0 {
            return Err(Error::Grammar(Stage::Part));
        }
        if nodes.len() == 0 {
            return Err(Error::Grammar(Stage::Part));
        }
        match &nodes[0] {
            Node::Block(bs) => {
                let mut p: usize = 0;
                match Block::lexer(bs, &mut p, fuel - 1) {
                    Ok(b) => Ok(Part::Literal(b)),
                    Err(e) => Err(e),
                }
            },
            _ => Err(Error::Grammar(Stage::Part)),
        }
    }
}

impl Document {
    /// Parses source text: scans it into a node tree with `Grammar`, then
    /// lowers the tree with the `LOWER_FUEL` recursion budget.
    pub fn parse(input: &str) -> (r: Result<Document, Error>)
        ensures
            parse_result_matches(input@, r),
    {
        let nodes = match Grammar::tokenize(input) {
            Ok(v) => v,
            Err(e) => {
                return Err(e);
            },
        };
        Document::lexer(&nodes, LOWER_FUEL)
    }

    /// Document lowering on a top-level node sequence, exactly as
    /// `lower_document` says: every `Part` node in order, closed by the end
    /// marker.
    pub fn lexer(nodes: &Vec<Node>, fuel: u32) -> (r: Result<Document, Error>)
        ensures
            ({
                let res = lower_document(nodes_view(nodes@), fuel as nat);
                match r {
                    Ok(d) => res == Ok::<DocumentV, Stage>(d@),
                    Err(Error::Grammar(st)) => res == Err::<DocumentV, Stage>(st),
                    Err(_) => false,
                }
            }),
        decreases fuel, 6int,
    {
        if fuel == 0 {
            return Err(Error::Grammar(Stage::Document));
        }
        let ghost ns = nodes_view(nodes@);
        let ghost f = fuel as nat;
        let mut parts: Vec<Part> = Vec::new();
        let mut i: usize = 0;
        proof {
            assert(parts_view(parts@) =~= Seq::<PartV>::empty());
        }
        while i < nodes.len()
            invariant
                i <= nodes.len(),
                1 <= fuel,
                f == fuel as nat,
                ns == nodes_view(nodes@),
                ({
                    let whole = lower_document_from(ns, 0, f);
                    match lower_document_from(ns, i as int, f) {
                        Ok(d) => whole == Ok::<DocumentV, Stage>(
                            DocumentV { parts: parts_view(parts@) + d.parts, location: d.location },
                        ),
                        Err(st) => whole == Err::<DocumentV, Stage>(st),
                    }
                }),
            decreases nodes.len() - i,
        {
            match &nodes[i] {
                Node::Part(inner) => {
                    match Part::lexer(inner, fuel - 1) {
                        Ok(part) => {
                            let ghost old_parts = parts_view(parts@);
                            let ghost pv = part@;
                            parts.push(part);
                            proof {
                                assert(parts_view(parts@) =~= old_parts + seq![pv]);
                                if let Ok(d) = lower_document_from(ns, i as int + 1, f) {
                                    assert(old_parts + (seq![pv] + d.parts) =~= parts_view(parts@)
                                        + d.parts);
                                }
                            }
                        },
                        Err(e) => {
                            return Err(e);
                        },
                    }
                },
                Node::Eoi => {
                    let d = Document { parts, location: None };
                    proof {
                        assert(parts_view(d.parts@) + Seq::<PartV>::empty() =~= parts_view(
                            d.parts@,
                        ));
                    }
                    return Ok(d);
                },
                _ => {
                    return Err(Error::Grammar(Stage::Document));
                },
            }
            i = i + 1;
        }
        Err(Error::Grammar(Stage::Document))
    }
}

impl Item {
    /// Item dispatch on the children of an `Item` node, exactly as
    /// `lower_item` says.
    pub fn lexer(nodes: &Vec<Node>, fuel: u32) -> (r: Result<Item, Error>)
        ensures
            ({
                let res = lower_item(nodes_view(nodes@), fuel as nat);
                match r {
                    Ok(it) => res == Ok::<ItemV, Stage>(it@),
                    Err(Error::Grammar(st)) => res == Err::<ItemV, Stage>(st),
                    Err(_) => false,
                }
            }),
        decreases fuel, 4int,
    {
        if fuel == 0 {
            return Err(Error::Grammar(Stage::Item));
        }
        if nodes.len() == 0 {
            return Err(Error::Grammar(Stage::Item));
        }
        match &nodes[0] {
            Node::Variable(t) => Ok(Item::Variable(t.clone())),
            Node::Class(cs) => match Class::lexer(cs, fuel - 1) {
                Ok(c) => Ok(Item::Class(c)),
                Err(e) => Err(e),
            },
            Node::Function(fs) => match Function::lexer(fs, fuel - 1) {
                Ok(f) => Ok(Item::Function(f)),
                Err(e) => Err(e),
            },
            _ => Err(Error::Grammar(Stage::Item)),
        }
    }
}

impl Line {
    /// Line lowering from `*pos`: consumes indentation markers and line
    /// breaks until an item closes the line, exactly as `lower_line_from`
    /// says. The returned line reports its measured depth; the caller's
    /// block overwrites it with the canonical depth.
    pub fn lexer(nodes: &Vec<Node>, pos: &mut usize, fuel: u32) -> (r: Result<Line, Error>)
        requires
            *old(pos) <= nodes@.len(),
        ensures
            *final(pos) <= nodes@.len(),
            *old(pos) <= *final(pos),
            r is Ok ==> *old(pos) < *final(pos),
            ({
                let (res, j) = lower_line_from(nodes_view(nodes@), *old(pos) as int, 0, fuel as nat);
                *final(pos) as int == j && match r {
                    Ok(l) => res == Ok::<LineV, Stage>(l@),
                    Err(Error::Grammar(st)) => res == Err::<LineV, Stage>(st),
                    Err(_) => false,
                }
            }),
        decreases fuel, 3int,
    {
        if fuel == 0 {
            return Err(Error::Grammar(Stage::Line));
        }
        let ghost ns = nodes_view(nodes@);
        let ghost i0 = *pos as int;
        let mut acc: usize = 0;
        loop
            invariant
                *pos <= nodes@.len(),
                i0 == *old(pos) as int,
                *old(pos) <= *pos,
                acc <= *pos,
                1 <= fuel,
                ns == nodes_view(nodes@),
                lower_line_from(ns, i0, 0, fuel as nat) == lower_line_from(
                    ns,
                    *pos as int,
                    acc as nat,
                    fuel as nat,
                ),
            decreases nodes@.len() - *pos,
        {
            if *pos >= nodes.len() {
                return Err(Error::Grammar(Stage::Line));
            }
            match &nodes[*pos] {
                Node::Indent => {
                    *pos = *pos + 1;
                    acc = acc + 1;
                },
                Node::Newline => {
                    *pos = *pos + 1;
                },
                Node::Item(inner) => {
                    *pos = *pos + 1;
                    match Item::lexer(inner, fuel - 1) {
                        Ok(item) => {
                            return Ok(Line { indent: acc, item });
                        },
                        Err(e) => {
                            return Err(e);
                        },
                    }
                },
                _ => {
                    *pos = *pos + 1;
                    return Err(Error::Grammar(Stage::Line));
                },
            }
        }
    }
}

impl Block {
    /// Block lowering from `*pos`, exactly as `lower_block_from` says: the
    /// first line's measured depth latches the block's canonical depth,
    /// every line is reported at that depth, and the end marker (or the end
    /// of the stream, after at least one line) closes the block.
    pub fn lexer(nodes: &Vec<Node>, pos: &mut usize, fuel: u32) -> (r: Result<Block, Error>)
        requires
            *old(pos) <= nodes@.len(),
        ensures
            *final(pos) <= nodes@.len(),
            ({
                let (res, j) = lower_block_from(nodes_view(nodes@), *old(pos) as int, None, fuel as nat);
                *final(pos) as int == j && match r {
                    Ok(b) => match res {
                        Ok((lines, latch)) => b@ == (BlockV { indent: opt_depth(latch), lines }),
                        Err(_) => false,
                    },
                    Err(Error::Grammar(st)) => res == Err::<(Seq<LineV>, Option<nat>), Stage>(st),
                    Err(_) => false,
                }
            }),
        decreases fuel, 2int,
    {
        if fuel == 0 {
            return Err(Error::Grammar(Stage::Block));
        }
        let ghost ns = nodes_view(nodes@);
        let ghost i0 = *pos as int;
        let ghost f = fuel as nat;
        let mut latch: Option<usize> = None;
        let mut lines: Vec<Line> = Vec::new();
        proof {
            assert(lines_view(lines@) =~= Seq::<LineV>::empty());
        }
        loop
            invariant
                *pos <= nodes@.len(),
                i0 == *old(pos) as int,
                1 <= fuel,
                f == fuel as nat,
                ns == nodes_view(nodes@),
                latch is None <==> lines@.len() == 0,
                ({
                    let (whole, wj) = lower_block_from(ns, i0, None, f);
                    let (rest, rj) = lower_block_from(ns, *pos as int, opt_nat(latch), f);
                    wj == rj && match rest {
                        Ok((ls2, lo)) => whole == Ok::<(Seq<LineV>, Option<nat>), Stage>(
                            (lines_view(lines@) + ls2, lo),
                        ),
                        Err(st) => whole == Err::<(Seq<LineV>, Option<nat>), Stage>(st),
                    }
                }),
            decreases nodes@.len() - *pos,
        {
            if *pos >= nodes.len() {
                if lines.len() == 0 {
                    return Err(Error::Grammar(Stage::Block));
                }
                let d = match latch {
                    Some(x) => x,
                    None => 0,
                };
                let b = Block { indent: d, lines };
                proof {
                    assert(lines_view(b.lines@) + Seq::<LineV>::empty() =~= lines_view(b.lines@));
                }
                return Ok(b);
            }
            let at_end = match &nodes[*pos] {
                Node::Eoi => true,
                _ => false,
            };
            if at_end {
                let d = match latch {
                    Some(x) => x,
                    None => 0,
                };
                let b = Block { indent: d, lines };
                proof {
                    assert(lines_view(b.lines@) + Seq::<LineV>::empty() =~= lines_view(b.lines@));
                }
                return Ok(b);
            }
            let ghost p0 = *pos as int;
            let ghost latch0 = opt_nat(latch);
            let mut line = match Line::lexer(nodes, pos, fuel - 1) {
                Ok(l) => l,
                Err(e) => {
                    return Err(e);
                },
            };
            let ghost lv = line@;
            if new_block_indent(latch, line.indent) {
                latch = Some(line.indent);
            }
            let d = match latch {
                Some(x) => x,
                None => 0,
            };
            line.indent = d;
            let ghost old_lines = lines_view(lines@);
            lines.push(line);
            proof {
                assert(lines_view(lines@) =~= old_lines + seq![line@]);
                let (r2, rj2) = lower_block_from(ns, *pos as int, Some(d as nat), f);
                if let Ok((ls2, lo)) = r2 {
                    assert(old_lines + (seq![LineV { indent: d as nat, item: lv.item }] + ls2)
                        =~= lines_view(lines@) + ls2);
                }
            }
        }
    }

    /// Strict, dedent-sensitive block lowering from `*pos`, exactly as
    /// `lower_block_strict_from` says: the first line's measured depth
    /// latches the block's depth, and a later line measured at any other
    /// depth closes the block before itself, the cursor left at its start.
    /// This mode is opt-in; `lexer` is the faithful latch-once lowering.
    pub fn lexer_strict(nodes: &Vec<Node>, pos: &mut usize, fuel: u32) -> (r: Result<Block, Error>)
        requires
            *old(pos) <= nodes@.len(),
        ensures
            *final(pos) <= nodes@.len(),
            ({
                let (res, j) = lower_block_strict_from(
                    nodes_view(nodes@),
                    *old(pos) as int,
                    None,
                    fuel as nat,
                );
                *final(pos) as int == j && match r {
                    Ok(b) => match res {
                        Ok((lines, latch)) => b@ == (BlockV { indent: opt_depth(latch), lines }),
                        Err(_) => false,
                    },
                    Err(Error::Grammar(st)) => res == Err::<(Seq<LineV>, Option<nat>), Stage>(st),
                    Err(_) => false,
                }
            }),
        decreases fuel, 2int,
    {
        if fuel == 0 {
            return Err(Error::Grammar(Stage::Block));
        }
        let ghost ns = nodes_view(nodes@);
        let ghost i0 = *pos as int;
        let ghost f = fuel as nat;
        let mut latch: Option<usize> = None;
        let mut lines: Vec<Line> = Vec::new();
        proof {
            assert(lines_view(lines@) =~= Seq::<LineV>::empty());
        }
        loop
            invariant
                *pos <= nodes@.len(),
                i0 == *old(pos) as int,
                1 <= fuel,
                f == fuel as nat,
                ns == nodes_view(nodes@),
                latch is None <==> lines@.len() == 0,
                ({
                    let (whole, wj) = lower_block_strict_from(ns, i0, None, f);
                    let (rest, rj) = lower_block_strict_from(ns, *pos as int, opt_nat(latch), f);
                    wj == rj && match rest {
                        Ok((ls2, lo)) => whole == Ok::<(Seq<LineV>, Option<nat>), Stage>(
                            (lines_view(lines@) + ls2, lo),
                        ),
                        Err(st) => whole == Err::<(Seq<LineV>, Option<nat>), Stage>(st),
                    }
                }),
            decreases nodes@.len() - *pos,
        {
            if *pos >= nodes.len() {
                if lines.len() == 0 {
                    return Err(Error::Grammar(Stage::Block));
                }
                let d = match latch {
                    Some(x) => x,
                    None => 0,
                };
                let b = Block { indent: d, lines };
                proof {
                    assert(lines_view(b.lines@) + Seq::<LineV>::empty() =~= lines_view(b.lines@));
                }
                return Ok(b);
            }
            let at_end = match &nodes[*pos] {
                Node::Eoi => true,
                _ => false,
            };
            if at_end {
                let d = match latch {
                    Some(x) => x,
                    None => 0,
                };
                let b = Block { indent: d, lines };
                proof {
                    assert(lines_view(b.lines@) + Seq::<LineV>::empty() =~= lines_view(b.lines@));
                }
                return Ok(b);
            }
            let start = *pos;
            let mut line = match Line::lexer(nodes, pos, fuel - 1) {
                Ok(l) => l,
                Err(e) => {
                    return Err(e);
                },
            };
            let ghost lv = line@;
            if let Some(d) = latch {
                if line.indent != d {
                    // a depth change closes this block; the line belongs to
                    // whatever block a caller opens next
                    *pos = start;
                    let b = Block { indent: d, lines };
                    proof {
                        assert(lines_view(b.lines@) + Seq::<LineV>::empty() =~= lines_view(
                            b.lines@,
                        ));
                    }
                    return Ok(b);
                }
            }
            if new_block_indent(latch, line.indent) {
                latch = Some(line.indent);
            }
            let d = match latch {
                Some(x) => x,
                None => 0,
            };
            line.indent = d;
            let ghost old_lines = lines_view(lines@);
            lines.push(line);
            proof {
                assert(lines_view(lines@) =~= old_lines + seq![line@]);
                let (r2, rj2) = lower_block_strict_from(ns, *pos as int, Some(d as nat), f);
                if let Ok((ls2, lo)) = r2 {
                    assert(old_lines + (seq![LineV { indent: d as nat, item: lv.item }] + ls2)
                        =~= lines_view(lines@) + ls2);
                }
            }
        }
    }
}

} // verus!
