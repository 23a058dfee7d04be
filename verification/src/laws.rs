//! Laws that span the scanner and the lowering stage.

use vstd::prelude::*;

use crate::ast::{BlockV, DocumentV, ItemV, LineV, PartV, document_view};
use crate::ast::Document;
use crate::error::{Error, Stage};
use crate::node::NodeV;
use crate::lower::{
    LOWER_FUEL, lower_block, lower_class, lower_class_from, lower_document, lower_item,
    lower_line_from, parse_result_matches,
};
use crate::scan::{
    SCAN_FUEL, ScanOut, build_lines, classify_line, find_nl, indent_end, is_name_char, name_end,
    scan_lines, scan_text, indents, LineBodyV, RawLineV, rtrim,
};

verus! {

/// A search for a line break runs to the first one.
proof fn lemma_find_nl_at(s: Seq<char>, i: int, e: int)
    requires
        0 <= i <= e < s.len(),
        forall|k: int| i <= k < e ==> s[k] != '\n',
        s[e] == '\n',
    ensures
        find_nl(s, i) == e,
    decreases e - i,
{
    if i < e {
        lemma_find_nl_at(s, i + 1, e);
    }
}

/// A run of `m` space pairs followed by a non-space ends the indentation
/// exactly after the pairs.
proof fn lemma_indent_end_all(s: Seq<char>, i: int, e: int, m: nat)
    requires
        0 <= i,
        i + 2 * m < e <= s.len(),
        forall|k: int| i <= k < i + 2 * m ==> s[k] == ' ',
        s[i + 2 * m] != ' ',
    ensures
        indent_end(s, i, e) == i + 2 * m,
    decreases m,
{
    if m > 0 {
        lemma_indent_end_all(s, i + 2, e, (m - 1) as nat);
    }
}

/// A run of name chars reaching `e` ends the name exactly at `e`.
proof fn lemma_name_end_all(s: Seq<char>, i: int, e: int)
    requires
        0 <= i <= e <= s.len(),
        forall|k: int| i <= k < e ==> is_name_char(s[k]),
    ensures
        name_end(s, i, e) == e,
    decreases e - i,
{
    if i < e {
        lemma_name_end_all(s, i + 1, e);
    }
}

/// A run of indentation-marker nodes before an item node lowers to a line
/// measured at the run's length, holding the item's lowering.
proof fn lemma_line_from_indents(ns: Seq<NodeV>, i: int, acc: nat, m: nat, inner: Seq<NodeV>, fuel: nat)
    requires
        0 <= i,
        i + m < ns.len(),
        forall|k: int| i <= k < i + m ==> ns[k] == NodeV::Indent,
        ns[i + m] == NodeV::Item(inner),
        fuel >= 1,
    ensures
        lower_line_from(ns, i, acc, fuel) == (match lower_item(inner, (fuel - 1) as nat) {
            Ok(it) => (Ok::<LineV, Stage>(LineV { indent: acc + m, item: it }), i + m + 1),
            Err(st) => (Err::<LineV, Stage>(st), i + m + 1),
        }),
    decreases m,
{
    if m > 0 {
        lemma_line_from_indents(ns, i + 1, acc + 1, (m - 1) as nat, inner, fuel);
    }
}

/// Class lowering hands its own block node, and nothing else, to block
/// lowering: when the children up to the first `Block` node are names and
/// line breaks, the class's body is that block's lowering, value for
/// value, failure for failure.
proof fn lemma_class_from_block(
    cs: Seq<NodeV>,
    i: int,
    nm: Seq<char>,
    bi: int,
    bs: Seq<NodeV>,
    fuel: nat,
)
    requires
        0 <= i <= bi < cs.len(),
        cs[bi] == NodeV::Block(bs),
        forall|k: int| i <= k < bi ==> cs[k] is Classname || cs[k] is Newline,
        fuel >= 1,
    ensures
        ({
            let bres = lower_block(bs, (fuel - 1) as nat);
            match lower_class_from(cs, i, nm, fuel) {
                Ok(c) => bres == Ok::<BlockV, Stage>(c.block),
                Err(st) => bres == Err::<BlockV, Stage>(st),
            }
        }),
    decreases bi - i,
{
    if i < bi {
        match cs[i] {
            NodeV::Classname(t) => {
                lemma_class_from_block(cs, i + 1, t, bi, bs, fuel);
            },
            _ => {
                lemma_class_from_block(cs, i + 1, nm, bi, bs, fuel);
            },
        }
    }
}

/// Nested bodies canonicalize independently: a class's body is the
/// lowering of the class's own block node alone — no depth of any
/// enclosing block enters it — and, when that body has lines, its depth
/// is the depth its own first line measured.
pub proof fn lemma_nested_body_independent(cs: Seq<NodeV>, bi: int, bs: Seq<NodeV>, fuel: nat)
    requires
        0 <= bi < cs.len(),
        cs[bi] == NodeV::Block(bs),
        forall|k: int| 0 <= k < bi ==> cs[k] is Classname || cs[k] is Newline,
        fuel >= 1,
    ensures
        ({
            let bres = lower_block(bs, (fuel - 1) as nat);
            match lower_class(cs, fuel) {
                Ok(c) => bres == Ok::<BlockV, Stage>(c.block) && (c.block.lines.len() == 0 || ({
                    let (first, j) = lower_line_from(bs, 0, 0, (fuel - 2) as nat);
                    match first {
                        Ok(lv) => c.block.indent == lv.indent,
                        Err(_) => false,
                    }
                })),
                Err(st) => bres == Err::<BlockV, Stage>(st),
            }
        }),
{
    lemma_class_from_block(cs, 0, Seq::empty(), bi, bs, fuel);
    crate::lower::lemma_latch_once(bs, (fuel - 1) as nat);
}

/// For every depth `n` and nonempty name: a single line of `n`
/// indentation markers, the bare name and a line break parses to a
/// document of one literal part whose block has depth `n` and exactly one
/// line of depth `n` holding the name as a variable.
pub proof fn lemma_single_line(s: Seq<char>, name: Seq<char>, n: nat)
    requires
        s.len() == 2 * n + name.len() + 1,
        forall|k: int| 0 <= k < 2 * n ==> s[k] == ' ',
        s.subrange(2 * n as int, s.len() - 1) == name,
        s[s.len() - 1] == '\n',
        name.len() > 0,
        forall|k: int| 0 <= k < name.len() ==> is_name_char(#[trigger] name[k]),
    ensures
        ({
            let expected = DocumentV {
                parts: seq![
                    PartV::Literal(
                        BlockV {
                            indent: n,
                            lines: seq![LineV { indent: n, item: ItemV::Variable(name) }],
                        },
                    ),
                ],
                location: None,
            };
            &&& match scan_text(s) {
                ScanOut::Nodes(ns) => lower_document(ns, LOWER_FUEL as nat) == Ok::<
                    DocumentV,
                    Stage,
                >(expected),
                _ => false,
            }
            &&& forall|r: Result<Document, Error>|
                parse_result_matches(s, r) ==> match r {
                    Ok(d) => document_view(d) == expected,
                    _ => false,
                }
        }),
{
    let tn = 2 * n as int;
    let ll = s.len() - 1;
    let ln = name.len() as int;

    assert forall|k: int| tn <= k < ll implies s[k] == name[k - tn] by {
        assert(s.subrange(tn, ll)[k - tn] == s[k]);
    };
    assert(!is_name_char(' '));
    assert(!is_name_char('\n'));
    assert forall|k: int| 0 <= k < ll implies s[k] != '\n' by {
        if k >= tn {
            assert(is_name_char(s[k]));
        }
    };
    lemma_find_nl_at(s, 0, ll);

    // classification of the one line
    assert(is_name_char(s[tn]));
    lemma_indent_end_all(s, 0, ll, n);
    assert(indent_end(s, 0, ll) == tn);
    assert((tn - 0) / 2 == n);
    assert(is_name_char(s[ll - 1]));
    assert(rtrim(s, tn, ll) == ll);
    lemma_name_end_all(s, tn, ll);
    let rl = RawLineV { indent: n, body: LineBodyV::Variable(name) };
    if ln >= 6 {
        assert(is_name_char(s[tn + 5]));
    }
    if ln >= 4 {
        assert(is_name_char(s[tn + 3]));
    }
    assert(s.subrange(tn, ll) == name);
    assert(classify_line(s, 0, ll) == Some(rl));

    // the line list
    assert(seq![rl] + Seq::<RawLineV>::empty() =~= seq![rl]);
    assert(scan_lines(s, ll + 1) == Ok::<Seq<RawLineV>, int>(Seq::empty()));
    assert(scan_lines(s, 0) == Ok::<Seq<RawLineV>, int>(seq![rl]));

    // the node stream of the one block
    let ls = seq![rl];
    let item_node = NodeV::Item(seq![NodeV::Variable(name)]);
    let stream = indents(n) + seq![item_node];
    assert(build_lines(ls, 1, 1, SCAN_FUEL as nat) == Some(Seq::<NodeV>::empty()));
    assert(indents(n) + seq![item_node] + Seq::<NodeV>::empty() =~= stream);
    assert(build_lines(ls, 0, 1, SCAN_FUEL as nat) == Some(stream));

    let top = seq![NodeV::Part(seq![NodeV::Block(stream)]), NodeV::Eoi];
    assert(scan_text(s) == ScanOut::Nodes(top));

    // lowering the stream
    let f0 = LOWER_FUEL as nat;
    let bf = (f0 - 2) as nat;
    assert(stream.len() == n + 1);
    assert forall|k: int| 0 <= k < n implies stream[k] == NodeV::Indent by {
        assert(stream[k] == indents(n)[k]);
    };
    assert(stream[n as int] == item_node);
    assert(!(stream[0] is Eoi));
    lemma_line_from_indents(stream, 0, 0, n, seq![NodeV::Variable(name)], (bf - 1) as nat);
    assert(lower_item(seq![NodeV::Variable(name)], (bf - 2) as nat) == Ok::<ItemV, Stage>(
        ItemV::Variable(name),
    ));
    let lv = LineV { indent: n, item: ItemV::Variable(name) };
    assert(lower_line_from(stream, 0, 0, (bf - 1) as nat) == (Ok::<LineV, Stage>(lv), n + 1 as int));
    assert(crate::lower::lower_block_from(stream, n + 1 as int, Some(n), bf) == (Ok::<
        (Seq<LineV>, Option<nat>),
        Stage,
    >((Seq::empty(), Some(n))), n + 1 as int));
    assert(seq![lv] + Seq::<LineV>::empty() =~= seq![lv]);
    assert(crate::lower::lower_block_from(stream, 0, None, bf) == (Ok::<
        (Seq<LineV>, Option<nat>),
        Stage,
    >((seq![lv], Some(n))), n + 1 as int));
    let bv = BlockV { indent: n, lines: seq![lv] };
    assert(lower_block(stream, bf) == Ok::<BlockV, Stage>(bv));
    assert(crate::lower::lower_part(seq![NodeV::Block(stream)], (f0 - 1) as nat) == Ok::<
        PartV,
        Stage,
    >(PartV::Literal(bv)));
    assert(crate::lower::lower_document_from(top, 1, f0) == Ok::<DocumentV, Stage>(
        DocumentV { parts: Seq::empty(), location: None },
    ));
    let pv = PartV::Literal(bv);
    assert(seq![pv] + Seq::<PartV>::empty() =~= seq![pv]);
    assert(lower_document(top, f0) == Ok::<DocumentV, Stage>(
        DocumentV { parts: seq![pv], location: None },
    ));
}

} // verus!
