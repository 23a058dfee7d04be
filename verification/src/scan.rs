//! The scanner: source text to tagged node tree.
//!
//! The source language is a structural skeleton: each line is an optional
//! run of indentation markers (two spaces each) followed by a bare name, a
//! class header (`class Name:`) or a function header
//! (`def name(a, b):`), then optional trailing spaces and a line break; a
//! line of nothing but spaces is blank. The body of a class or function
//! header is the maximal run of immediately following non-blank lines
//! whose measured indentation exceeds the header's; the shape of the node
//! tree records those bodies as nested `Block` nodes.
//!
//! Scanning is specified first as mathematical functions over the char
//! sequence (`scan_text` at the top), and the executable scanner is proved
//! to return exactly what they say.

use vstd::prelude::*;

use crate::error::{Error, Stage};
use crate::node::{Node, NodeV, node_view, nodes_view};

verus! {

/// The nesting-depth budget the scanner grants nested class and function
/// bodies; deeper nesting is reported as a grammar-class failure instead
/// of exhausting the stack.
pub const SCAN_FUEL: u32 = 2048;

/// The grammar engine of the skeleton language.
pub struct Grammar;

/// Whether `c` may stand in a name: an ASCII letter, digit or underscore.
pub open spec fn is_name_char(c: char) -> bool {
    ('a' <= c && c <= 'z') || ('A' <= c && c <= 'Z') || ('0' <= c && c <= '9') || c == '_'
}

/// The first position at or after `i` holding a line break, or the
/// text's length when none follows.
pub open spec fn find_nl(s: Seq<char>, i: int) -> int
    decreases s.len() - i,
{
    if i < 0 || i >= s.len() {
        s.len() as int
    } else if s[i] == '\n' {
        i
    } else {
        find_nl(s, i + 1)
    }
}

/// The position after the run of indentation markers (pairs of spaces)
/// that starts at `i` and stays before `e`.
pub open spec fn indent_end(s: Seq<char>, i: int, e: int) -> int
    decreases e - i,
{
    if 0 <= i && i + 2 <= e && e <= s.len() && s[i] == ' ' && s[i + 1] == ' ' {
        indent_end(s, i + 2, e)
    } else {
        i
    }
}

/// The position after the run of name chars that starts at `i` and stays
/// before `e`.
pub open spec fn name_end(s: Seq<char>, i: int, e: int) -> int
    decreases e - i,
{
    if 0 <= i && i < e && e <= s.len() && is_name_char(s[i]) {
        name_end(s, i + 1, e)
    } else {
        i
    }
}

/// The position after the run of spaces that starts at `i` and stays
/// before `e`.
pub open spec fn spaces_end(s: Seq<char>, i: int, e: int) -> int
    decreases e - i,
{
    if 0 <= i && i < e && e <= s.len() && s[i] == ' ' {
        spaces_end(s, i + 1, e)
    } else {
        i
    }
}

/// The position before the run of spaces that ends at `e` and stays at or
/// after `i`: the content end of the line `[i, e)`.
pub open spec fn rtrim(s: Seq<char>, i: int, e: int) -> int
    decreases e - i,
{
    if 0 <= i && i < e && e <= s.len() && s[e - 1] == ' ' {
        rtrim(s, i, e - 1)
    } else {
        e
    }
}

/// One source line after classification: its measured indentation (count
/// of two-space markers) and what its content is.
#[derive(Debug, PartialEq)]
pub struct RawLine {
    pub indent: usize,
    pub body: LineBody,
}

/// The content of one source line.
#[derive(Debug, PartialEq)]
pub enum LineBody {
    /// Nothing but spaces.
    Blank,
    /// A bare name.
    Variable(String),
    /// `class <name>:`.
    ClassHead(String),
    /// `def <name>(<parameters>):`.
    FunHead(String, Vec<String>),
}

/// The view of a line's content.
pub ghost enum LineBodyV {
    Blank,
    Variable(Seq<char>),
    ClassHead(Seq<char>),
    FunHead(Seq<char>, Seq<Seq<char>>),
}

/// The view of a classified line.
pub ghost struct RawLineV {
    pub indent: nat,
    pub body: LineBodyV,
}

/// The view of a line's content.
pub open spec fn line_body_view(b: LineBody) -> LineBodyV {
    match b {
        LineBody::Blank => LineBodyV::Blank,
        LineBody::Variable(t) => LineBodyV::Variable(t@),
        LineBody::ClassHead(t) => LineBodyV::ClassHead(t@),
        LineBody::FunHead(t, ps) => LineBodyV::FunHead(t@, ps.deep_view()),
    }
}

/// The view of a classified line.
pub open spec fn raw_line_view(rl: RawLine) -> RawLineV {
    RawLineV { indent: rl.indent as nat, body: line_body_view(rl.body) }
}

/// The views of a sequence of classified lines, element by element.
pub open spec fn raw_lines_view(ls: Seq<RawLine>) -> Seq<RawLineV> {
    Seq::new(
        ls.len(),
        |i: int|
            if 0 <= i < ls.len() {
                raw_line_view(ls[i])
            } else {
                RawLineV { indent: 0, body: LineBodyV::Blank }
            },
    )
}

impl View for RawLine {
    type V = RawLineV;

    open spec fn view(&self) -> RawLineV {
        raw_line_view(*self)
    }
}

/// A parameter list read from position `i` (standing at a name), up to
/// and including the closing parenthesis: the names in order, and the
/// position after the parenthesis. `None` when the text there is not a
/// comma-separated name list.
pub open spec fn params_list(s: Seq<char>, i: int, ce: int) -> Option<(Seq<Seq<char>>, int)>
    decreases ce - i,
{
    let ne = name_end(s, i, ce);
    if ne == i || ne >= ce {
        None
    } else if s[ne] == ')' {
        Some((seq![s.subrange(i, ne)], ne + 1))
    } else if s[ne] == ',' {
        let sp0 = spaces_end(s, ne + 1, ce);
        // the spaces run begins after the name and stays within the line;
        // the guard makes that plain to the termination check
        let sp = if i + 1 <= sp0 && sp0 <= ce {
            sp0
        } else {
            i + 1
        };
        match params_list(s, sp, ce) {
            Some((rest, k)) => Some((seq![s.subrange(i, ne)] + rest, k)),
            None => None,
        }
    } else {
        None
    }
}

/// A parameter list read from position `i`, right after the opening
/// parenthesis: either the closing parenthesis at once (no parameters) or
/// a name list.
pub open spec fn params_open(s: Seq<char>, i: int, ce: int) -> Option<(Seq<Seq<char>>, int)> {
    if 0 <= i && i < ce && ce <= s.len() && s[i] == ')' {
        Some((Seq::empty(), i + 1))
    } else {
        params_list(s, i, ce)
    }
}

/// The classification of the line `[b, e)`: its measured indentation and
/// its content, or `None` when the scanner cannot read it. Content is
/// what stands between the indentation markers and the trailing spaces: a
/// class header, a function header, a bare name, or nothing.
pub open spec fn classify_line(s: Seq<char>, b: int, e: int) -> Option<RawLineV> {
    let ie = indent_end(s, b, e);
    let n = ((ie - b) / 2) as nat;
    let ce = rtrim(s, ie, e);
    if ce == ie {
        Some(RawLineV { indent: n, body: LineBodyV::Blank })
    } else if ce - ie >= 6 && s[ie] == 'c' && s[ie + 1] == 'l' && s[ie + 2] == 'a' && s[ie + 3]
        == 's' && s[ie + 4] == 's' && s[ie + 5] == ' ' {
        let nb = ie + 6;
        let ne = name_end(s, nb, ce);
        if ne > nb && ne + 1 == ce && s[ne] == ':' {
            Some(RawLineV { indent: n, body: LineBodyV::ClassHead(s.subrange(nb, ne)) })
        } else {
            None
        }
    } else if ce - ie >= 4 && s[ie] == 'd' && s[ie + 1] == 'e' && s[ie + 2] == 'f' && s[ie + 3]
        == ' ' {
        let nb = ie + 4;
        let ne = name_end(s, nb, ce);
        if ne == nb || ne >= ce || s[ne] != '(' {
            None
        } else {
            match params_open(s, ne + 1, ce) {
                Some((ps, k)) => if k < ce && s[k] == ':' && k + 1 == ce {
                    Some(
                        RawLineV {
                            indent: n,
                            body: LineBodyV::FunHead(s.subrange(nb, ne), ps),
                        },
                    )
                } else {
                    None
                },
                None => None,
            }
        }
    } else {
        let ne = name_end(s, ie, ce);
        if ne == ce && ne > ie {
            Some(RawLineV { indent: n, body: LineBodyV::Variable(s.subrange(ie, ne)) })
        } else {
            None
        }
    }
}

/// The lines of the text from position `b` on, classified one by one.
/// Each line must end in a line break: content at the end of the text
/// without one fails at the text's length. A line the classifier cannot
/// read fails at the line's start.
pub open spec fn scan_lines(s: Seq<char>, b: int) -> Result<Seq<RawLineV>, int>
    decreases s.len() - b,
{
    if b < 0 || b >= s.len() {
        Ok(Seq::empty())
    } else {
        let e0 = find_nl(s, b);
        // the line break search stays at or after `b` and within the text;
        // the guard makes that plain to the termination check
        let e = if b <= e0 && e0 <= s.len() {
            e0
        } else {
            b
        };
        if e >= s.len() {
            Err(s.len() as int)
        } else {
            match classify_line(s, b, e) {
                None => Err(b),
                Some(rl) => match scan_lines(s, e + 1) {
                    Ok(rest) => Ok(seq![rl] + rest),
                    Err(p) => Err(p),
                },
            }
        }
    }
}

/// The end of the body of a header line of measured depth `d`: the first
/// position in `[j, hi)` holding a blank line or one measured at `d` or
/// shallower, or `hi`.
pub open spec fn body_end(ls: Seq<RawLineV>, j: int, hi: int, d: nat) -> int
    decreases hi - j,
{
    if j < 0 || j >= hi || hi > ls.len() {
        j
    } else if ls[j].body is Blank || ls[j].indent <= d {
        j
    } else {
        body_end(ls, j + 1, hi, d)
    }
}

/// `n` indentation-marker nodes.
pub open spec fn indents(n: nat) -> Seq<NodeV> {
    Seq::new(n, |i: int| NodeV::Indent)
}

/// One `Variable` node for each name.
pub open spec fn var_nodes(ts: Seq<Seq<char>>) -> Seq<NodeV> {
    Seq::new(ts.len(), |i: int| NodeV::Variable(ts[i]))
}

/// The flat node stream of the block formed by the lines `[lo, hi)`. A
/// blank line is one `Newline` node; any other line is its indentation
/// markers, one `Item` node, and a `Newline` node. A header line's item
/// holds its body — the run of following deeper non-blank lines up to
/// `body_end` — as a nested `Block` node, built with one unit less fuel;
/// `None` when the nesting outruns the fuel.
pub open spec fn build_lines(ls: Seq<RawLineV>, lo: int, hi: int, fuel: nat) -> Option<Seq<NodeV>>
    decreases fuel, hi - lo,
{
    if lo < 0 || lo >= hi || hi > ls.len() {
        Some(Seq::empty())
    } else if fuel == 0 {
        None
    } else {
        let rl = ls[lo];
        match rl.body {
            LineBodyV::Blank => match build_lines(ls, lo + 1, hi, fuel) {
                Some(rest) => Some(seq![NodeV::Newline] + rest),
                None => None,
            },
            LineBodyV::Variable(nm) => match build_lines(ls, lo + 1, hi, fuel) {
                Some(rest) => Some(
                    indents(rl.indent) + seq![NodeV::Item(seq![NodeV::Variable(nm)])] + rest,
                ),
                None => None,
            },
            LineBodyV::ClassHead(nm) => {
                let be0 = body_end(ls, lo + 1, hi, rl.indent);
                // the body stays within `(lo, hi]`; the guard makes that
                // plain to the termination check
                let be = if lo + 1 <= be0 && be0 <= hi {
                    be0
                } else {
                    lo + 1
                };
                match build_lines(ls, lo + 1, be, (fuel - 1) as nat) {
                    None => None,
                    Some(body) => match build_lines(ls, be, hi, fuel) {
                        None => None,
                        Some(rest) => Some(
                            indents(rl.indent) + seq![
                                NodeV::Item(
                                    seq![
                                        NodeV::Class(
                                            seq![NodeV::Classname(nm), NodeV::Block(body)],
                                        ),
                                    ],
                                ),
                            ] + rest,
                        ),
                    },
                }
            },
            LineBodyV::FunHead(nm, ps) => {
                let be0 = body_end(ls, lo + 1, hi, rl.indent);
                let be = if lo + 1 <= be0 && be0 <= hi {
                    be0
                } else {
                    lo + 1
                };
                match build_lines(ls, lo + 1, be, (fuel - 1) as nat) {
                    None => None,
                    Some(body) => match build_lines(ls, be, hi, fuel) {
                        None => None,
                        Some(rest) => Some(
                            indents(rl.indent) + seq![
                                NodeV::Item(
                                    seq![
                                        NodeV::Function(
                                            seq![
                                                NodeV::Functionname(nm),
                                                NodeV::Arguments(var_nodes(ps)),
                                                NodeV::Block(body),
                                            ],
                                        ),
                                    ],
                                ),
                            ] + rest,
                        ),
                    },
                }
            },
        }
    }
}

/// What scanning a whole text yields.
pub ghost enum ScanOut {
    /// The scanner rejected the text; the char offset of the line it could
    /// not read, or the text's length for a missing final line break.
    Bad(int),
    /// Nesting outran the scanner's depth budget.
    TooDeep,
    /// The top-level node stream: one `Part` node holding the text's block
    /// (absent when the text has no lines), closed by the end marker.
    Nodes(Seq<NodeV>),
}

/// The node tree of a whole text.
pub open spec fn scan_text(s: Seq<char>) -> ScanOut {
    match scan_lines(s, 0) {
        Err(p) => ScanOut::Bad(p),
        Ok(ls) => if ls.len() == 0 {
            ScanOut::Nodes(seq![NodeV::Eoi])
        } else {
            match build_lines(ls, 0, ls.len() as int, SCAN_FUEL as nat) {
                None => ScanOut::TooDeep,
                Some(ns) => ScanOut::Nodes(
                    seq![NodeV::Part(seq![NodeV::Block(ns)]), NodeV::Eoi],
                ),
            }
        },
    }
}

/// The chars of a text, one by one.
fn to_chars(s: &str) -> (r: Vec<char>)
    ensures
        r@ == s@,
{
    let n = s.unicode_len();
    let mut cs: Vec<char> = Vec::new();
    let mut i: usize = 0;
    while i < n
        invariant
            i <= n,
            n == s@.len(),
            cs@ == s@.take(i as int),
        decreases n - i,
    {
        let c = s.get_char(i);
        cs.push(c);
        i = i + 1;
        proof {
            assert(cs@ =~= s@.take(i as int));
        }
    }
    proof {
        assert(s@.take(n as int) =~= s@);
    }
    cs
}

/// The first line break at or after `i`.
fn find_nl_at(cs: &Vec<char>, i: usize) -> (r: usize)
    requires
        i <= cs@.len(),
    ensures
        r as int == find_nl(cs@, i as int),
        i <= r <= cs@.len(),
{
    let mut j = i;
    while j < cs.len()
        invariant
            i <= j <= cs@.len(),
            find_nl(cs@, i as int) == find_nl(cs@, j as int),
        decreases cs@.len() - j,
    {
        if cs[j] == '\n' {
            return j;
        }
        j = j + 1;
    }
    j
}

/// The end of the run of indentation markers starting at `i`.
fn indent_end_at(cs: &Vec<char>, i: usize, e: usize) -> (r: usize)
    requires
        i <= e <= cs@.len(),
    ensures
        r as int == indent_end(cs@, i as int, e as int),
        i <= r <= e,
{
    let mut j = i;
    loop
        invariant
            i <= j <= e <= cs@.len(),
            indent_end(cs@, i as int, e as int) == indent_end(cs@, j as int, e as int),
        decreases e - j,
    {
        if e - j >= 2 {
            if cs[j] == ' ' && cs[j + 1] == ' ' {
                j = j + 2;
            } else {
                return j;
            }
        } else {
            return j;
        }
    }
}

/// The end of the run of name chars starting at `i`.
fn name_end_at(cs: &Vec<char>, i: usize, e: usize) -> (r: usize)
    requires
        i <= e <= cs@.len(),
    ensures
        r as int == name_end(cs@, i as int, e as int),
        i <= r <= e,
{
    let mut j = i;
    while j < e
        invariant
            i <= j <= e <= cs@.len(),
            name_end(cs@, i as int, e as int) == name_end(cs@, j as int, e as int),
        decreases e - j,
    {
        let c = cs[j];
        let ok = ('a' <= c && c <= 'z') || ('A' <= c && c <= 'Z') || ('0' <= c && c <= '9') || c
            == '_';
        if !ok {
            return j;
        }
        j = j + 1;
    }
    j
}

/// The end of the run of spaces starting at `i`.
fn spaces_end_at(cs: &Vec<char>, i: usize, e: usize) -> (r: usize)
    requires
        i <= e <= cs@.len(),
    ensures
        r as int == spaces_end(cs@, i as int, e as int),
        i <= r <= e,
{
    let mut j = i;
    while j < e
        invariant
            i <= j <= e <= cs@.len(),
            spaces_end(cs@, i as int, e as int) == spaces_end(cs@, j as int, e as int),
        decreases e - j,
    {
        if cs[j] != ' ' {
            return j;
        }
        j = j + 1;
    }
    j
}

/// The content end of the line `[i, e)`: `e` without its trailing spaces.
fn rtrim_at(cs: &Vec<char>, i: usize, e: usize) -> (r: usize)
    requires
        i <= e <= cs@.len(),
    ensures
        r as int == rtrim(cs@, i as int, e as int),
        i <= r <= e,
{
    let mut j = e;
    while j > i
        invariant
            i <= j <= e <= cs@.len(),
            rtrim(cs@, i as int, e as int) == rtrim(cs@, i as int, j as int),
        decreases j,
    {
        if cs[j - 1] != ' ' {
            return j;
        }
        j = j - 1;
    }
    j
}

/// Reads a parameter list standing right after its opening parenthesis,
/// exactly as `params_open` says.
fn parse_params(s: &str, cs: &Vec<char>, i: usize, ce: usize) -> (r: Option<(Vec<String>, usize)>)
    requires
        cs@ == s@,
        i <= ce <= cs@.len(),
    ensures
        ({
            let sr = params_open(s@, i as int, ce as int);
            match r {
                Some((ps, k)) => sr == Some((ps.deep_view(), k as int)) && k <= ce,
                None => sr is None,
            }
        }),
{
    if i < ce && cs[i] == ')' {
        let out: Vec<String> = Vec::new();
        proof {
            assert(out.deep_view() =~= Seq::<Seq<char>>::empty());
        }
        return Some((out, i + 1));
    }
    let mut names: Vec<String> = Vec::new();
    let mut j = i;
    proof {
        assert(names.deep_view() =~= Seq::<Seq<char>>::empty());
    }
    loop
        invariant
            cs@ == s@,
            i <= j <= ce <= cs@.len(),
            params_open(s@, i as int, ce as int) == params_list(s@, i as int, ce as int),
            ({
                match params_list(s@, j as int, ce as int) {
                    Some((rest, k)) => params_list(s@, i as int, ce as int) == Some(
                        (names.deep_view() + rest, k),
                    ),
                    None => params_list(s@, i as int, ce as int) is None,
                }
            }),
        decreases ce - j,
    {
        let ne = name_end_at(cs, j, ce);
        if ne == j || ne >= ce {
            return None;
        }
        if cs[ne] == ')' {
            let nm = s.substring_char(j, ne).to_owned();
            let ghost old_names = names.deep_view();
            names.push(nm);
            proof {
                assert(names.deep_view() =~= old_names + seq![s@.subrange(j as int, ne as int)]);
                assert(old_names + (seq![s@.subrange(j as int, ne as int)]) =~= names.deep_view());
            }
            return Some((names, ne + 1));
        }
        if cs[ne] == ',' {
            let nm = s.substring_char(j, ne).to_owned();
            let ghost old_names = names.deep_view();
            names.push(nm);
            let sp = spaces_end_at(cs, ne + 1, ce);
            proof {
                assert(names.deep_view() =~= old_names + seq![s@.subrange(j as int, ne as int)]);
                if let Some((rest, k)) = params_list(s@, sp as int, ce as int) {
                    assert(old_names + (seq![s@.subrange(j as int, ne as int)] + rest)
                        =~= names.deep_view() + rest);
                }
            }
            j = sp;
        } else {
            return None;
        }
    }
}

/// Classifies the line `[b, e)`, exactly as `classify_line` says.
fn classify(s: &str, cs: &Vec<char>, b: usize, e: usize) -> (r: Option<RawLine>)
    requires
        cs@ == s@,
        b <= e <= cs@.len(),
    ensures
        ({
            let sr = classify_line(s@, b as int, e as int);
            match r {
                Some(rl) => sr == Some(raw_line_view(rl)),
                None => sr is None,
            }
        }),
{
    let ie = indent_end_at(cs, b, e);
    let n = (ie - b) / 2;
    let ce = rtrim_at(cs, ie, e);
    if ce == ie {
        return Some(RawLine { indent: n, body: LineBody::Blank });
    }
    if ce - ie >= 6 && cs[ie] == 'c' && cs[ie + 1] == 'l' && cs[ie + 2] == 'a' && cs[ie + 3] == 's'
        && cs[ie + 4] == 's' && cs[ie + 5] == ' ' {
        let nb = ie + 6;
        let ne = name_end_at(cs, nb, ce);
        if ne > nb && ne < ce && ce - ne == 1 && cs[ne] == ':' {
            let nm = s.substring_char(nb, ne).to_owned();
            return Some(RawLine { indent: n, body: LineBody::ClassHead(nm) });
        }
        return None;
    }
    if ce - ie >= 4 && cs[ie] == 'd' && cs[ie + 1] == 'e' && cs[ie + 2] == 'f' && cs[ie + 3] == ' '
        {
        let nb = ie + 4;
        let ne = name_end_at(cs, nb, ce);
        if ne == nb || ne >= ce {
            return None;
        }
        if cs[ne] != '(' {
            return None;
        }
        let nm = s.substring_char(nb, ne).to_owned();
        match parse_params(s, cs, ne + 1, ce) {
            Some((ps, k)) => {
                if k < ce && cs[k] == ':' && k + 1 == ce {
                    return Some(RawLine { indent: n, body: LineBody::FunHead(nm, ps) });
                }
                return None;
            },
            None => {
                return None;
            },
        }
    }
    let ne = name_end_at(cs, ie, ce);
    if ne == ce && ne > ie {
        let nm = s.substring_char(ie, ne).to_owned();
        return Some(RawLine { indent: n, body: LineBody::Variable(nm) });
    }
    None
}

/// Scans and classifies every line of the text, exactly as `scan_lines`
/// says.
fn scan_all(s: &str, cs: &Vec<char>) -> (r: Result<Vec<RawLine>, Error>)
    requires
        cs@ == s@,
    ensures
        ({
            match scan_lines(s@, 0) {
                Ok(ls) => match r {
                    Ok(v) => raw_lines_view(v@) == ls,
                    Err(_) => false,
                },
                Err(p) => match r {
                    Err(Error::Tokenize(q)) => q as int == p,
                    _ => false,
                },
            }
        }),
{
    let mut out: Vec<RawLine> = Vec::new();
    let mut b: usize = 0;
    proof {
        assert(raw_lines_view(out@) =~= Seq::<RawLineV>::empty());
    }
    while b < cs.len()
        invariant
            b <= cs@.len(),
            cs@ == s@,
            ({
                match scan_lines(s@, b as int) {
                    Ok(rest) => scan_lines(s@, 0) == Ok::<Seq<RawLineV>, int>(
                        raw_lines_view(out@) + rest,
                    ),
                    Err(p) => scan_lines(s@, 0) == Err::<Seq<RawLineV>, int>(p),
                }
            }),
        decreases cs@.len() - b,
    {
        let e = find_nl_at(cs, b);
        if e >= cs.len() {
            return Err(Error::Tokenize(cs.len()));
        }
        match classify(s, cs, b, e) {
            None => {
                return Err(Error::Tokenize(b));
            },
            Some(rl) => {
                let ghost old_out = raw_lines_view(out@);
                let ghost rlv = rl@;
                out.push(rl);
                proof {
                    assert(raw_lines_view(out@) =~= old_out + seq![rlv]);
                    if let Ok(rest) = scan_lines(s@, e as int + 1) {
                        assert(old_out + (seq![rlv] + rest) =~= raw_lines_view(out@) + rest);
                    }
                }
                b = e + 1;
            },
        }
    }
    proof {
        assert(raw_lines_view(out@) + Seq::<RawLineV>::empty() =~= raw_lines_view(out@));
    }
    Ok(out)
}

/// The end of a header's body among the classified lines, exactly as
/// `body_end` says.
fn body_end_at(ls: &Vec<RawLine>, j: usize, hi: usize, d: usize) -> (r: usize)
    requires
        j <= hi <= ls@.len(),
    ensures
        r as int == body_end(raw_lines_view(ls@), j as int, hi as int, d as nat),
        j <= r <= hi,
{
    let ghost lsv = raw_lines_view(ls@);
    let mut k = j;
    while k < hi
        invariant
            j <= k <= hi <= ls@.len(),
            lsv == raw_lines_view(ls@),
            body_end(lsv, j as int, hi as int, d as nat) == body_end(
                lsv,
                k as int,
                hi as int,
                d as nat,
            ),
        decreases hi - k,
    {
        let rl = &ls[k];
        let blank = match &rl.body {
            LineBody::Blank => true,
            _ => false,
        };
        if blank || rl.indent <= d {
            return k;
        }
        k = k + 1;
    }
    k
}

/// Appends `n` indentation-marker nodes.
fn push_indents(out: &mut Vec<Node>, n: usize)
    ensures
        nodes_view(final(out)@) == nodes_view(old(out)@) + indents(n as nat),
{
    let mut k: usize = 0;
    while k < n
        invariant
            k <= n,
            nodes_view(out@) == nodes_view(old(out)@) + indents(k as nat),
        decreases n - k,
    {
        let ghost before = nodes_view(out@);
        out.push(Node::Indent);
        k = k + 1;
        proof {
            assert(nodes_view(out@) =~= before + seq![NodeV::Indent]);
            assert(before + seq![NodeV::Indent] =~= nodes_view(old(out)@) + indents(k as nat));
        }
    }
}

/// Builds the flat node stream of the block formed by the lines
/// `[lo, hi)`, exactly as `build_lines` says; nesting past the fuel is a
/// grammar-class failure at the block stage.
fn build(ls: &Vec<RawLine>, lo: usize, hi: usize, fuel: u32) -> (r: Result<Vec<Node>, Error>)
    requires
        lo <= hi <= ls@.len(),
    ensures
        ({
            match build_lines(raw_lines_view(ls@), lo as int, hi as int, fuel as nat) {
                Some(ns) => match r {
                    Ok(v) => nodes_view(v@) == ns,
                    Err(_) => false,
                },
                None => match r {
                    Err(Error::Grammar(st)) => st == Stage::Block,
                    _ => false,
                },
            }
        }),
    decreases fuel,
{
    let ghost lsv = raw_lines_view(ls@);
    if lo >= hi {
        let out: Vec<Node> = Vec::new();
        proof {
            assert(nodes_view(out@) =~= Seq::<NodeV>::empty());
        }
        return Ok(out);
    }
    if fuel == 0 {
        return Err(Error::Grammar(Stage::Block));
    }
    let mut out: Vec<Node> = Vec::new();
    let mut i = lo;
    proof {
        assert(nodes_view(out@) =~= Seq::<NodeV>::empty());
    }
    while i < hi
        invariant
            lo <= i <= hi <= ls@.len(),
            1 <= fuel,
            lsv == raw_lines_view(ls@),
            ({
                match build_lines(lsv, i as int, hi as int, fuel as nat) {
                    Some(rest) => build_lines(lsv, lo as int, hi as int, fuel as nat) == Some(
                        nodes_view(out@) + rest,
                    ),
                    None => build_lines(lsv, lo as int, hi as int, fuel as nat) is None,
                }
            }),
        decreases hi - i,
    {
        let ghost before = nodes_view(out@);
        let rl_indent = ls[i].indent;
        match &ls[i].body {
            LineBody::Blank => {
                out.push(Node::Newline);
                proof {
                    assert(nodes_view(out@) =~= before + seq![NodeV::Newline]);
                    if let Some(rest) = build_lines(lsv, i as int + 1, hi as int, fuel as nat) {
                        assert(before + (seq![NodeV::Newline] + rest) =~= nodes_view(out@) + rest);
                    }
                }
                i = i + 1;
            },
            LineBody::Variable(nm) => {
                push_indents(&mut out, rl_indent);
                let ghost mid = nodes_view(out@);
                let mut kids: Vec<Node> = Vec::new();
                kids.push(Node::Variable(nm.clone()));
                proof {
                    assert(nodes_view(kids@) =~= seq![NodeV::Variable(nm@)]);
                }
                out.push(Node::Item(kids));
                proof {
                    let item_v = NodeV::Item(seq![NodeV::Variable(nm@)]);
                    let emitted = indents(rl_indent as nat) + seq![item_v];
                    assert(nodes_view(out@) =~= mid + seq![item_v]);
                    assert(mid + seq![item_v] =~= before + emitted);
                    assert(nodes_view(out@) =~= before + emitted);
                    if let Some(rest) = build_lines(lsv, i as int + 1, hi as int, fuel as nat) {
                        assert(before + (emitted + rest) =~= nodes_view(out@) + rest);
                    }
                }
                i = i + 1;
            },
            LineBody::ClassHead(nm) => {
                let be = body_end_at(ls, i + 1, hi, rl_indent);
                let body = match build(ls, i + 1, be, fuel - 1) {
                    Ok(v) => v,
                    Err(e) => {
                        return Err(e);
                    },
                };
                let mut class_kids: Vec<Node> = Vec::new();
                class_kids.push(Node::Classname(nm.clone()));
                let ghost body_ns = nodes_view(body@);
                class_kids.push(Node::Block(body));
                proof {
                    assert(nodes_view(class_kids@) =~= seq![
                        NodeV::Classname(nm@),
                        NodeV::Block(body_ns),
                    ]);
                }
                let mut kids: Vec<Node> = Vec::new();
                kids.push(Node::Class(class_kids));
                proof {
                    assert(nodes_view(kids@) =~= seq![
                        NodeV::Class(seq![NodeV::Classname(nm@), NodeV::Block(body_ns)]),
                    ]);
                }
                push_indents(&mut out, rl_indent);
                let ghost mid = nodes_view(out@);
                out.push(Node::Item(kids));
                proof {
                    let item_v = NodeV::Item(
                        seq![NodeV::Class(seq![NodeV::Classname(nm@), NodeV::Block(body_ns)])],
                    );
                    let emitted = indents(rl_indent as nat) + seq![item_v];
                    assert(nodes_view(out@) =~= mid + seq![item_v]);
                    assert(mid + seq![item_v] =~= before + emitted);
                    assert(nodes_view(out@) =~= before + emitted);
                    if let Some(rest) = build_lines(lsv, be as int, hi as int, fuel as nat) {
                        assert(before + (emitted + rest) =~= nodes_view(out@) + rest);
                    }
                }
                i = be;
            },
            LineBody::FunHead(nm, ps) => {
                let be = body_end_at(ls, i + 1, hi, rl_indent);
                let body = match build(ls, i + 1, be, fuel - 1) {
                    Ok(v) => v,
                    Err(e) => {
                        return Err(e);
                    },
                };
                let mut args: Vec<Node> = Vec::new();
                let mut a: usize = 0;
                proof {
                    assert(nodes_view(args@) =~= var_nodes(ps.deep_view()).take(0));
                }
                while a < ps.len()
                    invariant
                        a <= ps@.len(),
                        nodes_view(args@) == var_nodes(ps.deep_view()).take(a as int),
                    decreases ps@.len() - a,
                {
                    let ghost args_before = nodes_view(args@);
                    args.push(Node::Variable(ps[a].clone()));
                    a = a + 1;
                    proof {
                        assert(nodes_view(args@) =~= args_before + seq![
                            NodeV::Variable(ps@[a as int - 1]@),
                        ]);
                        assert(nodes_view(args@) =~= var_nodes(ps.deep_view()).take(a as int));
                    }
                }
                proof {
                    assert(var_nodes(ps.deep_view()).take(ps@.len() as int) =~= var_nodes(
                        ps.deep_view(),
                    ));
                }
                let mut fun_kids: Vec<Node> = Vec::new();
                fun_kids.push(Node::Functionname(nm.clone()));
                fun_kids.push(Node::Arguments(args));
                let ghost body_ns = nodes_view(body@);
                fun_kids.push(Node::Block(body));
                proof {
                    assert(nodes_view(fun_kids@) =~= seq![
                        NodeV::Functionname(nm@),
                        NodeV::Arguments(var_nodes(ps.deep_view())),
                        NodeV::Block(body_ns),
                    ]);
                }
                let mut kids: Vec<Node> = Vec::new();
                kids.push(Node::Function(fun_kids));
                proof {
                    assert(nodes_view(kids@) =~= seq![
                        NodeV::Function(
                            seq![
                                NodeV::Functionname(nm@),
                                NodeV::Arguments(var_nodes(ps.deep_view())),
                                NodeV::Block(body_ns),
                            ],
                        ),
                    ]);
                }
                push_indents(&mut out, rl_indent);
                let ghost mid = nodes_view(out@);
                out.push(Node::Item(kids));
                proof {
                    let item_v = NodeV::Item(
                        seq![
                            NodeV::Function(
                                seq![
                                    NodeV::Functionname(nm@),
                                    NodeV::Arguments(var_nodes(ps.deep_view())),
                                    NodeV::Block(body_ns),
                                ],
                            ),
                        ],
                    );
                    let emitted = indents(rl_indent as nat) + seq![item_v];
                    assert(nodes_view(out@) =~= mid + seq![item_v]);
                    assert(mid + seq![item_v] =~= before + emitted);
                    assert(nodes_view(out@) =~= before + emitted);
                    if let Some(rest) = build_lines(lsv, be as int, hi as int, fuel as nat) {
                        assert(before + (emitted + rest) =~= nodes_view(out@) + rest);
                    }
                }
                i = be;
            },
        }
    }
    proof {
        assert(nodes_view(out@) + Seq::<NodeV>::empty() =~= nodes_view(out@));
    }
    Ok(out)
}

impl Grammar {
    /// Scans a whole text into its top-level node stream, exactly as
    /// `scan_text` says.
    pub fn tokenize(input: &str) -> (r: Result<Vec<Node>, Error>)
        ensures
            ({
                match scan_text(input@) {
                    ScanOut::Bad(p) => match r {
                        Err(Error::Tokenize(q)) => q as int == p,
                        _ => false,
                    },
                    ScanOut::TooDeep => match r {
                        Err(Error::Grammar(st)) => st == Stage::Block,
                        _ => false,
                    },
                    ScanOut::Nodes(ns) => match r {
                        Ok(v) => nodes_view(v@) == ns,
                        _ => false,
                    },
                }
            }),
    {
        let cs = to_chars(input);
        let ls = match scan_all(input, &cs) {
            Ok(v) => v,
            Err(e) => {
                return Err(e);
            },
        };
        if ls.len() == 0 {
            let mut out: Vec<Node> = Vec::new();
            out.push(Node::Eoi);
            proof {
                assert(nodes_view(out@) =~= seq![NodeV::Eoi]);
            }
            return Ok(out);
        }
        let inner = match build(&ls, 0, ls.len(), SCAN_FUEL) {
            Ok(v) => v,
            Err(e) => {
                return Err(e);
            },
        };
        let mut part_kids: Vec<Node> = Vec::new();
        let ghost inner_ns = nodes_view(inner@);
        part_kids.push(Node::Block(inner));
        proof {
            assert(nodes_view(part_kids@) =~= seq![NodeV::Block(inner_ns)]);
        }
        let mut out: Vec<Node> = Vec::new();
        out.push(Node::Part(part_kids));
        out.push(Node::Eoi);
        proof {
            assert(nodes_view(out@) =~= seq![
                NodeV::Part(seq![NodeV::Block(inner_ns)]),
                NodeV::Eoi,
            ]);
        }
        Ok(out)
    }
}

} // verus!
