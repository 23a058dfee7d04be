use pyskel::ast::{Block, Class, Document, Function, Item, Line, Part, Variables};
use pyskel::error::{Error, Stage};
use pyskel::lower::{new_block_indent, LOWER_FUEL};
use pyskel::node::Node;
use pyskel::scan::Grammar;

#[test]
fn empty_block_value() {
    let b = Block::empty();
    assert_eq!(b.indent, 0);
    assert!(b.lines.is_empty());
}

#[test]
fn latch_only_sets_once() {
    assert!(new_block_indent(None, 0));
    assert!(new_block_indent(None, 7));
    assert!(!new_block_indent(Some(7), 7));
    assert!(!new_block_indent(Some(7), 3));
}

#[test]
fn end_marker_with_no_lines_is_empty_block() {
    let nodes = vec![Node::Eoi];
    let mut pos = 0;
    let b = Block::lexer(&nodes, &mut pos, LOWER_FUEL).unwrap();
    assert_eq!(b, Block::empty());
    assert_eq!(pos, 0);
}

#[test]
fn exhausted_stream_with_no_lines_fails_at_block_stage() {
    let nodes: Vec<Node> = vec![];
    let mut pos = 0;
    match Block::lexer(&nodes, &mut pos, LOWER_FUEL) {
        Err(Error::Grammar(st)) => assert_eq!(st, Stage::Block),
        other => panic!("expected a grammar mismatch, got {:?}", other),
    }
}

#[test]
fn block_latches_first_measured_depth() {
    // two lines measured at depth 2 and depth 5: both report 2
    let nodes = vec![
        Node::Indent,
        Node::Indent,
        Node::Item(vec![Node::Variable("a".to_string())]),
        Node::Indent,
        Node::Indent,
        Node::Indent,
        Node::Indent,
        Node::Indent,
        Node::Item(vec![Node::Variable("b".to_string())]),
    ];
    let mut pos = 0;
    let b = Block::lexer(&nodes, &mut pos, LOWER_FUEL).unwrap();
    assert_eq!(b.indent, 2);
    assert_eq!(b.lines.len(), 2);
    assert_eq!(b.lines[0].indent, 2);
    assert_eq!(b.lines[1].indent, 2);
    assert_eq!(pos, 9);
}

#[test]
fn strict_mode_closes_block_on_depth_change() {
    // measured depths 2 then 1: the latch-once lexer relabels the second
    // line, the strict lexer closes the block before it
    let nodes = vec![
        Node::Indent,
        Node::Indent,
        Node::Item(vec![Node::Variable("a".to_string())]),
        Node::Indent,
        Node::Item(vec![Node::Variable("b".to_string())]),
    ];

    let mut pos = 0;
    let b = Block::lexer(&nodes, &mut pos, LOWER_FUEL).unwrap();
    assert_eq!(b.lines.len(), 2);
    assert_eq!(b.lines[1].indent, 2);

    let mut pos = 0;
    let b = Block::lexer_strict(&nodes, &mut pos, LOWER_FUEL).unwrap();
    assert_eq!(b.indent, 2);
    assert_eq!(b.lines.len(), 1);
    assert_eq!(b.lines[0].item, Item::Variable("a".to_string()));
    assert_eq!(pos, 3);

    let tail = vec![
        Node::Indent,
        Node::Item(vec![Node::Variable("b".to_string())]),
    ];
    let mut tail_pos = 0;
    let rest = Block::lexer_strict(&tail, &mut tail_pos, LOWER_FUEL).unwrap();
    assert_eq!(rest.indent, 1);
    assert_eq!(rest.lines.len(), 1);
    assert_eq!(rest.lines[0].item, Item::Variable("b".to_string()));
}

#[test]
fn line_reports_measured_depth() {
    let nodes = vec![
        Node::Newline,
        Node::Indent,
        Node::Item(vec![Node::Variable("x".to_string())]),
    ];
    let mut pos = 0;
    let l = Line::lexer(&nodes, &mut pos, LOWER_FUEL).unwrap();
    assert_eq!(l.indent, 1);
    assert_eq!(l.item, Item::Variable("x".to_string()));
    assert_eq!(pos, 3);
}

#[test]
fn item_dispatch_rejects_foreign_tag() {
    let nodes = vec![Node::Newline];
    match Item::lexer(&nodes, LOWER_FUEL) {
        Err(Error::Grammar(st)) => assert_eq!(st, Stage::Item),
        other => panic!("expected a grammar mismatch, got {:?}", other),
    }
}

#[test]
fn variables_keep_order_and_duplicates() {
    let nodes = vec![
        Node::Variable("a".to_string()),
        Node::Variable("b".to_string()),
        Node::Variable("a".to_string()),
    ];
    let vs = Variables::lexer(&nodes).unwrap();
    assert_eq!(
        vs.variables,
        vec!["a".to_string(), "b".to_string(), "a".to_string()]
    );
}

#[test]
fn variables_reject_foreign_tag() {
    let nodes = vec![Node::Variable("a".to_string()), Node::Newline];
    match Variables::lexer(&nodes) {
        Err(Error::Grammar(st)) => assert_eq!(st, Stage::Arguments),
        other => panic!("expected a grammar mismatch, got {:?}", other),
    }
}

#[test]
fn variables_new_is_empty() {
    assert!(Variables::new().variables.is_empty());
}

#[test]
fn stray_newline_without_item_fails_at_line_stage() {
    let nodes = vec![Node::Newline];
    let mut pos = 0;
    match Block::lexer(&nodes, &mut pos, LOWER_FUEL) {
        Err(Error::Grammar(st)) => assert_eq!(st, Stage::Line),
        other => panic!("expected a grammar mismatch, got {:?}", other),
    }
}

#[test]
fn blank_only_input_fails_at_line_stage() {
    match pyskel::parse("\n") {
        Err(Error::Grammar(st)) => assert_eq!(st, Stage::Line),
        other => panic!("expected a grammar mismatch, got {:?}", other),
    }
}

#[test]
fn document_needs_end_marker() {
    let nodes: Vec<Node> = vec![];
    match Document::lexer(&nodes, LOWER_FUEL) {
        Err(Error::Grammar(st)) => assert_eq!(st, Stage::Document),
        other => panic!("expected a grammar mismatch, got {:?}", other),
    }
}

#[test]
fn document_of_one_part() {
    let nodes = vec![
        Node::Part(vec![Node::Block(vec![Node::Item(vec![Node::Variable(
            "v".to_string(),
        )])])]),
        Node::Eoi,
    ];
    let d = Document::lexer(&nodes, LOWER_FUEL).unwrap();
    assert_eq!(d.parts.len(), 1);
    match &d.parts[0] {
        Part::Literal(b) => {
            assert_eq!(b.indent, 0);
            assert_eq!(b.lines[0].item, Item::Variable("v".to_string()));
        }
        other => panic!("expected a literal part, got {:?}", other),
    }
    assert_eq!(d.location, None);
}

#[test]
fn part_needs_a_block() {
    let nodes: Vec<Node> = vec![Node::Newline];
    match Part::lexer(&nodes, LOWER_FUEL) {
        Err(Error::Grammar(st)) => assert_eq!(st, Stage::Part),
        other => panic!("expected a grammar mismatch, got {:?}", other),
    }
}

#[test]
fn class_needs_a_block() {
    let nodes = vec![Node::Classname("A".to_string())];
    match Class::lexer(&nodes, LOWER_FUEL) {
        Err(Error::Grammar(st)) => assert_eq!(st, Stage::Class),
        other => panic!("expected a grammar mismatch, got {:?}", other),
    }
}

#[test]
fn class_lexer_builds_name_and_body() {
    let nodes = vec![
        Node::Classname("A".to_string()),
        Node::Newline,
        Node::Block(vec![
            Node::Indent,
            Node::Item(vec![Node::Variable("x".to_string())]),
        ]),
    ];
    let c = Class::lexer(&nodes, LOWER_FUEL).unwrap();
    assert_eq!(c.name, "A".to_string());
    assert_eq!(c.block.indent, 1);
    assert_eq!(c.block.lines.len(), 1);
}

#[test]
fn function_needs_a_block() {
    let nodes = vec![Node::Functionname("f".to_string())];
    match Function::lexer(&nodes, LOWER_FUEL) {
        Err(Error::Grammar(st)) => assert_eq!(st, Stage::Function),
        other => panic!("expected a grammar mismatch, got {:?}", other),
    }
}

#[test]
fn function_lexer_takes_arguments_and_body() {
    let nodes = vec![
        Node::Functionname("f".to_string()),
        Node::Arguments(vec![Node::Variable("p".to_string())]),
        Node::Block(vec![Node::Item(vec![Node::Variable("x".to_string())])]),
    ];
    let f = Function::lexer(&nodes, LOWER_FUEL).unwrap();
    assert_eq!(f.name, "f".to_string());
    assert_eq!(f.input_variables.variables, vec!["p".to_string()]);
    assert_eq!(f.block.indent, 0);
}

#[test]
fn tokenize_one_name() {
    let nodes = Grammar::tokenize("x\n").unwrap();
    let expected = vec![
        Node::Part(vec![Node::Block(vec![Node::Item(vec![Node::Variable(
            "x".to_string(),
        )])])]),
        Node::Eoi,
    ];
    assert_eq!(nodes, expected);
}

#[test]
fn tokenize_blank_line_is_newline_node() {
    let nodes = Grammar::tokenize("\nx\n").unwrap();
    let expected = vec![
        Node::Part(vec![Node::Block(vec![
            Node::Newline,
            Node::Item(vec![Node::Variable("x".to_string())]),
        ])]),
        Node::Eoi,
    ];
    assert_eq!(nodes, expected);
}
