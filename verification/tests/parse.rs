use pyskel::ast::{Block, Class, Document, Function, Item, Line, Part, Variables};
use pyskel::error::{Error, Stage};
use pyskel::parse;

#[test]
fn it_works() {
    let expected = Document {
        parts: vec![Part::Literal(Block {
            lines: vec![Line {
                indent: 1,
                item: Item::Variable("abcd".to_string()),
            }],
            indent: 1,
        })],
        location: None,
    };

    let output = parse("  abcd\n").unwrap();

    assert_eq!(expected, output);
}

#[test]
fn multiline() {
    let expected = Document {
        parts: vec![Part::Literal(Block {
            lines: vec![
                Line {
                    indent: 1,
                    item: Item::Variable("abcd".to_string()),
                },
                Line {
                    indent: 1,
                    item: Item::Variable("bcdfe".to_string()),
                },
            ],
            indent: 1,
        })],
        location: None,
    };

    let output = parse("  abcd\n  bcdfe\n").unwrap();

    assert_eq!(expected, output);
}

#[test]
fn class_1() {
    let input = "\nclass Test:\n  test\n  t123  \n";

    let expected = Document {
        parts: vec![Part::Literal(Block {
            indent: 0,
            lines: vec![Line {
                indent: 0,
                item: Item::Class(Class {
                    name: "Test".to_string(),
                    block: Block {
                        indent: 1,
                        lines: vec![
                            Line {
                                indent: 1,
                                item: Item::Variable("test".to_string()),
                            },
                            Line {
                                indent: 1,
                                item: Item::Variable("t123".to_string()),
                            },
                        ],
                    },
                }),
            }],
        })],
        location: None,
    };

    let output = parse(input).unwrap();

    assert_eq!(expected, output);
}

#[test]
fn function_1() {
    let input = "\ndef test(a, b):\n  a\n";

    let expected = Document {
        parts: vec![Part::Literal(Block {
            indent: 0,
            lines: vec![Line {
                indent: 0,
                item: Item::Function(Function {
                    name: "test".to_string(),
                    block: Block {
                        indent: 1,
                        lines: vec![Line {
                            indent: 1,
                            item: Item::Variable("a".to_string()),
                        }],
                    },
                    input_variables: Variables {
                        variables: vec!["a".to_string(), "b".to_string()],
                    },
                }),
            }],
        })],
        location: None,
    };

    let output = parse(input).unwrap();

    assert_eq!(expected, output);
}

#[test]
fn deep_indent_single_line() {
    let output = parse("      xyz\n").unwrap();
    let expected = Document {
        parts: vec![Part::Literal(Block {
            indent: 3,
            lines: vec![Line {
                indent: 3,
                item: Item::Variable("xyz".to_string()),
            }],
        })],
        location: None,
    };
    assert_eq!(expected, output);
}

#[test]
fn latch_keeps_first_depth() {
    // the second line measures depth 2, but the block latched depth 1 on
    // its first line and reports both lines at 1
    let output = parse("  a\n    b\n").unwrap();
    let expected = Document {
        parts: vec![Part::Literal(Block {
            indent: 1,
            lines: vec![
                Line {
                    indent: 1,
                    item: Item::Variable("a".to_string()),
                },
                Line {
                    indent: 1,
                    item: Item::Variable("b".to_string()),
                },
            ],
        })],
        location: None,
    };
    assert_eq!(expected, output);
}

#[test]
fn nested_body_depth_is_independent() {
    // the class sits at depth 1; its one-line body measures depth 3 and
    // the body block canonicalizes to 3, not to anything of the outer block
    let output = parse("  class A:\n      x\n").unwrap();
    let expected = Document {
        parts: vec![Part::Literal(Block {
            indent: 1,
            lines: vec![Line {
                indent: 1,
                item: Item::Class(Class {
                    name: "A".to_string(),
                    block: Block {
                        indent: 3,
                        lines: vec![Line {
                            indent: 3,
                            item: Item::Variable("x".to_string()),
                        }],
                    },
                }),
            }],
        })],
        location: None,
    };
    assert_eq!(expected, output);
}

#[test]
fn parameters_keep_order_and_duplicates() {
    let output = parse("def f(a, b, a):\n  x\n").unwrap();
    let fun = match &output.parts[0] {
        Part::Literal(b) => match &b.lines[0].item {
            Item::Function(f) => f,
            other => panic!("expected a function, got {:?}", other),
        },
        other => panic!("expected a literal part, got {:?}", other),
    };
    assert_eq!(
        fun.input_variables.variables,
        vec!["a".to_string(), "b".to_string(), "a".to_string()]
    );
}

#[test]
fn empty_parameter_list() {
    let output = parse("def f():\n  x\n").unwrap();
    let fun = match &output.parts[0] {
        Part::Literal(b) => match &b.lines[0].item {
            Item::Function(f) => f,
            other => panic!("expected a function, got {:?}", other),
        },
        other => panic!("expected a literal part, got {:?}", other),
    };
    assert_eq!(fun.name, "f".to_string());
    assert!(fun.input_variables.variables.is_empty());
}

#[test]
fn empty_input_is_empty_document() {
    let output = parse("").unwrap();
    assert_eq!(
        output,
        Document {
            parts: vec![],
            location: None,
        }
    );
}

#[test]
fn missing_final_line_break_is_rejected() {
    match parse("abc") {
        Err(Error::Tokenize(p)) => assert_eq!(p, 3),
        other => panic!("expected a tokenize failure, got {:?}", other),
    }
}

#[test]
fn unreadable_line_is_rejected_at_its_start() {
    match parse("ok\n  %bad\n") {
        Err(Error::Tokenize(p)) => assert_eq!(p, 3),
        other => panic!("expected a tokenize failure, got {:?}", other),
    }
}

#[test]
fn odd_indentation_is_rejected() {
    match parse(" abc\n") {
        Err(Error::Tokenize(p)) => assert_eq!(p, 0),
        other => panic!("expected a tokenize failure, got {:?}", other),
    }
}

#[test]
fn header_without_body_fails_at_block_stage() {
    match parse("class A:\n") {
        Err(Error::Grammar(st)) => assert_eq!(st, Stage::Block),
        other => panic!("expected a grammar mismatch, got {:?}", other),
    }
}
