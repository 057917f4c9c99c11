use ocr_language::ast::Node;
use ocr_language::lexer::{SymbolKind, TokenKind};
use ocr_language::symbol_table::SymbolTable;
use ocr_language::text::{decimal_text, read_unsigned, same_text, strip_line_feed};
use ocr_language::{Op, Position, Value};

fn text(s: &str) -> Value {
    Value::String(s.to_string())
}

#[test]
fn a_value_as_text() {
    assert_eq!(Value::Number(0).to_string(), "0");
    assert_eq!(Value::Number(u64::MAX).to_string(), "18446744073709551615");
    assert_eq!(text("a \"b\"").to_string(), "a \"b\"");
    assert_eq!(Value::Boolean(true).to_string(), "true");
    assert_eq!(Value::Boolean(false).to_string(), "false");
    assert_eq!(Value::Array(Vec::new()).to_string(), "[]");
    assert_eq!(Value::Array(vec![Value::Number(1)]).to_string(), "[Number(1)]");
    assert_eq!(
        Value::Array(vec![
            Value::Number(10),
            text("a \"b\"\n"),
            Value::Boolean(false),
            Value::Array(vec![Value::Array(Vec::new()), Value::Number(2)]),
        ])
        .to_string(),
        "[Number(10), String(\"a \\\"b\\\"\\n\"), Boolean(false), Array([Array([]), Number(2)])]"
    );
}

#[test]
fn an_array_as_text_is_its_structure() {
    let values = vec![text("tab\there"), Value::Number(3), Value::Array(vec![Value::Boolean(true)])];
    assert_eq!(Value::Array(values.clone()).to_string(), format!("{:?}", values));
}

#[test]
fn a_copy_of_a_value_is_the_value() {
    let value = Value::Array(vec![Value::Number(1), text("x"), Value::Array(vec![Value::Boolean(true)])]);
    assert_eq!(value.clone(), value);
}

#[test]
fn a_copy_of_a_node_is_the_node() {
    let node = Node::Block(vec![
        Node::WhileStmt {
            expr: Box::new(Node::BinaryExpr {
                left: Box::new(Node::VariableRef("a".to_string())),
                operator: Op::Less,
                right: Box::new(Node::Primary(Value::Number(3))),
            }),
            body: Box::new(Node::Block(vec![Node::FuncCall {
                ident: "print".to_string(),
                args: vec![Node::ArrayRef {
                    ident: "a".to_string(),
                    index: Box::new(Node::DotExpr { left: "a".to_string(), right: "length".to_string() }),
                }],
            }])),
        },
        Node::IfExpr {
            expr: Box::new(Node::Primary(Value::Boolean(true))),
            then: Box::new(Node::ArrayAssign { ident: "b".to_string(), size: Box::new(Node::Primary(Value::Number(1))) }),
            els: Box::new(Node::ArrayAssingIndex {
                ident: "b".to_string(),
                index: Box::new(Node::Primary(Value::Number(0))),
                value: Box::new(Node::Assign {
                    ident: "c".to_string(),
                    value: Box::new(Node::Primary(Value::String("s".to_string()))),
                }),
            }),
        },
    ]);
    assert_eq!(node.clone(), node);
}

#[test]
fn a_position_as_text() {
    assert_eq!(Position::new(1, 0).to_string(), "(1, 0)");
    assert_eq!(Position::new(12, 345).to_string(), "(12, 345)");
    let position = Position::new(3, 4);
    assert_eq!(position.line, 3);
    assert_eq!(position.col, 4);
}

#[test]
fn every_operator_has_its_symbol() {
    let cases = [
        (SymbolKind::Plus, Op::Plus),
        (SymbolKind::Minus, Op::Minus),
        (SymbolKind::Multiply, Op::Multiply),
        (SymbolKind::Divide, Op::Divide),
        (SymbolKind::Mod, Op::Mod),
        (SymbolKind::Greater, Op::Greater),
        (SymbolKind::GreaterEquals, Op::GreaterEqual),
        (SymbolKind::Less, Op::Less),
        (SymbolKind::LessEquals, Op::LessEqual),
        (SymbolKind::DoubleEquals, Op::EqualTo),
    ];
    for (symbol, operator) in cases {
        assert_eq!(Op::from_symbol(symbol), Some(operator));
        assert_eq!(Op::from(TokenKind::Symbol(symbol)), operator);
    }
}

#[test]
fn other_symbols_are_no_operators() {
    let others = [
        SymbolKind::Equals,
        SymbolKind::PlusEqual,
        SymbolKind::MinusEqual,
        SymbolKind::LeftBracket,
        SymbolKind::RightBracket,
        SymbolKind::LeftSqBracket,
        SymbolKind::RightSqBracket,
        SymbolKind::Quote,
        SymbolKind::Dot,
    ];
    for symbol in others {
        assert_eq!(Op::from_symbol(symbol), None);
    }
}

#[test]
fn a_variable_holds_what_was_assigned_last() {
    let mut table = SymbolTable::new();
    assert_eq!(table.lookup("a"), None);
    table.assign_variable("a".to_string(), Value::Number(1));
    table.assign_variable("b".to_string(), text("x"));
    assert_eq!(table.get_variable("a".to_string()), Value::Number(1));
    table.assign_variable("a".to_string(), Value::Boolean(true));
    assert_eq!(table.get_variable("a".to_string()), Value::Boolean(true));
    assert_eq!(table.get_variable("b".to_string()), text("x"));
    assert_eq!(table.lookup("b"), Some(text("x")));
    assert_eq!(table.lookup("c"), None);
    assert_eq!(table.lookup(""), None);
}

#[test]
fn numbers_as_decimal_text() {
    assert_eq!(decimal_text(0), "0");
    assert_eq!(decimal_text(9), "9");
    assert_eq!(decimal_text(10), "10");
    assert_eq!(decimal_text(1203), "1203");
    assert_eq!(decimal_text(u64::MAX), u64::MAX.to_string());
}

#[test]
fn text_read_as_a_number() {
    for (text, number) in [("0", 0), ("007", 7), ("+12", 12), ("+0", 0), ("18446744073709551615", u64::MAX)] {
        assert_eq!(read_unsigned(text), Some(number), "{:?}", text);
        assert_eq!(text.parse::<u64>().ok(), Some(number), "{:?}", text);
    }
    for refused in ["", "+", "-1", "1 ", " 1", "1.5", "12a", "++1", "18446744073709551616", "99999999999999999999999", "\u{661}"] {
        assert_eq!(read_unsigned(refused), None, "{:?}", refused);
        assert_eq!(refused.parse::<u64>().ok(), None, "{:?}", refused);
    }
}

#[test]
fn text_compared_and_shortened() {
    assert!(same_text("print", "print"));
    assert!(!same_text("print", "prin"));
    assert!(!same_text("print", "input"));
    assert!(same_text("", ""));
    assert_eq!(strip_line_feed("abc\n"), "abc");
    assert_eq!(strip_line_feed("abc\n\n"), "abc\n");
    assert_eq!(strip_line_feed("abc\r\n"), "abc\r");
    assert_eq!(strip_line_feed("abc"), "abc");
    assert_eq!(strip_line_feed("\n"), "");
    assert_eq!(strip_line_feed(""), "");
}

#[test]
fn a_string_entry_wraps_the_quoted_text() {
    let mut out: Vec<char> = vec!['['];
    Value::push_string_entry(&mut out, "\"a\"");
    let shown: String = out.into_iter().collect();
    assert_eq!(shown, "[String(\"a\")");
}
