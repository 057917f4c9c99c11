use ocr_language::ast::Node;
use ocr_language::lexer::{KeywordKind, SymbolKind, TokenKind};
use ocr_language::parser::Parser;
use ocr_language::{Op, Value};

#[test]
fn primary_assign() {
    let input = vec![
        TokenKind::Ident("num".to_string()),
        TokenKind::Symbol(SymbolKind::Equals),
        TokenKind::Number(10),
    ];

    assert_eq!(
        Parser::parse_from_list(input).unwrap(),
        Node::Block(vec![Node::Assign {
            ident: "num".to_string(),
            value: Box::new(Node::Primary(Value::Number(10)))
        }])
    );
}

#[test]
fn binary_assign() {
    let input = vec![
        TokenKind::Ident("num".to_string()),
        TokenKind::Symbol(SymbolKind::Equals),
        TokenKind::Number(10),
        TokenKind::Symbol(SymbolKind::Plus),
        TokenKind::Number(5),
    ];

    assert_eq!(
        Parser::parse_from_list(input).unwrap(),
        Node::Block(vec![Node::Assign {
            ident: "num".to_string(),
            value: Box::new(Node::BinaryExpr {
                left: Box::new(Node::Primary(Value::Number(10))),
                operator: Op::Plus,
                right: Box::new(Node::Primary(Value::Number(5)))
            })
        }])
    );
}

#[test]
fn nested_binary_assign() {
    let input = vec![
        TokenKind::Ident("num".to_string()),
        TokenKind::Symbol(SymbolKind::Equals),
        TokenKind::Number(10),
        TokenKind::Symbol(SymbolKind::Plus),
        TokenKind::Number(5),
        TokenKind::Symbol(SymbolKind::Multiply),
        TokenKind::Number(2),
    ];

    assert_eq!(
        Parser::parse_from_list(input).unwrap(),
        Node::Block(vec![Node::Assign {
            ident: "num".to_string(),
            value: Box::new(Node::BinaryExpr {
                left: Box::new(Node::Primary(Value::Number(10))),
                operator: Op::Plus,
                right: Box::new(Node::BinaryExpr {
                    left: Box::new(Node::Primary(Value::Number(5))),
                    operator: Op::Multiply,
                    right: Box::new(Node::Primary(Value::Number(2)))
                })
            })
        }])
    );
}

#[test]
fn nested_binary_assign_with_parens() {
    let input = vec![
        TokenKind::Ident("num".to_string()),
        TokenKind::Symbol(SymbolKind::Equals),
        TokenKind::Symbol(SymbolKind::LeftBracket),
        TokenKind::Number(10),
        TokenKind::Symbol(SymbolKind::Plus),
        TokenKind::Number(5),
        TokenKind::Symbol(SymbolKind::RightBracket),
        TokenKind::Symbol(SymbolKind::Multiply),
        TokenKind::Number(2),
    ];

    assert_eq!(
        Parser::parse_from_list(input).unwrap(),
        Node::Block(vec![Node::Assign {
            ident: "num".to_string(),
            value: Box::new(Node::BinaryExpr {
                left: Box::new(Node::BinaryExpr {
                    left: Box::new(Node::Primary(Value::Number(10))),
                    operator: Op::Plus,
                    right: Box::new(Node::Primary(Value::Number(5)))
                }),
                operator: Op::Multiply,
                right: Box::new(Node::Primary(Value::Number(2)))
            })
        }])
    );
}

#[test]
fn string_assign() {
    let input = vec![
        TokenKind::Ident("str".to_string()),
        TokenKind::Symbol(SymbolKind::Equals),
        TokenKind::String("hello world".to_string()),
    ];

    assert_eq!(
        Parser::parse_from_list(input).unwrap(),
        Node::Block(vec![Node::Assign {
            ident: "str".to_string(),
            value: Box::new(Node::Primary(Value::String("hello world".to_string())))
        }])
    );
}

#[test]
fn function_call() {
    let input = vec![
        TokenKind::Ident("print".to_string()),
        TokenKind::Symbol(SymbolKind::LeftBracket),
        TokenKind::String("hello world".to_string()),
        TokenKind::Symbol(SymbolKind::RightBracket),
    ];

    assert_eq!(
        Parser::parse_from_list(input).unwrap(),
        Node::Block(vec![Node::FuncCall {
            ident: "print".to_string(),
            args: vec![Node::Primary(Value::String("hello world".to_string()))]
        }])
    );
}

#[test]
fn function_call_with_variable_ref() {
    let input = vec![
        TokenKind::Ident("print".to_string()),
        TokenKind::Symbol(SymbolKind::LeftBracket),
        TokenKind::Ident("str".to_string()),
        TokenKind::Symbol(SymbolKind::RightBracket),
    ];

    assert_eq!(
        Parser::parse_from_list(input).unwrap(),
        Node::Block(vec![Node::FuncCall {
            ident: "print".to_string(),
            args: vec![Node::VariableRef("str".to_string())]
        }])
    );
}

#[test]
fn function_call_with_return_val() {
    let input = vec![
        TokenKind::Ident("in".to_string()),
        TokenKind::Symbol(SymbolKind::Equals),
        TokenKind::Ident("input".to_string()),
        TokenKind::Symbol(SymbolKind::LeftBracket),
        TokenKind::Symbol(SymbolKind::RightBracket),
    ];

    assert_eq!(
        Parser::parse_from_list(input).unwrap(),
        Node::Block(vec![Node::Assign {
            ident: "in".to_string(),
            value: Box::new(Node::FuncCall {
                ident: "input".to_string(),
                args: vec![]
            })
        }])
    );
}

#[test]
fn if_statement() {
    let input = vec![
        TokenKind::Keyword(KeywordKind::If),
        TokenKind::Number(10),
        TokenKind::Symbol(SymbolKind::Greater),
        TokenKind::Number(5),
        TokenKind::Keyword(KeywordKind::Then),
        TokenKind::Ident("print".to_string()),
        TokenKind::Symbol(SymbolKind::LeftBracket),
        TokenKind::String("hello world".to_string()),
        TokenKind::Symbol(SymbolKind::RightBracket),
        TokenKind::Keyword(KeywordKind::EndIf),
    ];

    assert_eq!(
        Parser::parse_from_list(input).unwrap(),
        Node::Block(vec![Node::IfExpr {
            expr: Box::new(Node::BinaryExpr {
                left: Box::new(Node::Primary(Value::Number(10))),
                operator: Op::Greater,
                right: Box::new(Node::Primary(Value::Number(5)))
            }),
            then: Box::new(Node::Block(vec![Node::FuncCall {
                ident: "print".to_string(),
                args: vec![Node::Primary(Value::String("hello world".to_string()))]
            }])),
            els: Box::new(Node::Block(vec![]))
        }])
    );
}

#[test]
fn if_else_statement() {
    let input = vec![
        TokenKind::Keyword(KeywordKind::If),
        TokenKind::Number(10),
        TokenKind::Symbol(SymbolKind::Greater),
        TokenKind::Number(5),
        TokenKind::Keyword(KeywordKind::Then),
        TokenKind::Ident("print".to_string()),
        TokenKind::Symbol(SymbolKind::LeftBracket),
        TokenKind::String("hello world".to_string()),
        TokenKind::Symbol(SymbolKind::RightBracket),
        TokenKind::Keyword(KeywordKind::Else),
        TokenKind::Ident("print".to_string()),
        TokenKind::Symbol(SymbolKind::LeftBracket),
        TokenKind::String("goodbye world".to_string()),
        TokenKind::Symbol(SymbolKind::RightBracket),
        TokenKind::Keyword(KeywordKind::EndIf),
    ];

    assert_eq!(
        Parser::parse_from_list(input).unwrap(),
        Node::Block(vec![Node::IfExpr {
            expr: Box::new(Node::BinaryExpr {
                left: Box::new(Node::Primary(Value::Number(10))),
                operator: Op::Greater,
                right: Box::new(Node::Primary(Value::Number(5)))
            }),
            then: Box::new(Node::Block(vec![Node::FuncCall {
                ident: "print".to_string(),
                args: vec![Node::Primary(Value::String("hello world".to_string()))]
            }])),
            els: Box::new(Node::Block(vec![Node::FuncCall {
                ident: "print".to_string(),
                args: vec![Node::Primary(Value::String("goodbye world".to_string()))]
            }]))
        }])
    );
}

#[test]
fn while_loop() {
    let input = vec![
        TokenKind::Keyword(KeywordKind::While),
        TokenKind::Number(10),
        TokenKind::Symbol(SymbolKind::Greater),
        TokenKind::Number(5),
        TokenKind::Ident("print".to_string()),
        TokenKind::Symbol(SymbolKind::LeftBracket),
        TokenKind::String("hello world".to_string()),
        TokenKind::Symbol(SymbolKind::RightBracket),
        TokenKind::Keyword(KeywordKind::EndWhile),
    ];

    assert_eq!(
        Parser::parse_from_list(input).unwrap(),
        Node::Block(vec![Node::WhileStmt {
            expr: Box::new(Node::BinaryExpr {
                left: Box::new(Node::Primary(Value::Number(10))),
                operator: Op::Greater,
                right: Box::new(Node::Primary(Value::Number(5)))
            }),
            body: Box::new(Node::Block(vec![Node::FuncCall {
                ident: "print".to_string(),
                args: vec![Node::Primary(Value::String("hello world".to_string()))]
            }]))
        }])
    );
}

#[test]
fn conditional_order_of_operations_2() {
    let input = vec![
        TokenKind::Keyword(KeywordKind::If),
        TokenKind::Number(10),
        TokenKind::Symbol(SymbolKind::Greater),
        TokenKind::Number(5),
        TokenKind::Symbol(SymbolKind::Plus),
        TokenKind::Number(5),
        TokenKind::Keyword(KeywordKind::Then),
        TokenKind::Ident("print".to_string()),
        TokenKind::Symbol(SymbolKind::LeftBracket),
        TokenKind::String("hello world".to_string()),
        TokenKind::Symbol(SymbolKind::RightBracket),
        TokenKind::Keyword(KeywordKind::EndIf),
    ];

    assert_eq!(
        Parser::parse_from_list(input).unwrap(),
        Node::Block(vec![Node::IfExpr {
            expr: Box::new(Node::BinaryExpr {
                left: Box::new(Node::Primary(Value::Number(10))),
                operator: Op::Greater,
                right: Box::new(Node::BinaryExpr {
                    left: Box::new(Node::Primary(Value::Number(5))),
                    operator: Op::Plus,
                    right: Box::new(Node::Primary(Value::Number(5)))
                })
            }),
            then: Box::new(Node::Block(vec![Node::FuncCall {
                ident: "print".to_string(),
                args: vec![Node::Primary(Value::String("hello world".to_string()))]
            }])),
            els: Box::new(Node::Block(vec![]))
        }])
    );
}

#[test]
fn array_decl() {
    let input = vec![
        TokenKind::Keyword(KeywordKind::Array),
        TokenKind::Ident("arr".to_string()),
        TokenKind::Symbol(SymbolKind::LeftSqBracket),
        TokenKind::Number(10),
        TokenKind::Symbol(SymbolKind::RightSqBracket),
    ];

    assert_eq!(
        Parser::parse_from_list(input).unwrap(),
        Node::Block(vec![Node::ArrayAssign {
            ident: "arr".to_string(),
            size: Box::new(Node::Primary(Value::Number(10)))
        }])
    );
}

#[test]
fn array_assign_index() {
    let input = vec![
        TokenKind::Ident("arr".to_string()),
        TokenKind::Symbol(SymbolKind::LeftSqBracket),
        TokenKind::Number(10),
        TokenKind::Symbol(SymbolKind::RightSqBracket),
        TokenKind::Symbol(SymbolKind::Equals),
        TokenKind::Number(5),
    ];

    assert_eq!(
        Parser::parse_from_list(input).unwrap(),
        Node::Block(vec![Node::ArrayAssingIndex {
            ident: "arr".to_string(),
            index: Box::new(Node::Primary(Value::Number(10))),
            value: Box::new(Node::Primary(Value::Number(5)))
        }])
    );
}

#[test]
fn array_ref_index() {
    let input = vec![
        TokenKind::Ident("print".to_string()),
        TokenKind::Symbol(SymbolKind::LeftBracket),
        TokenKind::Ident("arr".to_string()),
        TokenKind::Symbol(SymbolKind::LeftSqBracket),
        TokenKind::Number(10),
        TokenKind::Symbol(SymbolKind::RightSqBracket),
        TokenKind::Symbol(SymbolKind::RightBracket),
    ];

    assert_eq!(
        Parser::parse_from_list(input).unwrap(),
        Node::Block(vec![Node::FuncCall {
            ident: "print".to_string(),
            args: vec![Node::ArrayRef {
                ident: "arr".to_string(),
                index: Box::new(Node::Primary(Value::Number(10)))
            }]
        }])
    );
}

#[test]
fn variable_ref() {
    let input = vec![
        TokenKind::Ident("print".to_string()),
        TokenKind::Symbol(SymbolKind::LeftBracket),
        TokenKind::Ident("foo".to_string()),
        TokenKind::Symbol(SymbolKind::RightBracket),
    ];

    assert_eq!(
        Parser::parse_from_list(input).unwrap(),
        Node::Block(vec![Node::FuncCall {
            ident: "print".to_string(),
            args: vec![Node::VariableRef("foo".to_string())]
        }])
    );
}

#[test]
fn dot_expr() {
    let input = vec![
        TokenKind::Ident("print".to_string()),
        TokenKind::Symbol(SymbolKind::LeftBracket),
        TokenKind::Ident("foo".to_string()),
        TokenKind::Symbol(SymbolKind::Dot),
        TokenKind::Ident("length".to_string()),
        TokenKind::Symbol(SymbolKind::RightBracket),
    ];

    assert_eq!(
        Parser::parse_from_list(input).unwrap(),
        Node::Block(vec![Node::FuncCall {
            ident: "print".to_string(),
            args: vec![Node::DotExpr {
                left: "foo".to_string(),
                right: "length".to_string()
            }]
        }])
    );
}
