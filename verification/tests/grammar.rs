use ocr_language::ast::Node;
use ocr_language::error::ParserError;
use ocr_language::lexer::{KeywordKind, Lexer, SymbolKind, Token, TokenKind};
use ocr_language::parser::Parser;
use ocr_language::{Op, Position, Value};

fn kinds_of(source: &str) -> Vec<TokenKind> {
    let mut lexer = Lexer::new(source.to_string());
    lexer.lex().unwrap();
    lexer.token_kinds()
}

fn parsed(source: &str) -> Vec<Node> {
    match Parser::parse_from_list(kinds_of(source)).unwrap() {
        Node::Block(nodes) => nodes,
        other => panic!("the root is no block: {:?}", other),
    }
}

fn stuck(source: &str) -> bool {
    let tokens: Vec<Token> = kinds_of(source)
        .into_iter()
        .map(|kind| Token::new(kind, Position::new(0, 0), 0))
        .collect();
    Parser::new(tokens, String::new()).try_parse().is_none()
}

fn number(n: u64) -> Box<Node> {
    Box::new(Node::Primary(Value::Number(n)))
}

fn variable(name: &str) -> Box<Node> {
    Box::new(Node::VariableRef(name.to_string()))
}

fn binary(left: Box<Node>, operator: Op, right: Box<Node>) -> Box<Node> {
    Box::new(Node::BinaryExpr { left, operator, right })
}

fn assign(name: &str, value: Box<Node>) -> Node {
    Node::Assign { ident: name.to_string(), value }
}

#[test]
fn a_sum_takes_the_comparison_after_it_as_its_right_side() {
    assert_eq!(
        parsed("x = 10 + 5 > 5"),
        vec![assign(
            "x",
            binary(number(10), Op::Plus, binary(number(5), Op::Greater, number(5)))
        )]
    );
}

#[test]
fn chains_lean_to_the_right() {
    assert_eq!(
        parsed("x = 1 - 2 - 3"),
        vec![assign("x", binary(number(1), Op::Minus, binary(number(2), Op::Minus, number(3))))]
    );
    assert_eq!(
        parsed("x = 8 / 4 / 2"),
        vec![assign("x", binary(number(8), Op::Divide, binary(number(4), Op::Divide, number(2))))]
    );
}

#[test]
fn a_product_takes_the_sum_after_it_as_its_right_side() {
    assert_eq!(
        parsed("x = 2 * 3 + 1"),
        vec![assign("x", binary(number(2), Op::Multiply, binary(number(3), Op::Plus, number(1))))]
    );
}

#[test]
fn every_operator_of_an_expression() {
    let cases = [
        ("+", Op::Plus),
        ("-", Op::Minus),
        ("*", Op::Multiply),
        ("/", Op::Divide),
        (">", Op::Greater),
        (">=", Op::GreaterEqual),
        ("<", Op::Less),
        ("<=", Op::LessEqual),
        ("==", Op::EqualTo),
    ];
    for (text, operator) in cases {
        assert_eq!(
            parsed(&format!("x = a {} 2", text)),
            vec![assign("x", binary(variable("a"), operator, number(2)))]
        );
    }
}

#[test]
fn percent_continues_no_expression() {
    match Parser::parse_from_list(kinds_of("x = 7 % 2")) {
        Err(ParserError::InvalidTokenInBlock(token, _)) => {
            assert_eq!(token.kind, TokenKind::Symbol(SymbolKind::Mod));
        }
        Ok(node) => panic!("parsed as {:?}", node),
    }
}

#[test]
fn statements_follow_each_other_without_separators() {
    assert_eq!(
        parsed("a = 1 b = a print(b)"),
        vec![
            assign("a", number(1)),
            assign("b", variable("a")),
            Node::FuncCall { ident: "print".to_string(), args: vec![*variable("b")] },
        ]
    );
}

#[test]
fn a_block_ends_at_its_closing_keyword_and_so_does_the_program() {
    assert_eq!(parsed("a = 1 endif b = 2"), vec![assign("a", number(1))]);
    assert_eq!(parsed("else a = 1"), Vec::new());
    assert_eq!(parsed("endwhile"), Vec::new());
}

#[test]
fn what_follows_an_else_block_is_left_unread() {
    let nodes = parsed("if a then x = 1 else x = 2 endif y = 3");
    assert_eq!(
        nodes,
        vec![Node::IfExpr {
            expr: variable("a"),
            then: Box::new(Node::Block(vec![assign("x", number(1))])),
            els: Box::new(Node::Block(vec![assign("x", number(2))])),
        }]
    );
}

#[test]
fn what_follows_a_conditional_without_else_is_read() {
    let nodes = parsed("if a then x = 1 endif y = 3");
    assert_eq!(
        nodes,
        vec![
            Node::IfExpr {
                expr: variable("a"),
                then: Box::new(Node::Block(vec![assign("x", number(1))])),
                els: Box::new(Node::Block(Vec::new())),
            },
            assign("y", number(3)),
        ]
    );
}

#[test]
fn the_token_after_a_condition_is_not_looked_at() {
    let with_then = parsed("if a then x = 1 endif");
    let with_do = parsed("if a do x = 1 endif");
    let with_number = parsed("if a 7 x = 1 endif");
    assert_eq!(with_then, with_do);
    assert_eq!(with_then, with_number);
}

#[test]
fn closing_tokens_are_not_looked_at() {
    let closed = parsed("array a[3] print(a[1]) x = (1 + 2) a[0] = 1");
    let odd = parsed("array a[3) print(a[1( .x = (1 + 2] a[0. = 1");
    assert_eq!(closed, odd);
    assert_eq!(closed.len(), 4);
}

#[test]
fn nested_loops_and_conditionals() {
    let nodes = parsed("while a < 3 if a == 1 then print(a) endif a = a + 1 endwhile print(a)");
    assert_eq!(
        nodes,
        vec![
            Node::WhileStmt {
                expr: binary(variable("a"), Op::Less, number(3)),
                body: Box::new(Node::Block(vec![
                    Node::IfExpr {
                        expr: binary(variable("a"), Op::EqualTo, number(1)),
                        then: Box::new(Node::Block(vec![Node::FuncCall {
                            ident: "print".to_string(),
                            args: vec![*variable("a")],
                        }])),
                        els: Box::new(Node::Block(Vec::new())),
                    },
                    assign("a", binary(variable("a"), Op::Plus, number(1))),
                ])),
            },
            Node::FuncCall { ident: "print".to_string(), args: vec![*variable("a")] },
        ]
    );
}

#[test]
fn a_dot_expression_can_be_a_statement() {
    assert_eq!(
        parsed("a.length"),
        vec![Node::DotExpr { left: "a".to_string(), right: "length".to_string() }]
    );
}

#[test]
fn a_token_that_starts_no_statement_is_an_error() {
    for source in ["5", "\"text\"", "(", "+ 1", "do", "break", "a = 1 ]"] {
        assert!(Parser::parse_from_list(kinds_of(source)).is_err(), "{}", source);
    }
    match Parser::parse_from_list(vec![TokenKind::Keyword(KeywordKind::Then)]) {
        Err(ParserError::InvalidTokenInBlock(token, text)) => {
            assert_eq!(token, Token::new(TokenKind::Keyword(KeywordKind::Then), Position::new(0, 0), 0));
            assert_eq!(text, "");
        }
        Ok(node) => panic!("parsed as {:?}", node),
    }
}

#[test]
fn tokens_in_no_shape_have_no_answer() {
    let sources = [
        "a",
        "a b",
        "a =",
        "a = +",
        "a = (1",
        "print(",
        "print(1",
        "array",
        "array a",
        "array a[",
        "array 1[2]",
        "a[1]",
        "a[1] 2 3",
        "a.",
        "a.1",
        "if",
        "if a",
        "if a then",
        "if a then x = 1",
        "while a x = 1",
        "while a",
        "if a then 5 endif",
        "while a 5 endwhile",
        "if a then x = 1 else 5 endif",
    ];
    for source in sources {
        assert!(stuck(source), "{}", source);
    }
}

#[test]
fn try_parse_gives_what_parse_gives() {
    let tokens: Vec<Token> = kinds_of("x = 1")
        .into_iter()
        .map(|kind| Token::new(kind, Position::new(0, 0), 0))
        .collect();
    let mut parser = Parser::new(tokens, String::new());
    match parser.try_parse() {
        Some(Ok(node)) => assert_eq!(node, Node::Block(vec![assign("x", number(1))])),
        other => panic!("{:?}", other.map(|r| r.is_ok())),
    }
    assert_eq!(parser.parse().unwrap(), Node::Block(Vec::new()));
}

#[test]
fn an_empty_list_is_an_empty_program() {
    assert_eq!(Parser::parse_from_list(Vec::new()).unwrap(), Node::Block(Vec::new()));
}
