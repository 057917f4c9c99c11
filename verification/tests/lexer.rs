use ocr_language::lexer::{KeywordKind, Lexer, SymbolKind, TokenKind};

#[test]
fn equals() {
    let mut lexer = Lexer::new("== =".to_string());
    let _ = lexer.lex();
    assert_eq!(
        lexer.token_kinds(),
        vec![
            TokenKind::Symbol(SymbolKind::DoubleEquals),
            TokenKind::Symbol(SymbolKind::Equals)
        ]
    );
}

#[test]
fn greater() {
    let mut lexer = Lexer::new(">= >".to_string());
    let _ = lexer.lex();
    assert_eq!(
        lexer.token_kinds(),
        vec![
            TokenKind::Symbol(SymbolKind::GreaterEquals),
            TokenKind::Symbol(SymbolKind::Greater)
        ]
    );
}

#[test]
fn less() {
    let mut lexer = Lexer::new("<= <".to_string());
    let _ = lexer.lex();
    assert_eq!(
        lexer.token_kinds(),
        vec![
            TokenKind::Symbol(SymbolKind::LessEquals),
            TokenKind::Symbol(SymbolKind::Less)
        ]
    );
}

#[test]
fn brackets() {
    let mut lexer = Lexer::new("()(()".to_string());
    let _ = lexer.lex();
    assert_eq!(
        lexer.token_kinds(),
        vec![
            TokenKind::Symbol(SymbolKind::LeftBracket),
            TokenKind::Symbol(SymbolKind::RightBracket),
            TokenKind::Symbol(SymbolKind::LeftBracket),
            TokenKind::Symbol(SymbolKind::LeftBracket),
            TokenKind::Symbol(SymbolKind::RightBracket),
        ]
    );
}

#[test]
fn bracket_dual_symbol() {
    let mut lexer = Lexer::new("(= )=".to_string());
    let _ = lexer.lex();
    assert_eq!(
        lexer.token_kinds(),
        vec![
            TokenKind::Symbol(SymbolKind::LeftBracket),
            TokenKind::Symbol(SymbolKind::Equals),
            TokenKind::Symbol(SymbolKind::RightBracket),
            TokenKind::Symbol(SymbolKind::Equals),
        ]
    );
}

#[test]
fn arithmetic() {
    let mut lexer = Lexer::new("+= + - -= * /".to_string());
    let _ = lexer.lex();
    assert_eq!(
        lexer.token_kinds(),
        vec![
            TokenKind::Symbol(SymbolKind::PlusEqual),
            TokenKind::Symbol(SymbolKind::Plus),
            TokenKind::Symbol(SymbolKind::Minus),
            TokenKind::Symbol(SymbolKind::MinusEqual),
            TokenKind::Symbol(SymbolKind::Multiply),
            TokenKind::Symbol(SymbolKind::Divide),
        ]
    );
}

#[test]
fn string() {
    let mut lexer = Lexer::new("\"this is a test string\" + 7".to_string());
    let _ = lexer.lex();
    assert_eq!(
        lexer.token_kinds(),
        vec![
            TokenKind::String("this is a test string".to_string()),
            TokenKind::Symbol(SymbolKind::Plus),
            TokenKind::Number(7),
        ]
    )
}

#[test]
fn numeric() {
    let mut lexer = Lexer::new("325".to_string());
    let _ = lexer.lex();
    assert_eq!(lexer.token_kinds(), vec![TokenKind::Number(325)])
}

#[test]
fn multi_numeric() {
    let mut lexer = Lexer::new("100 27".to_string());
    let _ = lexer.lex();
    assert_eq!(
        lexer.token_kinds(),
        vec![TokenKind::Number(100), TokenKind::Number(27)]
    )
}

#[test]
fn symbol_numeric() {
    let mut lexer = Lexer::new("420 >= 3158".to_string());
    let _ = lexer.lex();
    assert_eq!(
        lexer.token_kinds(),
        vec![
            TokenKind::Number(420),
            TokenKind::Symbol(SymbolKind::GreaterEquals),
            TokenKind::Number(3158)
        ]
    )
}

#[test]
fn keyword_while() {
    let mut lexer = Lexer::new("do while break endwhile".to_string());
    let _ = lexer.lex();
    assert_eq!(
        lexer.token_kinds(),
        vec![
            TokenKind::Keyword(KeywordKind::Do),
            TokenKind::Keyword(KeywordKind::While),
            TokenKind::Keyword(KeywordKind::Break),
            TokenKind::Keyword(KeywordKind::EndWhile),
        ]
    )
}

#[test]
fn keyword_if() {
    let mut lexer = Lexer::new("if else endif".to_string());
    let _ = lexer.lex();
    assert_eq!(
        lexer.token_kinds(),
        vec![
            TokenKind::Keyword(KeywordKind::If),
            TokenKind::Keyword(KeywordKind::Else),
            TokenKind::Keyword(KeywordKind::EndIf),
        ]
    )
}

#[test]
fn ident() {
    let mut lexer = Lexer::new("apples".to_string());
    let _ = lexer.lex();
    assert_eq!(
        lexer.token_kinds(),
        vec![TokenKind::Ident("apples".to_string())]
    )
}

#[test]
fn ident_mixed() {
    let mut lexer = Lexer::new("attempts = 17".to_string());
    let _ = lexer.lex();
    assert_eq!(
        lexer.token_kinds(),
        vec![
            TokenKind::Ident("attempts".to_string()),
            TokenKind::Symbol(SymbolKind::Equals),
            TokenKind::Number(17),
        ]
    )
}
