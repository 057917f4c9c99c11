use ocr_language::error::LexerError;
use ocr_language::lexer::{classify, CharClass, KeywordKind, Lexer, Run, SymbolKind, Token, TokenKind};
use ocr_language::Position;

fn tokens_of(source: &str) -> Vec<Token> {
    let mut lexer = Lexer::new(source.to_string());
    lexer.lex().unwrap();
    lexer.into_tokens()
}

fn kinds_of(source: &str) -> Vec<TokenKind> {
    tokens_of(source).into_iter().map(|token| token.kind).collect()
}

fn symbol(kind: SymbolKind) -> TokenKind {
    TokenKind::Symbol(kind)
}

fn ident(name: &str) -> TokenKind {
    TokenKind::Ident(name.to_string())
}

#[test]
fn every_symbol_alone() {
    assert_eq!(
        kinds_of("= + - * / % > < ( ) [ ] ."),
        vec![
            symbol(SymbolKind::Equals),
            symbol(SymbolKind::Plus),
            symbol(SymbolKind::Minus),
            symbol(SymbolKind::Multiply),
            symbol(SymbolKind::Divide),
            symbol(SymbolKind::Mod),
            symbol(SymbolKind::Greater),
            symbol(SymbolKind::Less),
            symbol(SymbolKind::LeftBracket),
            symbol(SymbolKind::RightBracket),
            symbol(SymbolKind::LeftSqBracket),
            symbol(SymbolKind::RightSqBracket),
            symbol(SymbolKind::Dot),
        ]
    );
}

#[test]
fn every_symbol_of_two_characters() {
    assert_eq!(
        kinds_of("==>=<=+=-="),
        vec![
            symbol(SymbolKind::DoubleEquals),
            symbol(SymbolKind::GreaterEquals),
            symbol(SymbolKind::LessEquals),
            symbol(SymbolKind::PlusEqual),
            symbol(SymbolKind::MinusEqual),
        ]
    );
}

#[test]
fn three_equals_are_two_symbols() {
    assert_eq!(
        kinds_of("==="),
        vec![symbol(SymbolKind::DoubleEquals), symbol(SymbolKind::Equals)]
    );
}

#[test]
fn then_is_no_keyword() {
    assert_eq!(
        kinds_of("if then else endif array"),
        vec![
            TokenKind::Keyword(KeywordKind::If),
            ident("then"),
            TokenKind::Keyword(KeywordKind::Else),
            TokenKind::Keyword(KeywordKind::EndIf),
            TokenKind::Keyword(KeywordKind::Array),
        ]
    );
}

#[test]
fn a_keyword_inside_a_word_is_part_of_the_word() {
    assert_eq!(kinds_of("iffy doing _if if_"), vec![ident("iffy"), ident("doing"), ident("_if"), ident("if_")]);
}

#[test]
fn a_word_goes_on_over_digits_underscores_and_letters_of_any_script() {
    assert_eq!(
        kinds_of("x1 a_b caf\u{e9} n\u{3b1}2"),
        vec![ident("x1"), ident("a_b"), ident("caf\u{e9}"), ident("n\u{3b1}2")]
    );
}

#[test]
fn a_number_ends_where_the_digits_end() {
    assert_eq!(
        kinds_of("12ab 0 007"),
        vec![TokenKind::Number(12), ident("ab"), TokenKind::Number(0), TokenKind::Number(7)]
    );
}

#[test]
fn the_largest_number() {
    assert_eq!(kinds_of("18446744073709551615"), vec![TokenKind::Number(u64::MAX)]);
}

#[test]
fn a_number_beyond_64_bits_has_no_answer() {
    let mut lexer = Lexer::new("x = 18446744073709551616".to_string());
    assert!(!lexer.is_lexable());
    assert!(lexer.try_lex().is_none());
    assert!(lexer.tokens.is_empty());
}

#[test]
fn a_number_with_a_digit_of_another_script_has_no_answer() {
    let mut lexer = Lexer::new("1\u{b2}".to_string());
    assert!(lexer.try_lex().is_none());
}

#[test]
fn times_equals_has_no_answer() {
    for source in ["a *= 2", "a /= 2", "a %= 2"] {
        let mut lexer = Lexer::new(source.to_string());
        assert!(lexer.try_lex().is_none());
    }
}

#[test]
fn try_lex_gives_what_lex_gives() {
    let mut lexer = Lexer::new("a = 1".to_string());
    assert!(lexer.is_lexable());
    assert!(matches!(lexer.try_lex(), Some(Ok(()))));
    assert_eq!(
        lexer.token_kinds(),
        vec![ident("a"), symbol(SymbolKind::Equals), TokenKind::Number(1)]
    );
}

#[test]
fn a_string_holds_what_stands_between_the_quotes() {
    assert_eq!(
        kinds_of("\"a b\n= 1 \u{e9}\" \"\""),
        vec![TokenKind::String("a b\n= 1 \u{e9}".to_string()), TokenKind::String(String::new())]
    );
}

#[test]
fn an_open_string_runs_to_the_end() {
    let tokens = tokens_of("x = \"abc");
    assert_eq!(tokens[2].kind, TokenKind::String("abc".to_string()));
    assert_eq!(tokens[2].len, 4);
    let tokens = tokens_of("\"");
    assert_eq!(tokens, vec![Token::new(TokenKind::String(String::new()), Position::new(1, 0), 1)]);
}

#[test]
fn a_token_is_as_long_as_the_characters_it_was_read_from() {
    let tokens = tokens_of("ab == 12 \"x\u{e9}\" while caf\u{e9}");
    let lens: Vec<usize> = tokens.iter().map(|token| token.len).collect();
    assert_eq!(lens, vec![2, 2, 2, 4, 5, 4]);
}

#[test]
fn lengths_and_blanks_add_up_to_the_source() {
    let source = "ab == 12\n  (x)";
    let tokens = tokens_of(source);
    let lens: usize = tokens.iter().map(|token| token.len).sum();
    let blanks = 5;
    assert_eq!(lens + blanks, source.chars().count());
}

#[test]
fn tokens_start_at_the_column_before_their_first_character() {
    let tokens = tokens_of("ab = 12");
    assert_eq!(tokens[0], Token::new(ident("ab"), Position::new(1, 0), 2));
    assert_eq!(tokens[1], Token::new(symbol(SymbolKind::Equals), Position::new(1, 3), 1));
    assert_eq!(tokens[2], Token::new(TokenKind::Number(12), Position::new(1, 5), 2));
}

#[test]
fn brackets_and_dots_start_one_column_later() {
    let tokens = tokens_of("(a.b)");
    let starts: Vec<Position> = tokens.iter().map(|token| token.start).collect();
    assert_eq!(
        starts,
        vec![
            Position::new(1, 1),
            Position::new(1, 1),
            Position::new(1, 3),
            Position::new(1, 3),
            Position::new(1, 5),
        ]
    );
}

#[test]
fn a_line_break_starts_a_line_at_column_zero() {
    let tokens = tokens_of("a\nb\r\n c");
    let starts: Vec<Position> = tokens.iter().map(|token| token.start).collect();
    assert_eq!(starts, vec![Position::new(1, 0), Position::new(2, 0), Position::new(4, 1)]);
}

#[test]
fn a_line_break_inside_a_string_is_no_line_break() {
    let tokens = tokens_of("\"a\nb\" c");
    assert_eq!(tokens[1].start, Position::new(1, 6));
}

#[test]
fn an_unrecognised_character_stops_the_lexer() {
    let source = "a = $ b";
    let mut lexer = Lexer::new(source.to_string());
    match lexer.lex() {
        Err(LexerError::UnrecognisedCharacter(c, at, text)) => {
            assert_eq!(c, '$');
            assert_eq!(at, Position::new(1, 5));
            assert_eq!(text, source);
        }
        Ok(()) => panic!("the lexer took a dollar sign"),
    }
    assert_eq!(lexer.token_kinds(), vec![ident("a"), symbol(SymbolKind::Equals)]);
}

#[test]
fn lexing_goes_on_after_the_character_that_stopped_it() {
    let mut lexer = Lexer::new("a $ b".to_string());
    assert!(lexer.lex().is_err());
    assert!(lexer.lex().is_ok());
    assert_eq!(lexer.token_kinds(), vec![ident("a"), ident("b")]);
    assert!(lexer.lex().is_ok());
    assert_eq!(lexer.token_kinds(), vec![ident("a"), ident("b")]);
}

#[test]
fn tabs_and_other_characters_are_not_recognised() {
    for (source, bad) in [("\t", '\t'), ("a\0", '\0'), ("{", '{'), ("\u{e9}", '\u{e9}'), ("a,b", ',')] {
        let mut lexer = Lexer::new(source.to_string());
        match lexer.lex() {
            Err(LexerError::UnrecognisedCharacter(c, _, _)) => assert_eq!(c, bad),
            Ok(()) => panic!("the lexer took {:?}", bad),
        }
    }
}

#[test]
fn an_empty_source_has_no_tokens() {
    assert_eq!(tokens_of(""), Vec::new());
    assert_eq!(tokens_of(" \n \r "), Vec::new());
}

#[test]
fn a_character_has_its_class() {
    let class = |alphanumeric: bool, numeric: bool| CharClass { alphanumeric, numeric };
    assert_eq!(classify('a'), class(true, false));
    assert_eq!(classify('Z'), class(true, false));
    assert_eq!(classify('\u{e9}'), class(true, false));
    assert_eq!(classify('7'), class(true, true));
    assert_eq!(classify('\u{b2}'), class(true, true));
    assert_eq!(classify('_'), class(false, false));
    assert_eq!(classify(' '), class(false, false));
    assert_eq!(classify('$'), class(false, false));
    assert_eq!(classify('"'), class(false, false));
}

#[test]
fn a_run_goes_on_by_class() {
    let letter = CharClass { alphanumeric: true, numeric: false };
    let digit = CharClass { alphanumeric: true, numeric: true };
    let other = CharClass { alphanumeric: false, numeric: false };
    assert!(Run::Word.goes_on('a', letter));
    assert!(Run::Word.goes_on('1', digit));
    assert!(Run::Word.goes_on('_', other));
    assert!(!Run::Word.goes_on('-', other));
    assert!(Run::Digits.goes_on('1', digit));
    assert!(!Run::Digits.goes_on('a', letter));
    assert!(!Run::Digits.goes_on('_', other));
    assert!(Run::Quoted.goes_on('a', letter));
    assert!(Run::Quoted.goes_on('\n', other));
    assert!(!Run::Quoted.goes_on('"', other));
}

#[test]
fn the_classes_can_be_given() {
    let source = "caf\u{e9} x";
    let classes: Vec<CharClass> = source
        .chars()
        .map(|c| CharClass { alphanumeric: c.is_ascii_alphanumeric(), numeric: c.is_ascii_digit() })
        .collect();
    let mut lexer = Lexer::with_classes(source.to_string(), classes);
    match lexer.lex() {
        Err(LexerError::UnrecognisedCharacter(c, at, _)) => {
            assert_eq!(c, '\u{e9}');
            assert_eq!(at, Position::new(1, 4));
        }
        Ok(()) => panic!("the lexer took a letter that it was told is none"),
    }
    assert_eq!(lexer.token_kinds(), vec![ident("caf")]);
    assert!(lexer.lex().is_ok());
    assert_eq!(lexer.token_kinds(), vec![ident("caf"), ident("x")]);
}

#[test]
fn given_classes_decide_where_a_number_ends() {
    let source = "12 34";
    let all_digits: Vec<CharClass> =
        source.chars().map(|_| CharClass { alphanumeric: false, numeric: true }).collect();
    let mut lexer = Lexer::with_classes(source.to_string(), all_digits);
    assert!(lexer.try_lex().is_none());
    let no_digits: Vec<CharClass> =
        source.chars().map(|_| CharClass { alphanumeric: false, numeric: false }).collect();
    let mut lexer = Lexer::with_classes(source.to_string(), no_digits);
    lexer.lex().unwrap();
    assert_eq!(
        lexer.token_kinds(),
        vec![
            TokenKind::Number(1),
            TokenKind::Number(2),
            TokenKind::Number(3),
            TokenKind::Number(4),
        ]
    );
}

#[test]
fn a_copy_of_a_lexer_reads_on_by_itself() {
    let mut lexer = Lexer::new("a b".to_string());
    let mut copy = lexer.clone();
    lexer.lex().unwrap();
    assert!(copy.tokens.is_empty());
    copy.lex().unwrap();
    assert_eq!(copy.token_kinds(), lexer.token_kinds());
}
