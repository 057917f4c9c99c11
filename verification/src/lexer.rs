//! The lexer: a single left-to-right scan of the source with one character
//! of lookahead, giving tokens that carry where they started and how many
//! characters they were read from.

use vstd::prelude::*;

pub mod theorems;

use crate::error::{LexerError, LexerErrorView};
use crate::text::{
    all_digits, alphanumeric, chars_of, decimal_value, is_alphanumeric, is_digit, is_numeric,
    numeric, read_decimal, spells, text_of,
};
use crate::{Num, Position};

verus! {

/// What a token is: a name, a literal, a keyword or a symbol.
#[derive(Debug, PartialEq)]
pub enum TokenKind {
    Ident(String),
    String(String),
    Number(Num),
    Keyword(KeywordKind),
    Symbol(SymbolKind),
}

/// What a [`TokenKind`] is, as mathematics.
pub enum TokenKindView {
    Ident(Seq<char>),
    String(Seq<char>),
    Number(u64),
    Keyword(KeywordKind),
    Symbol(SymbolKind),
}

impl View for TokenKind {
    type V = TokenKindView;

    open spec fn view(&self) -> TokenKindView {
        match self {
            TokenKind::Ident(s) => TokenKindView::Ident(s@),
            TokenKind::String(s) => TokenKindView::String(s@),
            TokenKind::Number(n) => TokenKindView::Number(*n),
            TokenKind::Keyword(k) => TokenKindView::Keyword(*k),
            TokenKind::Symbol(s) => TokenKindView::Symbol(*s),
        }
    }
}

impl Clone for TokenKind {
    fn clone(&self) -> (r: Self)
        ensures
            r@ == self@,
    {
        match self {
            TokenKind::Ident(s) => TokenKind::Ident(s.clone()),
            TokenKind::String(s) => TokenKind::String(s.clone()),
            TokenKind::Number(n) => TokenKind::Number(*n),
            TokenKind::Keyword(k) => TokenKind::Keyword(*k),
            TokenKind::Symbol(s) => TokenKind::Symbol(*s),
        }
    }
}

/// The keywords. The lexer reads every one of them but `then`, which it
/// takes for a name.
#[derive(Clone, Copy, Debug, PartialEq, Eq, Structural)]
pub enum KeywordKind {
    Do,
    While,
    EndWhile,
    If,
    Then,
    Else,
    EndIf,
    Break,
    Array,
}

/// The operators and the punctuation.
#[derive(Clone, Copy, Debug, PartialEq, Eq, Structural)]
pub enum SymbolKind {
    // assignment / arithmetic
    Equals,
    Plus,
    PlusEqual,
    Minus,
    MinusEqual,
    Multiply,
    Divide,
    Mod,
    // comparison
    DoubleEquals,
    Greater,
    GreaterEquals,
    Less,
    LessEquals,
    // other
    LeftBracket,
    RightBracket,
    LeftSqBracket,
    RightSqBracket,
    Quote,
    Dot,
}

/// A token: what it is, where it started, and how many characters it was
/// read from.
#[derive(Debug, PartialEq)]
pub struct Token {
    pub start: Position,
    pub len: usize,
    pub kind: TokenKind,
}

/// What a [`Token`] is, as mathematics.
pub struct TokenView {
    pub start: Position,
    pub len: usize,
    pub kind: TokenKindView,
}

impl View for Token {
    type V = TokenView;

    open spec fn view(&self) -> TokenView {
        TokenView { start: self.start, len: self.len, kind: self.kind@ }
    }
}

impl Clone for Token {
    fn clone(&self) -> (r: Self)
        ensures
            r@ == self@,
    {
        Token { start: self.start, len: self.len, kind: self.kind.clone() }
    }
}

impl Token {
    /// The token of the given kind, start and length.
    pub fn new(kind: TokenKind, start: Position, len: usize) -> (t: Self)
        ensures
            t == (Token { start, len, kind }),
    {
        Self { start, len, kind }
    }
}

/// The views of a sequence of tokens, token by token.
pub open spec fn tokens_view(tokens: Seq<Token>) -> Seq<TokenView> {
    Seq::new(tokens.len(), |i: int| tokens[i]@)
}

/// What the lexer has to know of a character beyond the character itself.
#[derive(Clone, Copy, Debug, PartialEq, Eq, Structural)]
pub struct CharClass {
    /// Whether a word goes on over the character.
    pub alphanumeric: bool,
    /// Whether a number goes on over the character.
    pub numeric: bool,
}

/// The class of a character: whether it is alphanumeric, and whether it is
/// numeric, in the Unicode sense.
pub open spec fn class_of(c: char) -> CharClass {
    CharClass { alphanumeric: alphanumeric(c), numeric: numeric(c) }
}

/// The classes of the characters of a text, character by character.
pub open spec fn classes_of(src: Seq<char>) -> Seq<CharClass> {
    Seq::new(src.len(), |i: int| class_of(src[i]))
}

/// The three kinds of run that a multi-character token is read from.
pub enum Run {
    /// Letters, digits and underscores: the rest of a word.
    Word,
    /// Numeric characters: the rest of a number.
    Digits,
    /// Anything but a double quote: the content of a string literal.
    Quoted,
}

impl Run {
    /// Whether the run goes on over the character `c` of class `class`.
    pub open spec fn takes(self, c: char, class: CharClass) -> bool {
        match self {
            Run::Word => class.alphanumeric || c == '_',
            Run::Digits => class.numeric,
            Run::Quoted => c != '"',
        }
    }
}

impl Run {
    /// Whether the run goes on over the character `c` of class `class`.
    pub fn goes_on(&self, c: char, class: CharClass) -> (b: bool)
        ensures
            b == self.takes(c, class),
    {
        match self {
            Run::Word => class.alphanumeric || c == '_',
            Run::Digits => class.numeric,
            Run::Quoted => c != '"',
        }
    }
}

/// The class of a character.
pub fn classify(c: char) -> (class: CharClass)
    ensures
        class == class_of(c),
{
    CharClass { alphanumeric: is_alphanumeric(c), numeric: is_numeric(c) }
}

/// The length of the longest run of the given kind that starts at `i`.
pub open spec fn run_length(src: Seq<char>, classes: Seq<CharClass>, i: int, run: Run) -> nat
    decreases src.len() - i,
{
    if 0 <= i < src.len() && i < classes.len() && run.takes(src[i], classes[i]) {
        1 + run_length(src, classes, i + 1, run)
    } else {
        0
    }
}

/// The symbol that one of `= < > + - * / %` makes alone.
pub open spec fn operator_symbol(c: char) -> Option<SymbolKind> {
    if c == '=' {
        Some(SymbolKind::Equals)
    } else if c == '<' {
        Some(SymbolKind::Less)
    } else if c == '>' {
        Some(SymbolKind::Greater)
    } else if c == '+' {
        Some(SymbolKind::Plus)
    } else if c == '-' {
        Some(SymbolKind::Minus)
    } else if c == '*' {
        Some(SymbolKind::Multiply)
    } else if c == '/' {
        Some(SymbolKind::Divide)
    } else if c == '%' {
        Some(SymbolKind::Mod)
    } else {
        None
    }
}

/// The symbol that an operator character makes with an `=` after it, where
/// there is one.
pub open spec fn compound_symbol(c: char) -> Option<SymbolKind> {
    if c == '=' {
        Some(SymbolKind::DoubleEquals)
    } else if c == '<' {
        Some(SymbolKind::LessEquals)
    } else if c == '>' {
        Some(SymbolKind::GreaterEquals)
    } else if c == '+' {
        Some(SymbolKind::PlusEqual)
    } else if c == '-' {
        Some(SymbolKind::MinusEqual)
    } else {
        None
    }
}

/// The symbol that one of `( ) [ ] .` makes, whatever follows.
pub open spec fn bracket_symbol(c: char) -> Option<SymbolKind> {
    if c == '(' {
        Some(SymbolKind::LeftBracket)
    } else if c == ')' {
        Some(SymbolKind::RightBracket)
    } else if c == '[' {
        Some(SymbolKind::LeftSqBracket)
    } else if c == ']' {
        Some(SymbolKind::RightSqBracket)
    } else if c == '.' {
        Some(SymbolKind::Dot)
    } else {
        None
    }
}

/// Whether a word can start with `c`: an ASCII letter or an underscore.
pub open spec fn starts_word(c: char) -> bool {
    ('a' <= c && c <= 'z') || ('A' <= c && c <= 'Z') || c == '_'
}

/// The keyword that a word spells, if any.
pub open spec fn keyword_of(word: Seq<char>) -> Option<KeywordKind> {
    if word == "do"@ {
        Some(KeywordKind::Do)
    } else if word == "while"@ {
        Some(KeywordKind::While)
    } else if word == "endwhile"@ {
        Some(KeywordKind::EndWhile)
    } else if word == "if"@ {
        Some(KeywordKind::If)
    } else if word == "else"@ {
        Some(KeywordKind::Else)
    } else if word == "endif"@ {
        Some(KeywordKind::EndIf)
    } else if word == "break"@ {
        Some(KeywordKind::Break)
    } else if word == "array"@ {
        Some(KeywordKind::Array)
    } else {
        None
    }
}

/// What stands at one place of the source.
pub enum Lexeme {
    /// A line feed or a carriage return.
    Newline,
    /// A space.
    Space,
    /// A token read from `width` characters. Its start is the column before
    /// its first character, moved right by `shift`.
    Token { kind: TokenKindView, width: nat, shift: nat },
    /// A character that starts nothing.
    Unrecognised(char),
    /// Text that the lexer has no answer for: a number that is no unsigned
    /// 64-bit decimal, or one of `* / %` with an `=` after it.
    Stuck,
}

/// What stands at index `i` of the source.
pub open spec fn lexeme_at(src: Seq<char>, classes: Seq<CharClass>, i: int) -> Lexeme
    recommends
        0 <= i < src.len(),
{
    let c = src[i];
    if c == '\n' || c == '\r' {
        Lexeme::Newline
    } else if c == ' ' {
        Lexeme::Space
    } else if operator_symbol(c) is Some {
        if i + 1 < src.len() && src[i + 1] == '=' {
            match compound_symbol(c) {
                Some(symbol) => Lexeme::Token {
                    kind: TokenKindView::Symbol(symbol),
                    width: 2,
                    shift: 0,
                },
                None => Lexeme::Stuck,
            }
        } else {
            Lexeme::Token { kind: TokenKindView::Symbol(operator_symbol(c)->0), width: 1, shift: 0 }
        }
    } else if bracket_symbol(c) is Some {
        Lexeme::Token { kind: TokenKindView::Symbol(bracket_symbol(c)->0), width: 1, shift: 1 }
    } else if c == '"' {
        let body = run_length(src, classes, i + 1, Run::Quoted);
        let closed = i + 1 + body < src.len();
        Lexeme::Token {
            kind: TokenKindView::String(src.subrange(i + 1, i + 1 + body)),
            width: if closed {
                body + 2
            } else {
                body + 1
            },
            shift: 0,
        }
    } else if is_digit(c) {
        let width = 1 + run_length(src, classes, i + 1, Run::Digits);
        let digits = src.subrange(i, i + width);
        if all_digits(digits) && decimal_value(digits) <= u64::MAX {
            Lexeme::Token {
                kind: TokenKindView::Number(decimal_value(digits) as u64),
                width,
                shift: 0,
            }
        } else {
            Lexeme::Stuck
        }
    } else if starts_word(c) {
        let width = 1 + run_length(src, classes, i + 1, Run::Word);
        let word = src.subrange(i, i + width);
        Lexeme::Token {
            kind: match keyword_of(word) {
                Some(keyword) => TokenKindView::Keyword(keyword),
                None => TokenKindView::Ident(word),
            },
            width,
            shift: 0,
        }
    } else {
        Lexeme::Unrecognised(c)
    }
}

/// How a scan ended.
#[derive(Clone, Copy, Debug, PartialEq, Eq, Structural)]
pub enum Ending {
    /// The source ran out.
    Complete,
    /// A character that starts nothing, and the position just after it.
    Unrecognised(char, Position),
    /// The lexer has no answer for the text at the cursor.
    Stuck,
}

/// A scan of the source from some place on: the tokens read, how the scan
/// ended, and where it stopped. `breaks` counts the line breaks passed, so
/// the line is one more; `col` is the running column.
pub struct Scan {
    pub tokens: Seq<TokenView>,
    pub end: Ending,
    pub cursor: int,
    pub breaks: int,
    pub col: int,
}

impl Scan {
    /// This scan with `first` in front of its tokens.
    pub open spec fn after(self, first: Seq<TokenView>) -> Scan {
        Scan { tokens: first + self.tokens, ..self }
    }
}

/// The position of line break count `breaks` and column `col`.
pub open spec fn position_at(breaks: int, col: int) -> Position {
    Position { line: (breaks + 1) as usize, col: col as usize }
}

/// The scan of `src` from index `i` on, `breaks` line breaks and `col` columns
/// into the text.
pub open spec fn scan(
    src: Seq<char>,
    classes: Seq<CharClass>,
    i: int,
    breaks: int,
    col: int,
) -> Scan
    decreases src.len() - i,
{
    if !(0 <= i < src.len()) {
        Scan { tokens: Seq::empty(), end: Ending::Complete, cursor: i, breaks, col }
    } else {
        match lexeme_at(src, classes, i) {
            Lexeme::Newline => scan(src, classes, i + 1, breaks + 1, 0),
            Lexeme::Space => scan(src, classes, i + 1, breaks, col + 1),
            Lexeme::Token { kind, width, shift } => {
                if 1 <= width && i + width <= src.len() {
                    let token = TokenView {
                        start: position_at(breaks, col + shift),
                        len: width as usize,
                        kind,
                    };
                    scan(src, classes, i + width, breaks, col + width).after(seq![token])
                } else {
                    Scan { tokens: Seq::empty(), end: Ending::Stuck, cursor: i, breaks, col }
                }
            },
            Lexeme::Unrecognised(c) => Scan {
                tokens: Seq::empty(),
                end: Ending::Unrecognised(c, position_at(breaks, col + 1)),
                cursor: i + 1,
                breaks,
                col: col + 1,
            },
            Lexeme::Stuck => Scan {
                tokens: Seq::empty(),
                end: Ending::Stuck,
                cursor: i,
                breaks,
                col,
            },
        }
    }
}

/// A token is never read from nothing, and never from more than is left.
pub proof fn lemma_lexeme_width(src: Seq<char>, classes: Seq<CharClass>, i: int)
    requires
        0 <= i < src.len(),
    ensures
        lexeme_at(src, classes, i) matches Lexeme::Token { width, shift, .. } ==> {
            &&& 1 <= width
            &&& i + width <= src.len()
            &&& shift <= 1
        },
{
    lemma_run_bounded(src, classes, i + 1, Run::Quoted);
    lemma_run_bounded(src, classes, i + 1, Run::Digits);
    lemma_run_bounded(src, classes, i + 1, Run::Word);
}

/// A run ends inside the source.
pub proof fn lemma_run_bounded(src: Seq<char>, classes: Seq<CharClass>, i: int, run: Run)
    requires
        0 <= i <= src.len(),
    ensures
        i + run_length(src, classes, i, run) <= src.len(),
    decreases src.len() - i,
{
    if i < src.len() && i < classes.len() && run.takes(src[i], classes[i]) {
        lemma_run_bounded(src, classes, i + 1, run);
    }
}

/// The lexer's state, as mathematics.
pub struct LexerView {
    /// The whole source text.
    pub source: Seq<char>,
    /// The class of each character of the source.
    pub classes: Seq<CharClass>,
    /// How many characters have been consumed.
    pub cursor: int,
    /// How many line breaks have been passed.
    pub breaks: int,
    /// The running column.
    pub col: int,
    /// The tokens read so far.
    pub tokens: Seq<TokenView>,
}

/// The lexer: the source, how far it has been read, and the tokens read so
/// far.
#[derive(Debug)]
pub struct Lexer {
    chars: Vec<char>,
    classes: Vec<CharClass>,
    source: String,
    cursor: usize,
    breaks: usize,
    col: usize,
    pub tokens: Vec<Token>,
}

impl View for Lexer {
    type V = LexerView;

    closed spec fn view(&self) -> LexerView {
        LexerView {
            source: self.source@,
            classes: self.classes@,
            cursor: self.cursor as int,
            breaks: self.breaks as int,
            col: self.col as int,
            tokens: tokens_view(self.tokens@),
        }
    }
}

impl Clone for Lexer {
    fn clone(&self) -> (copy: Self)
        ensures
            copy@ == self@,
            copy.wf() == self.wf(),
    {
        let mut tokens: Vec<Token> = Vec::new();
        let mut i: usize = 0;
        while i < self.tokens.len()
            invariant
                i <= self.tokens.len(),
                tokens@.len() == i,
                forall|j: int| 0 <= j < i ==> (#[trigger] tokens@[j])@ == self.tokens@[j]@,
            decreases self.tokens.len() - i,
        {
            tokens.push(self.tokens[i].clone());
            i += 1;
        }
        let copy = Lexer {
            chars: self.chars.clone(),
            classes: self.classes.clone(),
            source: self.source.clone(),
            cursor: self.cursor,
            breaks: self.breaks,
            col: self.col,
            tokens,
        };
        assert(copy@.tokens =~= self@.tokens);
        copy
    }
}

impl Lexer {
    /// The lexer's validity: the cursor is inside the source, and neither
    /// the line breaks nor the columns outnumber the characters consumed.
    pub closed spec fn wf(&self) -> bool {
        &&& self.chars@ == self.source@
        &&& self.classes.len() == self.chars.len()
        &&& self.cursor <= self.chars.len()
        &&& self.breaks <= self.cursor
        &&& self.col <= self.cursor
    }

    /// The scan of what is left of the source.
    pub open spec fn pending(&self) -> Scan {
        scan(self@.source, self@.classes, self@.cursor, self@.breaks, self@.col)
    }

    /// Whether the lexer has an answer for what is left of the source.
    pub open spec fn lexable(&self) -> bool {
        self.pending().end != Ending::Stuck
    }

    /// A lexer at the start of `input`: line 1, column 0, no tokens.
    pub fn new(input: String) -> (lexer: Self)
        ensures
            lexer.wf(),
            lexer@ == (LexerView {
                source: input@,
                classes: classes_of(input@),
                cursor: 0,
                breaks: 0,
                col: 0,
                tokens: Seq::empty(),
            }),
    {
        let chars = chars_of(input.as_str());
        let mut classes: Vec<CharClass> = Vec::new();
        let mut i: usize = 0;
        while i < chars.len()
            invariant
                i <= chars.len(),
                classes@.len() == i,
                forall|j: int| 0 <= j < i ==> classes@[j] == class_of(chars@[j]),
            decreases chars.len() - i,
        {
            classes.push(classify(chars[i]));
            i += 1;
        }
        assert(classes@ =~= classes_of(chars@));
        Lexer::with_classes(input, classes)
    }

    /// A lexer at the start of `input` that takes the class of each
    /// character from `classes` instead of looking it up: the caller says
    /// over which characters words and numbers go on.
    pub fn with_classes(input: String, classes: Vec<CharClass>) -> (lexer: Self)
        requires
            classes@.len() == input@.len(),
        ensures
            lexer.wf(),
            lexer@ == (LexerView {
                source: input@,
                classes: classes@,
                cursor: 0,
                breaks: 0,
                col: 0,
                tokens: Seq::empty(),
            }),
    {
        let lexer = Self {
            chars: chars_of(input.as_str()),
            classes,
            source: input,
            cursor: 0,
            breaks: 0,
            col: 0,
            tokens: Vec::new(),
        };
        assert(lexer@.tokens =~= Seq::empty());
        lexer
    }

    /// Reads what is left of the source into tokens, which are added to
    /// `tokens`. It stops with an error at the first character that starts
    /// nothing, with that character consumed.
    pub fn lex(&mut self) -> (r: Result<(), LexerError>)
        requires
            old(self).wf(),
            old(self).lexable(),
        ensures
            final(self).wf(),
            final(self)@ == (LexerView {
                source: old(self)@.source,
                classes: old(self)@.classes,
                cursor: old(self).pending().cursor,
                breaks: old(self).pending().breaks,
                col: old(self).pending().col,
                tokens: old(self)@.tokens + old(self).pending().tokens,
            }),
            match old(self).pending().end {
                Ending::Complete => r is Ok,
                Ending::Unrecognised(c, at) => r matches Err(e) && e@
                    == LexerErrorView::UnrecognisedCharacter(c, at, old(self)@.source),
                Ending::Stuck => false,
            },
    {
        match self.run() {
            Ending::Complete => Ok(()),
            Ending::Unrecognised(c, at) => Err(
                LexerError::UnrecognisedCharacter(c, at, self.source.clone()),
            ),
            Ending::Stuck => vstd::pervasive::unreached(),
        }
    }

    /// Whether [`Lexer::lex`] has an answer for what is left of the source.
    pub fn is_lexable(&self) -> (b: bool)
        requires
            self.wf(),
        ensures
            b == self.lexable(),
    {
        let mut probe = Lexer {
            chars: self.chars.clone(),
            classes: self.classes.clone(),
            source: self.source.clone(),
            cursor: self.cursor,
            breaks: self.breaks,
            col: self.col,
            tokens: Vec::new(),
        };
        match probe.run() {
            Ending::Stuck => false,
            _ => true,
        }
    }

    /// As [`Lexer::lex`], for any source: `None`, with the lexer unchanged,
    /// where `lex` has no answer for what is left of the source.
    pub fn try_lex(&mut self) -> (r: Option<Result<(), LexerError>>)
        requires
            old(self).wf(),
        ensures
            final(self).wf(),
            !old(self).lexable() ==> r is None && final(self)@ == old(self)@,
            old(self).lexable() ==> r is Some && final(self)@ == (LexerView {
                source: old(self)@.source,
                classes: old(self)@.classes,
                cursor: old(self).pending().cursor,
                breaks: old(self).pending().breaks,
                col: old(self).pending().col,
                tokens: old(self)@.tokens + old(self).pending().tokens,
            }),
            match old(self).pending().end {
                Ending::Complete => r matches Some(Ok(_)),
                Ending::Unrecognised(c, at) => r matches Some(Err(e)) && e@
                    == LexerErrorView::UnrecognisedCharacter(c, at, old(self)@.source),
                Ending::Stuck => r is None,
            },
    {
        if self.is_lexable() {
            Some(self.lex())
        } else {
            None
        }
    }

    /// The tokens read so far, handed over.
    pub fn into_tokens(self) -> (tokens: Vec<Token>)
        ensures
            tokens_view(tokens@) == self@.tokens,
    {
        self.tokens
    }

    /// The kinds of the tokens read so far.
    pub fn token_kinds(&self) -> (kinds: Vec<TokenKind>)
        ensures
            kinds@.len() == self@.tokens.len(),
            forall|i: int|
                0 <= i < kinds@.len() ==> (#[trigger] kinds@[i])@ == self@.tokens[i].kind,
    {
        let mut kinds: Vec<TokenKind> = Vec::new();
        let mut i: usize = 0;
        while i < self.tokens.len()
            invariant
                i <= self.tokens.len(),
                kinds@.len() == i,
                forall|j: int| 0 <= j < i ==> (#[trigger] kinds@[j])@ == self.tokens@[j].kind@,
            decreases self.tokens.len() - i,
        {
            kinds.push(self.tokens[i].kind.clone());
            i += 1;
        }
        kinds
    }

    /// Scans what is left of the source.
    fn run(&mut self) -> (end: Ending)
        requires
            old(self).wf(),
        ensures
            final(self).wf(),
            end == old(self).pending().end,
            end != Ending::Stuck ==> final(self)@ == (LexerView {
                source: old(self)@.source,
                classes: old(self)@.classes,
                cursor: old(self).pending().cursor,
                breaks: old(self).pending().breaks,
                col: old(self).pending().col,
                tokens: old(self)@.tokens + old(self).pending().tokens,
            }),
    {
        let ghost total = self.pending();
        let ghost before = self@.tokens;
        let ghost src = self@.source;
        let ghost classes = self@.classes;
        let ghost mut seen: Seq<TokenView> = Seq::empty();
        while self.cursor < self.chars.len()
            invariant
                self.wf(),
                total == old(self).pending(),
                before == old(self)@.tokens,
                src == old(self)@.source,
                classes == old(self)@.classes,
                self@.source == src,
                self@.classes == classes,
                self@.tokens == before + seen,
                self.pending().after(seen) == total,
            decreases self.chars.len() - self.cursor,
        {
            let ghost here = self@;
            let ghost rest = self.pending();
            let c: char = self.peek_char();
            proof {
                lemma_lexeme_width(src, classes, here.cursor);
            }
            let ok: bool = if c == '\n' || c == '\r' {
                self.cursor += 1;
                self.breaks += 1;
                self.col = 0;
                true
            } else if c == ' ' {
                self.pop_char();
                true
            } else if c == '=' || c == '<' || c == '>' || c == '+' || c == '-' || c == '*' || c
                == '/' || c == '%' {
                self.symbol(c)
            } else if c == '(' {
                self.push_symbol(SymbolKind::LeftBracket, 1, 1);
                true
            } else if c == ')' {
                self.push_symbol(SymbolKind::RightBracket, 1, 1);
                true
            } else if c == '[' {
                self.push_symbol(SymbolKind::LeftSqBracket, 1, 1);
                true
            } else if c == ']' {
                self.push_symbol(SymbolKind::RightSqBracket, 1, 1);
                true
            } else if c == '.' {
                self.push_symbol(SymbolKind::Dot, 1, 1);
                true
            } else if c == '"' {
                self.string();
                true
            } else if '0' <= c && c <= '9' {
                self.numeric()
            } else if ('a' <= c && c <= 'z') || ('A' <= c && c <= 'Z') || c == '_' {
                self.ident_or_keyword();
                true
            } else {
                self.pop_char();
                let at = Position::new(self.breaks + 1, self.col);
                return Ending::Unrecognised(c, at);
            };
            if !ok {
                return Ending::Stuck;
            }
            proof {
                match lexeme_at(src, classes, here.cursor) {
                    Lexeme::Token { kind, width, shift } => {
                        let token = TokenView {
                            start: position_at(here.breaks, here.col + shift),
                            len: width as usize,
                            kind,
                        };
                        assert(seen + rest.tokens =~= seen.push(token) + self.pending().tokens);
                        seen = seen.push(token);
                    },
                    _ => {},
                }
            }
        }
        Ending::Complete
    }

    /// Reads the symbol that starts with the operator character `first`,
    /// alone or with an `=` after it. It finds no symbol for `* / %` with an
    /// `=` after them, and says so by returning `false`.
    fn symbol(&mut self, first: char) -> (ok: bool)
        requires
            old(self).wf(),
            old(self)@.cursor < old(self)@.source.len(),
            old(self)@.source[old(self)@.cursor] == first,
            operator_symbol(first) is Some,
        ensures
            final(self).wf(),
            final(self).followed(*old(self), ok),
    {
        let peek: Option<char> = self.char_after();
        let followed_by_equals: bool = match peek {
            Some(next) => next == '=',
            None => false,
        };
        let kind: Option<SymbolKind> = if followed_by_equals {
            if first == '=' {
                Some(SymbolKind::DoubleEquals)
            } else if first == '<' {
                Some(SymbolKind::LessEquals)
            } else if first == '>' {
                Some(SymbolKind::GreaterEquals)
            } else if first == '+' {
                Some(SymbolKind::PlusEqual)
            } else if first == '-' {
                Some(SymbolKind::MinusEqual)
            } else {
                None
            }
        } else if first == '=' {
            Some(SymbolKind::Equals)
        } else if first == '<' {
            Some(SymbolKind::Less)
        } else if first == '>' {
            Some(SymbolKind::Greater)
        } else if first == '+' {
            Some(SymbolKind::Plus)
        } else if first == '-' {
            Some(SymbolKind::Minus)
        } else if first == '*' {
            Some(SymbolKind::Multiply)
        } else if first == '/' {
            Some(SymbolKind::Divide)
        } else {
            Some(SymbolKind::Mod)
        };
        let width: usize = if followed_by_equals {
            2
        } else {
            1
        };
        match kind {
            Some(symbol) => {
                self.push_symbol(symbol, width, 0);
                true
            },
            None => false,
        }
    }

    /// Reads the string literal that opens at the cursor: everything up to
    /// the next double quote, or to the end of the source.
    fn string(&mut self)
        requires
            old(self).wf(),
            old(self)@.cursor < old(self)@.source.len(),
            old(self)@.source[old(self)@.cursor] == '"',
        ensures
            final(self).wf(),
            final(self).followed(*old(self), true),
    {
        let from: usize = self.cursor + 1;
        let to: usize = self.run_end(from, Run::Quoted);
        let content = text_of(&self.chars, from, to);
        let width: usize = if to < self.chars.len() {
            to - self.cursor + 1
        } else {
            to - self.cursor
        };
        self.push_string(content, width);
    }

    /// Reads the number that starts at the cursor. It has no answer for a
    /// run that is no unsigned 64-bit decimal, and says so by returning
    /// `false`.
    fn numeric(&mut self) -> (ok: bool)
        requires
            old(self).wf(),
            old(self)@.cursor < old(self)@.source.len(),
            is_digit(old(self)@.source[old(self)@.cursor]),
        ensures
            final(self).wf(),
            final(self).followed(*old(self), ok),
    {
        let to: usize = self.run_end(self.cursor + 1, Run::Digits);
        match read_decimal(&self.chars, self.cursor, to) {
            Some(number) => {
                self.push_number(number, to - self.cursor);
                true
            },
            None => false,
        }
    }

    /// Reads the word that starts at the cursor: a keyword where it spells
    /// one, an identifier otherwise.
    fn ident_or_keyword(&mut self)
        requires
            old(self).wf(),
            old(self)@.cursor < old(self)@.source.len(),
            starts_word(old(self)@.source[old(self)@.cursor]),
        ensures
            final(self).wf(),
            final(self).followed(*old(self), true),
    {
        let from: usize = self.cursor;
        let to: usize = self.run_end(from + 1, Run::Word);
        let width: usize = to - from;
        if spells(&self.chars, from, to, "do") {
            self.push_keyword(KeywordKind::Do, width);
        } else if spells(&self.chars, from, to, "while") {
            self.push_keyword(KeywordKind::While, width);
        } else if spells(&self.chars, from, to, "endwhile") {
            self.push_keyword(KeywordKind::EndWhile, width);
        } else if spells(&self.chars, from, to, "if") {
            self.push_keyword(KeywordKind::If, width);
        } else if spells(&self.chars, from, to, "else") {
            self.push_keyword(KeywordKind::Else, width);
        } else if spells(&self.chars, from, to, "endif") {
            self.push_keyword(KeywordKind::EndIf, width);
        } else if spells(&self.chars, from, to, "break") {
            self.push_keyword(KeywordKind::Break, width);
        } else if spells(&self.chars, from, to, "array") {
            self.push_keyword(KeywordKind::Array, width);
        } else {
            let ident = text_of(&self.chars, from, to);
            self.push_ident(ident, width);
        }
    }

    /// What one step from `before` gives: with `ok`, the token that stands
    /// at `before`'s cursor is added and its characters are consumed;
    /// without, nothing stands there that the lexer has an answer for.
    pub open spec fn followed(&self, before: Lexer, ok: bool) -> bool {
        let lexeme = lexeme_at(before@.source, before@.classes, before@.cursor);
        if ok {
            &&& lexeme matches Lexeme::Token { kind, width, shift }
            &&& self@ == (LexerView {
                source: before@.source,
                classes: before@.classes,
                cursor: before@.cursor + width,
                breaks: before@.breaks,
                col: before@.col + width,
                tokens: before@.tokens.push(
                    TokenView {
                        start: position_at(before@.breaks, before@.col + shift),
                        len: width as usize,
                        kind,
                    },
                ),
            })
        } else {
            lexeme is Stuck
        }
    }

    /// Adds a token of the given kind, read from the `width` characters at
    /// the cursor, and consumes them.
    fn push_token(&mut self, kind: TokenKind, width: usize, shift: usize)
        requires
            old(self).wf(),
            1 <= width,
            shift <= 1,
            old(self)@.cursor + width <= old(self)@.source.len(),
        ensures
            final(self).wf(),
            final(self)@ == (LexerView {
                source: old(self)@.source,
                classes: old(self)@.classes,
                cursor: old(self)@.cursor + width,
                breaks: old(self)@.breaks,
                col: old(self)@.col + width,
                tokens: old(self)@.tokens.push(
                    TokenView {
                        start: position_at(old(self)@.breaks, old(self)@.col + shift),
                        len: width,
                        kind: kind@,
                    },
                ),
            }),
    {
        let start = Position::new(self.breaks + 1, self.col + shift);
        self.tokens.push(Token::new(kind, start, width));
        self.cursor += width;
        self.col += width;
        assert(self@.tokens =~= old(self)@.tokens.push(
            TokenView {
                start: position_at(old(self)@.breaks, old(self)@.col + shift),
                len: width,
                kind: kind@,
            },
        ));
    }

    /// Pushes a symbol token onto our list of tokens
    fn push_symbol(&mut self, symbol: SymbolKind, width: usize, shift: usize)
        requires
            old(self).wf(),
            1 <= width,
            shift <= 1,
            old(self)@.cursor + width <= old(self)@.source.len(),
            lexeme_at(old(self)@.source, old(self)@.classes, old(self)@.cursor) == (Lexeme::Token {
                kind: TokenKindView::Symbol(symbol),
                width: width as nat,
                shift: shift as nat,
            }),
        ensures
            final(self).wf(),
            final(self).followed(*old(self), true),
    {
        self.push_token(TokenKind::Symbol(symbol), width, shift);
    }

    /// Pushes a string token onto our list of tokens
    fn push_string(&mut self, string: String, width: usize)
        requires
            old(self).wf(),
            1 <= width,
            old(self)@.cursor + width <= old(self)@.source.len(),
            lexeme_at(old(self)@.source, old(self)@.classes, old(self)@.cursor) == (Lexeme::Token {
                kind: TokenKindView::String(string@),
                width: width as nat,
                shift: 0,
            }),
        ensures
            final(self).wf(),
            final(self).followed(*old(self), true),
    {
        self.push_token(TokenKind::String(string), width, 0);
    }

    /// Pushes a number token onto our list of tokens
    fn push_number(&mut self, number: Num, width: usize)
        requires
            old(self).wf(),
            1 <= width,
            old(self)@.cursor + width <= old(self)@.source.len(),
            lexeme_at(old(self)@.source, old(self)@.classes, old(self)@.cursor) == (Lexeme::Token {
                kind: TokenKindView::Number(number),
                width: width as nat,
                shift: 0,
            }),
        ensures
            final(self).wf(),
            final(self).followed(*old(self), true),
    {
        self.push_token(TokenKind::Number(number), width, 0);
    }

    /// Pushes a keyword token onto our list of tokens
    fn push_keyword(&mut self, keyword: KeywordKind, width: usize)
        requires
            old(self).wf(),
            1 <= width,
            old(self)@.cursor + width <= old(self)@.source.len(),
            lexeme_at(old(self)@.source, old(self)@.classes, old(self)@.cursor) == (Lexeme::Token {
                kind: TokenKindView::Keyword(keyword),
                width: width as nat,
                shift: 0,
            }),
        ensures
            final(self).wf(),
            final(self).followed(*old(self), true),
    {
        self.push_token(TokenKind::Keyword(keyword), width, 0);
    }

    /// Pushes an identifier token onto our list of tokens
    fn push_ident(&mut self, ident: String, width: usize)
        requires
            old(self).wf(),
            1 <= width,
            old(self)@.cursor + width <= old(self)@.source.len(),
            lexeme_at(old(self)@.source, old(self)@.classes, old(self)@.cursor) == (Lexeme::Token {
                kind: TokenKindView::Ident(ident@),
                width: width as nat,
                shift: 0,
            }),
        ensures
            final(self).wf(),
            final(self).followed(*old(self), true),
    {
        self.push_token(TokenKind::Ident(ident), width, 0);
    }

    /// Where the run of the given kind that starts at `from` ends.
    fn run_end(&self, from: usize, run: Run) -> (to: usize)
        requires
            self.wf(),
            from <= self@.source.len(),
        ensures
            to == from + run_length(self@.source, self@.classes, from as int, run),
            from <= to <= self@.source.len(),
    {
        let mut to: usize = from;
        while to < self.chars.len() && run.goes_on(self.chars[to], self.classes[to])
            invariant
                self.wf(),
                from <= to <= self.chars@.len(),
                from + run_length(self@.source, self@.classes, from as int, run) == to
                    + run_length(self@.source, self@.classes, to as int, run),
            decreases self.chars.len() - to,
        {
            to += 1;
        }
        to
    }

    /// The character at the cursor.
    fn peek_char(&self) -> (c: char)
        requires
            self.wf(),
            self@.cursor < self@.source.len(),
        ensures
            c == self@.source[self@.cursor],
    {
        self.chars[self.cursor]
    }

    /// The character after the one at the cursor, if there is one.
    fn char_after(&self) -> (c: Option<char>)
        requires
            self.wf(),
            self@.cursor < self@.source.len(),
        ensures
            c == if self@.cursor + 1 < self@.source.len() {
                Some(self@.source[self@.cursor + 1])
            } else {
                None
            },
    {
        if self.cursor + 1 < self.chars.len() {
            Some(self.chars[self.cursor + 1])
        } else {
            None
        }
    }

    /// Consumes the character at the cursor, which stays on its line.
    fn pop_char(&mut self) -> (c: char)
        requires
            old(self).wf(),
            old(self)@.cursor < old(self)@.source.len(),
        ensures
            final(self).wf(),
            c == old(self)@.source[old(self)@.cursor],
            final(self)@ == (LexerView {
                cursor: old(self)@.cursor + 1,
                col: old(self)@.col + 1,
                ..old(self)@
            }),
    {
        let c: char = self.chars[self.cursor];
        self.cursor += 1;
        self.col += 1;
        c
    }
}

} // verus!
