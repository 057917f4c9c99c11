//! The two diagnostics that carry a position, and their rendering as a
//! numbered source line with carets under the offending span.

use vstd::prelude::*;

use crate::lexer::{Token, TokenView};
use crate::text::{chars_of, decimal_digits, push_decimal, text_of, whole_text};
use crate::{push_text, Position};

verus! {

/// What stops the lexer.
#[derive(Debug)]
pub enum LexerError {
    /// The character, the position just after it, and the whole source.
    UnrecognisedCharacter(char, Position, String),
}

/// What a [`LexerError`] is, as mathematics.
pub enum LexerErrorView {
    UnrecognisedCharacter(char, Position, Seq<char>),
}

impl View for LexerError {
    type V = LexerErrorView;

    open spec fn view(&self) -> LexerErrorView {
        match self {
            LexerError::UnrecognisedCharacter(c, at, source) => {
                LexerErrorView::UnrecognisedCharacter(*c, *at, source@)
            },
        }
    }
}

impl Clone for LexerError {
    fn clone(&self) -> (r: Self)
        ensures
            r@ == self@,
    {
        match self {
            LexerError::UnrecognisedCharacter(c, at, source) => {
                LexerError::UnrecognisedCharacter(*c, *at, source.clone())
            },
        }
    }
}

/// What stops the parser.
#[derive(Debug)]
pub enum ParserError {
    /// The token that starts no statement, and the whole source.
    InvalidTokenInBlock(Token, String),
}

/// What a [`ParserError`] is, as mathematics.
pub enum ParserErrorView {
    InvalidTokenInBlock(TokenView, Seq<char>),
}

impl View for ParserError {
    type V = ParserErrorView;

    open spec fn view(&self) -> ParserErrorView {
        match self {
            ParserError::InvalidTokenInBlock(token, source) => {
                ParserErrorView::InvalidTokenInBlock(token@, source@)
            },
        }
    }
}

impl Clone for ParserError {
    fn clone(&self) -> (r: Self)
        ensures
            r@ == self@,
    {
        match self {
            ParserError::InvalidTokenInBlock(token, source) => {
                ParserError::InvalidTokenInBlock(token.clone(), source.clone())
            },
        }
    }
}

/// Why a running program was stopped. Nothing recovers from any of these.
#[derive(Clone, Copy, Debug, PartialEq, Eq, Structural)]
pub enum RuntimeError {
    /// A value of the wrong type: an operator on a number and a boolean, a
    /// condition that is no boolean, an index or a size that is no number,
    /// an indexed variable that is no array, text that is no number where
    /// one is read, or a call without a result where a value is needed.
    TypeMismatch,
    /// A variable that was never assigned, or a function that is not built
    /// in.
    UndefinedVariable,
    /// An index at or beyond an array's length, or a length beyond what the
    /// machine can hold.
    IndexOutOfRange,
    /// A built-in called with a number of arguments that it does not take.
    ArityMismatch,
    /// A node where it has no meaning (an expression as a statement, a
    /// statement as an expression), a name other than `length` after a dot, or
    /// arithmetic without a result: a sum or product beyond 64 bits, a
    /// difference below zero, a division by zero.
    UnsupportedOperator,
}

/// `n` copies of `c`.
pub open spec fn repeated(c: char, n: nat) -> Seq<char> {
    Seq::new(n, |i: int| c)
}

/// The index of the first line feed at or after `from`, or the length of the
/// text where there is none.
pub open spec fn line_end(src: Seq<char>, from: int) -> int
    decreases src.len() - from,
{
    if from < 0 || from >= src.len() {
        src.len() as int
    } else if src[from] == '\n' {
        from
    } else {
        line_end(src, from + 1)
    }
}

/// Where line `n` of the text starts, counted from zero, if the text has
/// that many lines. A line ends with a line feed or with the text; what
/// follows the last line feed is a line only if it is not empty.
pub open spec fn line_start(src: Seq<char>, n: nat) -> Option<int>
    decreases n,
{
    if n == 0 {
        if src.len() > 0 {
            Some(0)
        } else {
            None
        }
    } else {
        match line_start(src, (n - 1) as nat) {
            Some(start) => if line_end(src, start) + 1 < src.len() {
                Some(line_end(src, start) + 1)
            } else {
                None
            },
            None => None,
        }
    }
}

/// Line `n` of the text, counted from zero, without the line feed that ends
/// it and without a carriage return just before that line feed.
pub open spec fn nth_line(src: Seq<char>, n: nat) -> Option<Seq<char>> {
    match line_start(src, n) {
        Some(start) => {
            let end = line_end(src, start);
            if end < src.len() && start < end && src[end - 1] == '\r' {
                Some(src.subrange(start, end - 1))
            } else {
                Some(src.subrange(start, end))
            }
        },
        None => None,
    }
}

/// Whether a position can be shown in a source: its line, counted from one,
/// is a line of the source.
pub open spec fn locatable(at: Position, src: Seq<char>) -> bool {
    at.line >= 1 && nth_line(src, (at.line - 1) as nat) is Some
}

/// The line number with its separator.
pub open spec fn line_number_text(line: nat) -> Seq<char> {
    decimal_digits(line) + " | "@
}

/// The blank margin as wide as the line number, with its separator.
pub open spec fn line_number_pad(line: nat) -> Seq<char> {
    repeated(' ', decimal_digits(line).len()) + " | "@
}

/// The pointer under a span: blanks up to the column before `col`, then
/// `len` carets.
pub open spec fn pointer_text(col: nat, len: nat) -> Seq<char> {
    repeated(
        ' ',
        if col >= 1 {
            (col - 1) as nat
        } else {
            0
        },
    ) + repeated('^', len)
}

/// The excerpt for a span: an empty margin line, the numbered source line,
/// and the pointer under the span.
pub open spec fn position_text(at: Position, len: nat, src: Seq<char>) -> Seq<char>
    recommends
        locatable(at, src),
{
    line_number_pad(at.line as nat) + "\n"@ + line_number_text(at.line as nat) + nth_line(
        src,
        (at.line - 1) as nat,
    )->0 + "\n"@ + line_number_pad(at.line as nat) + pointer_text(at.col as nat, len)
}

impl LexerErrorView {
    /// Whether the error's position is on a line of its source.
    pub open spec fn renderable(self) -> bool {
        match self {
            LexerErrorView::UnrecognisedCharacter(_, at, source) => locatable(at, source),
        }
    }

    /// The rendered error: a headline, then the excerpt with one caret.
    pub open spec fn text(self) -> Seq<char> {
        match self {
            LexerErrorView::UnrecognisedCharacter(_, at, source) => "Unrecognised Character\n"@
                + position_text(at, 1, source),
        }
    }
}

impl ParserErrorView {
    /// Whether the token's position is on a line of the source.
    pub open spec fn renderable(self) -> bool {
        match self {
            ParserErrorView::InvalidTokenInBlock(token, source) => locatable(token.start, source),
        }
    }

    /// The rendered error: a headline, then the excerpt with carets under
    /// the whole token.
    pub open spec fn text(self) -> Seq<char> {
        match self {
            ParserErrorView::InvalidTokenInBlock(token, source) =>
                "Invalid statement at the root of block\n"@ + position_text(
                    token.start,
                    token.len as nat,
                    source,
                ),
        }
    }
}

impl LexerError {
    /// Whether [`LexerError::to_string`] can show this error.
    pub fn is_renderable(&self) -> (b: bool)
        ensures
            b == self@.renderable(),
    {
        match self {
            LexerError::UnrecognisedCharacter(_, at, source) => is_locatable(at, source),
        }
    }

    /// The rendered error.
    pub fn to_string(&self) -> (s: String)
        requires
            self@.renderable(),
        ensures
            s@ == self@.text(),
    {
        match self {
            LexerError::UnrecognisedCharacter(_, at, source) => {
                let mut out: Vec<char> = Vec::new();
                push_text(&mut out, "Unrecognised Character\n");
                write_position(&mut out, at, 1, source);
                whole_text(&out)
            },
        }
    }
}

impl ParserError {
    /// Whether [`ParserError::to_string`] can show this error.
    pub fn is_renderable(&self) -> (b: bool)
        ensures
            b == self@.renderable(),
    {
        match self {
            ParserError::InvalidTokenInBlock(token, source) => is_locatable(&token.start, source),
        }
    }

    /// The rendered error.
    pub fn to_string(&self) -> (s: String)
        requires
            self@.renderable(),
        ensures
            s@ == self@.text(),
    {
        match self {
            ParserError::InvalidTokenInBlock(token, source) => {
                let mut out: Vec<char> = Vec::new();
                push_text(&mut out, "Invalid statement at the root of block\n");
                write_position(&mut out, &token.start, token.len, source);
                whole_text(&out)
            },
        }
    }
}

/// Appends `n` copies of `c`.
fn push_repeated(out: &mut Vec<char>, c: char, n: usize)
    ensures
        final(out)@ == old(out)@ + repeated(c, n as nat),
{
    let mut i: usize = 0;
    while i < n
        invariant
            i <= n,
            out@ == old(out)@ + repeated(c, i as nat),
        decreases n - i,
    {
        out.push(c);
        i += 1;
    }
}

/// Whether a position can be shown in a source.
fn is_locatable(at: &Position, input: &String) -> (b: bool)
    ensures
        b == locatable(*at, input@),
{
    if at.line == 0 {
        return false;
    }
    let chars = chars_of(input.as_str());
    find_line(&chars, at.line - 1).is_some()
}

/// The index of the first line feed at or after `from`, or the length of the
/// text.
fn find_line_end(chars: &Vec<char>, from: usize) -> (end: usize)
    requires
        from <= chars.len(),
    ensures
        end == line_end(chars@, from as int),
        from <= end <= chars.len(),
{
    let mut end: usize = from;
    while end < chars.len() && chars[end] != '\n'
        invariant
            from <= end <= chars.len(),
            line_end(chars@, from as int) == line_end(chars@, end as int),
        decreases chars.len() - end,
    {
        end += 1;
    }
    end
}

/// Where line `n` starts, counted from zero, if there is such a line.
fn find_line(chars: &Vec<char>, n: usize) -> (start: Option<usize>)
    ensures
        match start {
            Some(s) => line_start(chars@, n as nat) == Some(s as int) && s < chars.len(),
            None => line_start(chars@, n as nat) is None,
        },
{
    if chars.len() == 0 {
        proof {
            lemma_no_lines(chars@, n as nat);
        }
        return None;
    }
    let mut start: usize = 0;
    let mut k: usize = 0;
    while k < n
        invariant
            k <= n,
            start < chars.len(),
            line_start(chars@, k as nat) == Some(start as int),
        decreases n - k,
    {
        let end: usize = find_line_end(chars, start);
        if end >= chars.len() - 1 {
            proof {
                lemma_lines_stop(chars@, (k + 1) as nat, n as nat);
            }
            return None;
        }
        start = end + 1;
        k += 1;
    }
    Some(start)
}

/// An empty text has no lines.
proof fn lemma_no_lines(src: Seq<char>, n: nat)
    requires
        src.len() == 0,
    ensures
        line_start(src, n) is None,
    decreases n,
{
    if n > 0 {
        lemma_no_lines(src, (n - 1) as nat);
    }
}

/// After the last line there are no more.
proof fn lemma_lines_stop(src: Seq<char>, k: nat, n: nat)
    requires
        line_start(src, k) is None,
        k <= n,
    ensures
        line_start(src, n) is None,
    decreases n,
{
    if k < n {
        lemma_lines_stop(src, k, (n - 1) as nat);
    }
}

/// Appends the excerpt for a span.
fn write_position(out: &mut Vec<char>, position: &Position, len: usize, input: &String)
    requires
        locatable(*position, input@),
    ensures
        final(out)@ == old(out)@ + position_text(*position, len as nat, input@),
{
    let line = offending_line(position.line, input);
    line_number_strings(out, position.line, false);
    push_text(out, "\n");
    line_number_strings(out, position.line, true);
    push_text(out, line.as_str());
    push_text(out, "\n");
    line_number_strings(out, position.line, false);
    pointer_string(out, position.col, len);
}

/// Line `line` of the source, counted from one.
fn offending_line(line: usize, input: &String) -> (text: String)
    requires
        line >= 1,
        nth_line(input@, (line - 1) as nat) is Some,
    ensures
        Some(text@) == nth_line(input@, (line - 1) as nat),
{
    let chars = chars_of(input.as_str());
    match find_line(&chars, line - 1) {
        Some(start) => {
            let end: usize = find_line_end(&chars, start);
            if end < chars.len() && start < end && chars[end - 1] == '\r' {
                text_of(&chars, start, end - 1)
            } else {
                text_of(&chars, start, end)
            }
        },
        None => vstd::pervasive::unreached(),
    }
}

/// Appends the pointer under a span.
fn pointer_string(out: &mut Vec<char>, col: usize, len: usize)
    ensures
        final(out)@ == old(out)@ + pointer_text(col as nat, len as nat),
{
    let blanks: usize = if col >= 1 {
        col - 1
    } else {
        0
    };
    push_repeated(out, ' ', blanks);
    push_repeated(out, '^', len);
}

/// Appends the margin for a line: its number where `numbered` is set, blanks
/// of the same width where it is not, and the separator.
fn line_number_strings(out: &mut Vec<char>, line: usize, numbered: bool)
    ensures
        final(out)@ == old(out)@ + if numbered {
            line_number_text(line as nat)
        } else {
            line_number_pad(line as nat)
        },
{
    let mut digits: Vec<char> = Vec::new();
    push_decimal(&mut digits, line as u64);
    if numbered {
        push_decimal(out, line as u64);
    } else {
        push_repeated(out, ' ', digits.len());
    }
    push_text(out, " | ");
}

} // verus!
