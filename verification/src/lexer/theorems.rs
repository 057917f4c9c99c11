//! What holds of a scan: the tokens' lengths account for the characters
//! they were read from, columns count characters, and the longer symbol
//! wins.

use vstd::prelude::*;

use crate::lexer::{
    compound_symbol, lemma_lexeme_width, lexeme_at, operator_symbol, scan, CharClass, Lexeme,
    TokenKindView, TokenView,
};

verus! {

/// How many blanks, spaces and line breaks, the scan from `i` passes.
pub open spec fn blanks(src: Seq<char>, classes: Seq<CharClass>, i: int) -> nat
    decreases src.len() - i,
{
    if !(0 <= i < src.len()) {
        0
    } else {
        match lexeme_at(src, classes, i) {
            Lexeme::Newline => 1 + blanks(src, classes, i + 1),
            Lexeme::Space => 1 + blanks(src, classes, i + 1),
            Lexeme::Token { width, .. } => if 1 <= width && i + width <= src.len() {
                blanks(src, classes, i + width)
            } else {
                0
            },
            _ => 0,
        }
    }
}

/// The lengths of the tokens, added up.
pub open spec fn total_len(tokens: Seq<TokenView>) -> nat
    decreases tokens.len(),
{
    if tokens.len() == 0 {
        0
    } else {
        (tokens[0].len + total_len(tokens.drop_first())) as nat
    }
}

/// A token's length is the number of characters it was read from: between
/// where a scan starts and where it stops, every character is a blank, or
/// one of the characters that the tokens' lengths count, or the one
/// character that the scan rejected.
pub proof fn lemma_lengths_account(
    src: Seq<char>,
    classes: Seq<CharClass>,
    i: int,
    breaks: int,
    col: int,
)
    requires
        0 <= i <= src.len(),
        src.len() <= usize::MAX,
    ensures
        ({
            let found = scan(src, classes, i, breaks, col);
            &&& i <= found.cursor <= src.len()
            &&& found.cursor - i == blanks(src, classes, i) + total_len(found.tokens) + if found.end
                is Unrecognised {
                1int
            } else {
                0int
            }
        }),
    decreases src.len() - i,
{
    if i < src.len() {
        lemma_lexeme_width(src, classes, i);
        match lexeme_at(src, classes, i) {
            Lexeme::Newline => lemma_lengths_account(src, classes, i + 1, breaks + 1, 0),
            Lexeme::Space => lemma_lengths_account(src, classes, i + 1, breaks, col + 1),
            Lexeme::Token { kind, width, shift } => {
                lemma_lengths_account(src, classes, i + width, breaks, col + width);
                let rest = scan(src, classes, i + width, breaks, col + width);
                let found = scan(src, classes, i, breaks, col);
                assert(found.tokens.drop_first() =~= rest.tokens);
            },
            _ => {},
        }
    }
}

/// The columns only count characters: a scan that passes no line break
/// moves the column by as many characters as it consumes.
pub proof fn lemma_columns_count_characters(
    src: Seq<char>,
    classes: Seq<CharClass>,
    i: int,
    breaks: int,
    col: int,
)
    requires
        0 <= i <= src.len(),
    ensures
        ({
            let found = scan(src, classes, i, breaks, col);
            found.breaks == breaks && !(found.end is Stuck) ==> found.col - col == found.cursor
                - i
        }),
    decreases src.len() - i,
{
    if i < src.len() {
        lemma_lexeme_width(src, classes, i);
        match lexeme_at(src, classes, i) {
            Lexeme::Newline => {
                lemma_breaks_grow(src, classes, i + 1, breaks + 1, 0);
            },
            Lexeme::Space => lemma_columns_count_characters(src, classes, i + 1, breaks, col + 1),
            Lexeme::Token { kind, width, shift } => {
                lemma_columns_count_characters(src, classes, i + width, breaks, col + width);
            },
            _ => {},
        }
    }
}

/// A scan never forgets a line break.
pub proof fn lemma_breaks_grow(
    src: Seq<char>,
    classes: Seq<CharClass>,
    i: int,
    breaks: int,
    col: int,
)
    requires
        0 <= i <= src.len(),
    ensures
        scan(src, classes, i, breaks, col).breaks >= breaks,
    decreases src.len() - i,
{
    if i < src.len() {
        lemma_lexeme_width(src, classes, i);
        match lexeme_at(src, classes, i) {
            Lexeme::Newline => lemma_breaks_grow(src, classes, i + 1, breaks + 1, 0),
            Lexeme::Space => lemma_breaks_grow(src, classes, i + 1, breaks, col + 1),
            Lexeme::Token { kind, width, shift } => {
                lemma_breaks_grow(src, classes, i + width, breaks, col + width);
            },
            _ => {},
        }
    }
}

/// Two-character symbols win over one-character ones: where an `=` follows
/// one of `= < > + -`, the two make one symbol; where anything else follows
/// one of `= < > + - * / %`, or nothing, the character alone is the symbol.
pub proof fn lemma_longest_symbol(src: Seq<char>, classes: Seq<CharClass>, i: int)
    requires
        0 <= i < src.len(),
        operator_symbol(src[i]) is Some,
    ensures
        i + 1 < src.len() && src[i + 1] == '=' && compound_symbol(src[i]) is Some ==> lexeme_at(
            src,
            classes,
            i,
        ) == (Lexeme::Token {
            kind: TokenKindView::Symbol(compound_symbol(src[i])->0),
            width: 2,
            shift: 0,
        }),
        !(i + 1 < src.len() && src[i + 1] == '=') ==> lexeme_at(src, classes, i) == (Lexeme::Token {
            kind: TokenKindView::Symbol(operator_symbol(src[i])->0),
            width: 1,
            shift: 0,
        }),
{
}

} // verus!
