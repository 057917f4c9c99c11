//! The parser: recursive descent over the token sequence. The right operand
//! of every operator is a whole expression, so chains of operators lean to
//! the right, and closing tokens are consumed without being looked at.

use vstd::prelude::*;

pub mod theorems;

use crate::ast::{lemma_block_view, nodes_view, Node, NodeView};
use crate::error::{ParserError, ParserErrorView};
use crate::lexer::{
    tokens_view, KeywordKind, SymbolKind, Token, TokenKind, TokenKindView, TokenView,
};
use crate::{Op, Position, Value, ValueView};

verus! {

/// A node that was parsed, and the index of the first token after it.
pub struct Step {
    pub node: NodeView,
    pub next: int,
}

/// What parsing a block gives.
pub enum BlockParse {
    /// The block's statements, and the index of the token that ended it (the
    /// number of tokens, where they ran out).
    Done(Seq<NodeView>, int),
    /// A token at the start of a statement that starts none, and its index.
    Invalid(TokenView, int),
    /// Tokens in a shape that no rule answers.
    Stuck,
}

impl BlockParse {
    /// This block with `first` in front of its statements.
    pub open spec fn after(self, first: Seq<NodeView>) -> BlockParse {
        match self {
            BlockParse::Done(rest, next) => BlockParse::Done(first + rest, next),
            other => other,
        }
    }
}

/// What parsing a program gives.
pub enum Parse {
    /// The statements of the root block, and the index of the token that
    /// ended it (the number of tokens, where they ran out).
    Program(Seq<NodeView>, int),
    /// A token at the start of a statement of the root block that starts
    /// none, and its index.
    Invalid(TokenView, int),
    /// Tokens in a shape that no rule answers.
    Stuck,
}

/// The rule that a statement's first tokens select.
pub enum Start {
    Assign,
    Call,
    IndexAssign,
    Dot,
    Array,
    If,
    While,
    /// `endif`, `endwhile` or `else`: the block ends before this token.
    End,
    /// A token that starts no statement.
    Invalid,
    /// An identifier with nothing after it, or with a token after it that
    /// selects no rule.
    Stuck,
}

/// The kind of the token at `pos`, if there is one.
pub open spec fn kind_at(ts: Seq<TokenView>, pos: int) -> Option<TokenKindView> {
    if 0 <= pos < ts.len() {
        Some(ts[pos].kind)
    } else {
        None
    }
}

/// Whether the token at `pos` is the given symbol.
pub open spec fn symbol_at(ts: Seq<TokenView>, pos: int, symbol: SymbolKind) -> bool {
    kind_at(ts, pos) == Some(TokenKindView::Symbol(symbol))
}

/// The name of the identifier at `pos`, if one stands there.
pub open spec fn ident_at(ts: Seq<TokenView>, pos: int) -> Option<Seq<char>> {
    match kind_at(ts, pos) {
        Some(TokenKindView::Ident(name)) => Some(name),
        _ => None,
    }
}

/// The operator that the token at `pos` is, if it is one that an expression
/// continues with: `+ - > >= < <= ==`.
pub open spec fn expr_operator_at(ts: Seq<TokenView>, pos: int) -> Option<Op> {
    match kind_at(ts, pos) {
        Some(TokenKindView::Symbol(SymbolKind::Plus)) => Some(Op::Plus),
        Some(TokenKindView::Symbol(SymbolKind::Minus)) => Some(Op::Minus),
        Some(TokenKindView::Symbol(SymbolKind::Greater)) => Some(Op::Greater),
        Some(TokenKindView::Symbol(SymbolKind::GreaterEquals)) => Some(Op::GreaterEqual),
        Some(TokenKindView::Symbol(SymbolKind::Less)) => Some(Op::Less),
        Some(TokenKindView::Symbol(SymbolKind::LessEquals)) => Some(Op::LessEqual),
        Some(TokenKindView::Symbol(SymbolKind::DoubleEquals)) => Some(Op::EqualTo),
        _ => None,
    }
}

/// The operator that the token at `pos` is, if it is one that a term
/// continues with: `* /`.
pub open spec fn term_operator_at(ts: Seq<TokenView>, pos: int) -> Option<Op> {
    match kind_at(ts, pos) {
        Some(TokenKindView::Symbol(SymbolKind::Multiply)) => Some(Op::Multiply),
        Some(TokenKindView::Symbol(SymbolKind::Divide)) => Some(Op::Divide),
        _ => None,
    }
}

/// A step counts only where it moved forward and stayed inside the tokens.
/// Every step that the rules below give does; see
/// [`theorems::lemma_steps_advance`].
pub open spec fn advance(ts: Seq<TokenView>, pos: int, step: Option<Step>) -> Option<Step> {
    match step {
        Some(s) => if pos < s.next <= ts.len() {
            step
        } else {
            None
        },
        None => None,
    }
}

/// A step that ends with one more token, which is consumed whatever it is.
pub open spec fn closed(ts: Seq<TokenView>, step: Step) -> Option<Step> {
    if step.next < ts.len() {
        Some(Step { node: step.node, next: step.next + 1 })
    } else {
        None
    }
}

/// A binary expression from its parts.
pub open spec fn binary(left: NodeView, operator: Op, right: NodeView) -> NodeView {
    NodeView::BinaryExpr { left: Box::new(left), operator, right: Box::new(right) }
}

/// `expr`: a term, then, where one of `+ - > >= < <= ==` follows, that
/// operator and a whole expression as its right side.
pub open spec fn spec_expr(ts: Seq<TokenView>, pos: int) -> Option<Step>
    decreases ts.len() - pos, 3nat,
{
    match advance(ts, pos, spec_term(ts, pos)) {
        None => None,
        Some(left) => match expr_operator_at(ts, left.next) {
            None => Some(left),
            Some(operator) => match spec_expr(ts, left.next + 1) {
                None => None,
                Some(right) => Some(
                    Step { node: binary(left.node, operator, right.node), next: right.next },
                ),
            },
        },
    }
}

/// `term`: a factor, then, where `*` or `/` follows, that operator and a
/// whole expression as its right side.
pub open spec fn spec_term(ts: Seq<TokenView>, pos: int) -> Option<Step>
    decreases ts.len() - pos, 2nat,
{
    match advance(ts, pos, spec_factor(ts, pos)) {
        None => None,
        Some(left) => match term_operator_at(ts, left.next) {
            None => Some(left),
            Some(operator) => match spec_expr(ts, left.next + 1) {
                None => None,
                Some(right) => Some(
                    Step { node: binary(left.node, operator, right.node), next: right.next },
                ),
            },
        },
    }
}

/// `factor`: a number, a string, an expression in round brackets, or what
/// starts with an identifier: a call, an array element, a dot expression or
/// a variable.
pub open spec fn spec_factor(ts: Seq<TokenView>, pos: int) -> Option<Step>
    decreases ts.len() - pos, 1nat,
{
    match kind_at(ts, pos) {
        Some(TokenKindView::Number(x)) => Some(
            Step { node: NodeView::Primary(ValueView::Number(x)), next: pos + 1 },
        ),
        Some(TokenKindView::String(s)) => Some(
            Step { node: NodeView::Primary(ValueView::String(s)), next: pos + 1 },
        ),
        Some(TokenKindView::Ident(name)) => {
            if symbol_at(ts, pos + 1, SymbolKind::LeftBracket) {
                spec_func_call(ts, pos)
            } else if symbol_at(ts, pos + 1, SymbolKind::LeftSqBracket) {
                spec_array_ref(ts, pos)
            } else if symbol_at(ts, pos + 1, SymbolKind::Dot) {
                spec_dot_expr(ts, pos)
            } else {
                Some(Step { node: NodeView::VariableRef(name), next: pos + 1 })
            }
        },
        Some(TokenKindView::Symbol(SymbolKind::LeftBracket)) => {
            match advance(ts, pos, spec_expr(ts, pos + 1)) {
                Some(inner) => closed(ts, inner),
                None => None,
            }
        },
        _ => None,
    }
}

/// A call: an identifier, `(`, then either `)` or one argument and one more
/// token.
pub open spec fn spec_func_call(ts: Seq<TokenView>, pos: int) -> Option<Step>
    decreases ts.len() - pos, 0nat,
{
    match ident_at(ts, pos) {
        Some(ident) if symbol_at(ts, pos + 1, SymbolKind::LeftBracket) => {
            if symbol_at(ts, pos + 2, SymbolKind::RightBracket) {
                Some(Step { node: NodeView::FuncCall { ident, args: Seq::empty() }, next: pos + 3 })
            } else if kind_at(ts, pos + 2) is Some {
                match advance(ts, pos, spec_expr(ts, pos + 2)) {
                    Some(arg) => closed(
                        ts,
                        Step {
                            node: NodeView::FuncCall { ident, args: seq![arg.node] },
                            next: arg.next,
                        },
                    ),
                    None => None,
                }
            } else {
                None
            }
        },
        _ => None,
    }
}

/// An array element: an identifier, `[`, the index and one more token.
pub open spec fn spec_array_ref(ts: Seq<TokenView>, pos: int) -> Option<Step>
    decreases ts.len() - pos, 0nat,
{
    match ident_at(ts, pos) {
        Some(ident) if symbol_at(ts, pos + 1, SymbolKind::LeftSqBracket) => {
            match advance(ts, pos, spec_expr(ts, pos + 2)) {
                Some(index) => closed(
                    ts,
                    Step {
                        node: NodeView::ArrayRef { ident, index: Box::new(index.node) },
                        next: index.next,
                    },
                ),
                None => None,
            }
        },
        _ => None,
    }
}

/// A dot expression: an identifier, one token, an identifier.
pub open spec fn spec_dot_expr(ts: Seq<TokenView>, pos: int) -> Option<Step> {
    match (ident_at(ts, pos), ident_at(ts, pos + 2)) {
        (Some(left), Some(right)) => Some(
            Step { node: NodeView::DotExpr { left, right }, next: pos + 3 },
        ),
        _ => None,
    }
}

/// An assignment: an identifier, one token, an expression.
pub open spec fn spec_assign(ts: Seq<TokenView>, pos: int) -> Option<Step>
    decreases ts.len() - pos, 4nat,
{
    match ident_at(ts, pos) {
        Some(ident) if kind_at(ts, pos + 2) is Some => {
            match spec_expr(ts, pos + 2) {
                Some(value) => Some(
                    Step {
                        node: NodeView::Assign { ident, value: Box::new(value.node) },
                        next: value.next,
                    },
                ),
                None => None,
            }
        },
        _ => None,
    }
}

/// An assignment to an array element: an identifier, `[`, the index, one
/// token, `=`, the value.
pub open spec fn spec_array_assign_ind(ts: Seq<TokenView>, pos: int) -> Option<Step>
    decreases ts.len() - pos, 4nat,
{
    match ident_at(ts, pos) {
        Some(ident) if symbol_at(ts, pos + 1, SymbolKind::LeftSqBracket) => {
            match advance(ts, pos, spec_expr(ts, pos + 2)) {
                Some(index) if symbol_at(ts, index.next + 1, SymbolKind::Equals) => {
                    match spec_expr(ts, index.next + 2) {
                        Some(value) => Some(
                            Step {
                                node: NodeView::ArrayAssingIndex {
                                    ident,
                                    index: Box::new(index.node),
                                    value: Box::new(value.node),
                                },
                                next: value.next,
                            },
                        ),
                        None => None,
                    }
                },
                _ => None,
            }
        },
        _ => None,
    }
}

/// An array declaration: one token, an identifier, `[`, the size and one
/// more token.
pub open spec fn spec_array(ts: Seq<TokenView>, pos: int) -> Option<Step>
    decreases ts.len() - pos, 4nat,
{
    match ident_at(ts, pos + 1) {
        Some(ident) if 0 <= pos && symbol_at(ts, pos + 2, SymbolKind::LeftSqBracket) => {
            match advance(ts, pos, spec_expr(ts, pos + 3)) {
                Some(size) => closed(
                    ts,
                    Step {
                        node: NodeView::ArrayAssign { ident, size: Box::new(size.node) },
                        next: size.next,
                    },
                ),
                None => None,
            }
        },
        _ => None,
    }
}

/// A conditional: one token, the condition, one token, a block, and then
/// either `else` and a second block, or any other token, which is consumed.
/// After an `else` block the token that ended it is left in place.
pub open spec fn spec_if(ts: Seq<TokenView>, pos: int) -> Option<Step>
    decreases ts.len() - pos, 4nat,
{
    if 0 <= pos < ts.len() {
        match advance(ts, pos, spec_expr(ts, pos + 1)) {
            Some(cond) if cond.next < ts.len() => {
                match spec_block(ts, cond.next + 1) {
                    BlockParse::Done(then_nodes, end) if cond.next < end < ts.len() => {
                        if kind_at(ts, end) == Some(TokenKindView::Keyword(KeywordKind::Else)) {
                            match spec_block(ts, end + 1) {
                                BlockParse::Done(else_nodes, next) => Some(
                                    Step {
                                        node: NodeView::IfExpr {
                                            expr: Box::new(cond.node),
                                            then: Box::new(NodeView::Block(then_nodes)),
                                            els: Box::new(NodeView::Block(else_nodes)),
                                        },
                                        next,
                                    },
                                ),
                                _ => None,
                            }
                        } else {
                            Some(
                                Step {
                                    node: NodeView::IfExpr {
                                        expr: Box::new(cond.node),
                                        then: Box::new(NodeView::Block(then_nodes)),
                                        els: Box::new(NodeView::Block(Seq::empty())),
                                    },
                                    next: end + 1,
                                },
                            )
                        }
                    },
                    _ => None,
                }
            },
            _ => None,
        }
    } else {
        None
    }
}

/// A loop: one token, the condition, a block and one more token.
pub open spec fn spec_while(ts: Seq<TokenView>, pos: int) -> Option<Step>
    decreases ts.len() - pos, 4nat,
{
    if 0 <= pos < ts.len() {
        match advance(ts, pos, spec_expr(ts, pos + 1)) {
            Some(cond) => {
                match spec_block(ts, cond.next) {
                    BlockParse::Done(body, end) => closed(
                        ts,
                        Step {
                            node: NodeView::WhileStmt {
                                expr: Box::new(cond.node),
                                body: Box::new(NodeView::Block(body)),
                            },
                            next: end,
                        },
                    ),
                    _ => None,
                }
            },
            None => None,
        }
    } else {
        None
    }
}

/// The rule that the tokens at `pos` select for a statement.
pub open spec fn start_at(ts: Seq<TokenView>, pos: int) -> Start
    recommends
        0 <= pos < ts.len(),
{
    match ts[pos].kind {
        TokenKindView::Ident(_) => match kind_at(ts, pos + 1) {
            Some(TokenKindView::Symbol(SymbolKind::Equals)) => Start::Assign,
            Some(TokenKindView::Symbol(SymbolKind::LeftBracket)) => Start::Call,
            Some(TokenKindView::Symbol(SymbolKind::LeftSqBracket)) => Start::IndexAssign,
            Some(TokenKindView::Symbol(SymbolKind::Dot)) => Start::Dot,
            _ => Start::Stuck,
        },
        TokenKindView::Keyword(KeywordKind::Array) => Start::Array,
        TokenKindView::Keyword(KeywordKind::If) => Start::If,
        TokenKindView::Keyword(KeywordKind::While) => Start::While,
        TokenKindView::Keyword(KeywordKind::EndIf) => Start::End,
        TokenKindView::Keyword(KeywordKind::EndWhile) => Start::End,
        TokenKindView::Keyword(KeywordKind::Else) => Start::End,
        _ => Start::Invalid,
    }
}

/// The statement that the rule `start` reads at `pos`.
pub open spec fn spec_statement(ts: Seq<TokenView>, pos: int, start: Start) -> Option<Step>
    decreases ts.len() - pos, 5nat,
{
    match start {
        Start::Assign => spec_assign(ts, pos),
        Start::Call => spec_func_call(ts, pos),
        Start::IndexAssign => spec_array_assign_ind(ts, pos),
        Start::Dot => spec_dot_expr(ts, pos),
        Start::Array => spec_array(ts, pos),
        Start::If => spec_if(ts, pos),
        Start::While => spec_while(ts, pos),
        _ => None,
    }
}

/// `block`: statements up to the end of the tokens or to one of `endif`,
/// `endwhile`, `else`, which is left in place.
pub open spec fn spec_block(ts: Seq<TokenView>, pos: int) -> BlockParse
    decreases ts.len() - pos, 6nat,
{
    if !(0 <= pos < ts.len()) {
        BlockParse::Done(Seq::empty(), pos)
    } else {
        match start_at(ts, pos) {
            Start::End => BlockParse::Done(Seq::empty(), pos),
            Start::Invalid => BlockParse::Invalid(ts[pos], pos),
            Start::Stuck => BlockParse::Stuck,
            start => match advance(ts, pos, spec_statement(ts, pos, start)) {
                Some(first) => spec_block(ts, first.next).after(seq![first.node]),
                None => BlockParse::Stuck,
            },
        }
    }
}

/// A program: the block that starts at `pos`, whatever token ended it.
pub open spec fn spec_parse(ts: Seq<TokenView>, pos: int) -> Parse {
    match spec_block(ts, pos) {
        BlockParse::Done(nodes, next) => Parse::Program(nodes, next),
        BlockParse::Invalid(token, at) => Parse::Invalid(token, at),
        BlockParse::Stuck => Parse::Stuck,
    }
}

/// The tokens that a list of kinds stands for: each at line 0, column 0,
/// with length 0.
pub open spec fn listed(kinds: Seq<TokenKindView>) -> Seq<TokenView> {
    Seq::new(
        kinds.len(),
        |i: int| TokenView { start: Position { line: 0, col: 0 }, len: 0, kind: kinds[i] },
    )
}

/// The views of a sequence of token kinds, kind by kind.
pub open spec fn kinds_view(kinds: Seq<TokenKind>) -> Seq<TokenKindView> {
    Seq::new(kinds.len(), |i: int| kinds[i]@)
}

/// What the exec parser hands back for a block.
pub enum BlockEnd {
    Done(Vec<Node>),
    Invalid(Token),
    Stuck,
}

/// The parser's state, as mathematics.
pub struct ParserView {
    pub tokens: Seq<TokenView>,
    /// How many tokens have been consumed.
    pub cursor: int,
    /// The source text, kept for diagnostics.
    pub input: Seq<char>,
}

/// The parser: the tokens, how many of them are consumed, and the source
/// text for diagnostics.
pub struct Parser {
    tokens: Vec<Token>,
    cursor: usize,
    input: String,
}

impl View for Parser {
    type V = ParserView;

    closed spec fn view(&self) -> ParserView {
        ParserView {
            tokens: tokens_view(self.tokens@),
            cursor: self.cursor as int,
            input: self.input@,
        }
    }
}

impl Parser {
    /// The parser's validity: the cursor is inside the tokens.
    pub closed spec fn wf(&self) -> bool {
        self.cursor <= self.tokens.len()
    }

    /// What parsing the tokens that are left gives.
    pub open spec fn pending(&self) -> Parse {
        spec_parse(self@.tokens, self@.cursor)
    }

    /// Whether the tokens that are left have a shape that the rules answer.
    pub open spec fn parseable(&self) -> bool {
        !(self.pending() is Stuck)
    }

    /// Whether `self` is `before` moved on to `cursor`.
    pub open spec fn moved(&self, before: Parser, cursor: int) -> bool {
        &&& self.wf()
        &&& self@ == (ParserView { cursor, ..before@ })
    }

    /// Whether `self` and `node` are what the step `expected` from `before`
    /// gives: the node it describes and the cursor after it, or no node
    /// where there is no step.
    pub open spec fn stepped(
        &self,
        before: Parser,
        node: Option<Node>,
        expected: Option<Step>,
    ) -> bool {
        &&& self.wf()
        &&& self@.tokens == before@.tokens
        &&& self@.input == before@.input
        &&& match expected {
            Some(step) => {
                &&& node matches Some(n)
                &&& n@ == step.node
                &&& self@.cursor == step.next
                &&& before@.cursor < step.next <= before@.tokens.len()
            },
            None => node is None,
        }
    }

    /// A parser at the first of `tokens`.
    pub fn new(tokens: Vec<Token>, input: String) -> (parser: Self)
        ensures
            parser.wf(),
            parser@ == (ParserView { tokens: tokens_view(tokens@), cursor: 0, input: input@ }),
    {
        Self { tokens, cursor: 0, input }
    }

    /// Parses the tokens that are left as a program: the root block and
    /// whatever it holds. A token that starts no statement of the root block
    /// is an error. The parser is left at the token that ended the block or
    /// caused the error.
    pub fn parse(&mut self) -> (r: Result<Node, ParserError>)
        requires
            old(self).wf(),
            old(self).parseable(),
        ensures
            final(self).wf(),
            match old(self).pending() {
                Parse::Program(nodes, next) => {
                    &&& r matches Ok(node)
                    &&& node@ == NodeView::Block(nodes)
                    &&& final(self).moved(*old(self), next)
                },
                Parse::Invalid(token, at) => {
                    &&& r matches Err(e)
                    &&& e@ == ParserErrorView::InvalidTokenInBlock(token, old(self)@.input)
                    &&& final(self).moved(*old(self), at)
                },
                Parse::Stuck => false,
            },
    {
        match self.try_parse() {
            Some(r) => r,
            None => vstd::pervasive::unreached(),
        }
    }

    /// As [`Parser::parse`], for any tokens: `None`, with the parser
    /// unchanged, where they have a shape that no rule answers.
    pub fn try_parse(&mut self) -> (r: Option<Result<Node, ParserError>>)
        requires
            old(self).wf(),
        ensures
            final(self).wf(),
            match old(self).pending() {
                Parse::Program(nodes, next) => {
                    &&& r matches Some(Ok(node))
                    &&& node@ == NodeView::Block(nodes)
                    &&& final(self).moved(*old(self), next)
                },
                Parse::Invalid(token, at) => {
                    &&& r matches Some(Err(e))
                    &&& e@ == ParserErrorView::InvalidTokenInBlock(token, old(self)@.input)
                    &&& final(self).moved(*old(self), at)
                },
                Parse::Stuck => r is None && final(self)@ == old(self)@,
            },
    {
        let start: usize = self.cursor;
        match self.parse_block() {
            BlockEnd::Done(nodes) => {
                proof {
                    lemma_block_view(nodes@);
                }
                Some(Ok(Node::Block(nodes)))
            },
            BlockEnd::Invalid(token) => Some(
                Err(ParserError::InvalidTokenInBlock(token, self.input.clone())),
            ),
            BlockEnd::Stuck => {
                self.cursor = start;
                None
            },
        }
    }

    /// Parses a list of token kinds as a program, each kind standing for a
    /// token at line 0, column 0, with length 0, and the source empty.
    pub fn parse_from_list(token_kinds: Vec<TokenKind>) -> (r: Result<Node, ParserError>)
        requires
            !(spec_parse(listed(kinds_view(token_kinds@)), 0) is Stuck),
        ensures
            match spec_parse(listed(kinds_view(token_kinds@)), 0) {
                Parse::Program(nodes, _) => r matches Ok(node) && node@ == NodeView::Block(nodes),
                Parse::Invalid(token, _) => r matches Err(e) && e@
                    == ParserErrorView::InvalidTokenInBlock(token, Seq::empty()),
                Parse::Stuck => false,
            },
    {
        let mut tokens: Vec<Token> = Vec::new();
        let mut i: usize = 0;
        while i < token_kinds.len()
            invariant
                i <= token_kinds.len(),
                tokens@.len() == i,
                forall|j: int|
                    0 <= j < i ==> (#[trigger] tokens@[j])@ == listed(kinds_view(token_kinds@))[j],
            decreases token_kinds.len() - i,
        {
            tokens.push(Token::new(token_kinds[i].clone(), Position::new(0, 0), 0));
            i += 1;
        }
        assert(tokens_view(tokens@) =~= listed(kinds_view(token_kinds@)));
        let mut parser = Self::new(tokens, String::new());
        parser.parse()
    }

    /// `block`: statements up to the end of the tokens or to one of `endif`,
    /// `endwhile`, `else`.
    fn parse_block(&mut self) -> (r: BlockEnd)
        requires
            old(self).wf(),
        ensures
            final(self).wf(),
            final(self)@.tokens == old(self)@.tokens,
            final(self)@.input == old(self)@.input,
            match spec_block(old(self)@.tokens, old(self)@.cursor) {
                BlockParse::Done(nodes, next) => {
                    &&& r matches BlockEnd::Done(found)
                    &&& nodes_view(found@) == nodes
                    &&& final(self)@.cursor == next
                    &&& old(self)@.cursor <= next <= old(self)@.tokens.len()
                },
                BlockParse::Invalid(token, at) => {
                    &&& r matches BlockEnd::Invalid(found)
                    &&& found@ == token
                    &&& final(self)@.cursor == at
                },
                BlockParse::Stuck => r is Stuck,
            },
        decreases old(self)@.tokens.len() - old(self)@.cursor, 6nat,
    {
        let ghost ts = self@.tokens;
        let ghost total = spec_block(ts, self@.cursor);
        let mut nodes: Vec<Node> = Vec::new();
        proof {
            assert(total.after(Seq::empty()) == total);
        }
        while self.cursor < self.tokens.len()
            invariant
                self.wf(),
                ts == old(self)@.tokens,
                total == spec_block(ts, old(self)@.cursor),
                self@.tokens == ts,
                self@.input == old(self)@.input,
                old(self)@.cursor <= self@.cursor,
                spec_block(ts, self@.cursor).after(nodes_view(nodes@)) == total,
            decreases self.tokens.len() - self.cursor,
        {
            let ghost here = self@.cursor;
            let ghost seen = nodes_view(nodes@);
            let start = self.start();
            let parsed: Option<Node> = match start {
                Start::End => {
                    return BlockEnd::Done(nodes);
                },
                Start::Invalid => {
                    return BlockEnd::Invalid(self.tokens[self.cursor].clone());
                },
                Start::Stuck => {
                    return BlockEnd::Stuck;
                },
                Start::Assign => self.parse_assign(),
                Start::Call => self.parse_func_call(),
                Start::IndexAssign => self.parse_array_assign_ind(),
                Start::Dot => self.parse_dot_expr(),
                Start::Array => self.parse_array(),
                Start::If => self.parse_if(),
                Start::While => self.parse_while(),
            };
            assert(parsed is Some == spec_statement(ts, here, start) is Some);
            match parsed {
                Some(node) => {
                    proof {
                        let rest = spec_block(ts, self@.cursor);
                        assert(nodes_view(nodes@.push(node)) =~= seen.push(node@));
                        match rest {
                            BlockParse::Done(more, next) => {
                                assert(seen + (seq![node@] + more) =~= seen.push(node@) + more);
                            },
                            _ => {},
                        }
                    }
                    nodes.push(node);
                },
                None => {
                    return BlockEnd::Stuck;
                },
            }
        }
        BlockEnd::Done(nodes)
    }

    /// The rule that the tokens at the cursor select for a statement.
    fn start(&self) -> (start: Start)
        requires
            self.wf(),
            self@.cursor < self@.tokens.len(),
        ensures
            start == start_at(self@.tokens, self@.cursor),
    {
        match &self.tokens[self.cursor].kind {
            TokenKind::Ident(_) => {
                if self.has_symbol(1, SymbolKind::Equals) {
                    Start::Assign
                } else if self.has_symbol(1, SymbolKind::LeftBracket) {
                    Start::Call
                } else if self.has_symbol(1, SymbolKind::LeftSqBracket) {
                    Start::IndexAssign
                } else if self.has_symbol(1, SymbolKind::Dot) {
                    Start::Dot
                } else {
                    Start::Stuck
                }
            },
            TokenKind::Keyword(KeywordKind::Array) => Start::Array,
            TokenKind::Keyword(KeywordKind::If) => Start::If,
            TokenKind::Keyword(KeywordKind::While) => Start::While,
            TokenKind::Keyword(KeywordKind::EndIf) => Start::End,
            TokenKind::Keyword(KeywordKind::EndWhile) => Start::End,
            TokenKind::Keyword(KeywordKind::Else) => Start::End,
            _ => Start::Invalid,
        }
    }

    /// A conditional.
    fn parse_if(&mut self) -> (r: Option<Node>)
        requires
            old(self).wf(),
        ensures
            final(self).stepped(*old(self), r, spec_if(old(self)@.tokens, old(self)@.cursor)),
        decreases old(self)@.tokens.len() - old(self)@.cursor, 4nat,
    {
        if !self.get_token() {
            return None;
        }
        let expr = match self.parse_expr() {
            Some(expr) => expr,
            None => {
                return None;
            },
        };
        if !self.get_token() {
            return None;
        }
        let then = match self.parse_block() {
            BlockEnd::Done(nodes) => nodes,
            _ => {
                return None;
            },
        };
        let has_else: bool = self.has_keyword(KeywordKind::Else);
        if !self.get_token() {
            return None;
        }
        let els = if has_else {
            match self.parse_block() {
                BlockEnd::Done(nodes) => nodes,
                _ => {
                    return None;
                },
            }
        } else {
            Vec::new()
        };
        proof {
            lemma_block_view(then@);
            lemma_block_view(els@);
        }
        let then_block = Node::Block(then);
        let else_block = Node::Block(els);
        assert(then_block@ == NodeView::Block(nodes_view(then_block->Block_0@)));
        assert(else_block@ == NodeView::Block(nodes_view(else_block->Block_0@)));
        Some(
            Node::IfExpr {
                expr: Box::new(expr),
                then: Box::new(then_block),
                els: Box::new(else_block),
            },
        )
    }

    /// A loop.
    fn parse_while(&mut self) -> (r: Option<Node>)
        requires
            old(self).wf(),
        ensures
            final(self).stepped(*old(self), r, spec_while(old(self)@.tokens, old(self)@.cursor)),
        decreases old(self)@.tokens.len() - old(self)@.cursor, 4nat,
    {
        if !self.get_token() {
            return None;
        }
        let expr = match self.parse_expr() {
            Some(expr) => expr,
            None => {
                return None;
            },
        };
        let body = match self.parse_block() {
            BlockEnd::Done(nodes) => nodes,
            _ => {
                return None;
            },
        };
        if !self.get_token() {
            return None;
        }
        proof {
            lemma_block_view(body@);
        }
        let block = Node::Block(body);
        assert(block@ == NodeView::Block(nodes_view(block->Block_0@)));
        Some(Node::WhileStmt { expr: Box::new(expr), body: Box::new(block) })
    }

    /// A call with at most one argument.
    fn parse_func_call(&mut self) -> (r: Option<Node>)
        requires
            old(self).wf(),
        ensures
            final(self).stepped(
                *old(self),
                r,
                spec_func_call(old(self)@.tokens, old(self)@.cursor),
            ),
        decreases old(self)@.tokens.len() - old(self)@.cursor, 0nat,
    {
        let ident = match self.ident(0) {
            Some(ident) => ident,
            None => {
                return None;
            },
        };
        if !self.has_symbol(1, SymbolKind::LeftBracket) {
            return None;
        }
        let mut args: Vec<Node> = Vec::new();
        if self.has_symbol(2, SymbolKind::RightBracket) {
            self.skip(2);
        } else if self.has_token(2) {
            self.skip(2);
            match self.parse_arg() {
                Some(arg) => {
                    args.push(arg);
                },
                None => {
                    return None;
                },
            }
        } else {
            return None;
        }
        if !self.get_token() {
            return None;
        }
        proof {
            lemma_block_view(args@);
            if args@.len() == 0 {
            } else {
                assert(nodes_view(args@) =~= seq![args@[0]@]);
            }
        }
        Some(Node::FuncCall { ident, args })
    }

    /// An argument: an expression.
    fn parse_arg(&mut self) -> (r: Option<Node>)
        requires
            old(self).wf(),
        ensures
            final(self).stepped(*old(self), r, spec_expr(old(self)@.tokens, old(self)@.cursor)),
        decreases old(self)@.tokens.len() - old(self)@.cursor, 4nat,
    {
        self.parse_expr()
    }

    /// An assignment.
    fn parse_assign(&mut self) -> (r: Option<Node>)
        requires
            old(self).wf(),
        ensures
            final(self).stepped(*old(self), r, spec_assign(old(self)@.tokens, old(self)@.cursor)),
        decreases old(self)@.tokens.len() - old(self)@.cursor, 4nat,
    {
        let ident = match self.ident(0) {
            Some(ident) => ident,
            None => {
                return None;
            },
        };
        if !self.has_token(2) {
            return None;
        }
        self.skip(2);
        match self.parse_expr() {
            Some(expr) => Some(Node::Assign { ident, value: Box::new(expr) }),
            None => None,
        }
    }

    /// An assignment to an array element.
    fn parse_array_assign_ind(&mut self) -> (r: Option<Node>)
        requires
            old(self).wf(),
        ensures
            final(self).stepped(
                *old(self),
                r,
                spec_array_assign_ind(old(self)@.tokens, old(self)@.cursor),
            ),
        decreases old(self)@.tokens.len() - old(self)@.cursor, 4nat,
    {
        let ident = match self.ident(0) {
            Some(ident) => ident,
            None => {
                return None;
            },
        };
        if !self.has_symbol(1, SymbolKind::LeftSqBracket) {
            return None;
        }
        self.skip(2);
        let index = match self.parse_expr() {
            Some(index) => index,
            None => {
                return None;
            },
        };
        if !self.has_symbol(1, SymbolKind::Equals) {
            return None;
        }
        self.skip(2);
        match self.parse_expr() {
            Some(value) => Some(
                Node::ArrayAssingIndex { ident, index: Box::new(index), value: Box::new(value) },
            ),
            None => None,
        }
    }

    /// An array declaration.
    fn parse_array(&mut self) -> (r: Option<Node>)
        requires
            old(self).wf(),
        ensures
            final(self).stepped(*old(self), r, spec_array(old(self)@.tokens, old(self)@.cursor)),
        decreases old(self)@.tokens.len() - old(self)@.cursor, 4nat,
    {
        let ident = match self.ident(1) {
            Some(ident) => ident,
            None => {
                return None;
            },
        };
        if !self.has_symbol(2, SymbolKind::LeftSqBracket) {
            return None;
        }
        self.skip(3);
        let size = match self.parse_expr() {
            Some(size) => size,
            None => {
                return None;
            },
        };
        if !self.get_token() {
            return None;
        }
        Some(Node::ArrayAssign { ident, size: Box::new(size) })
    }

    /// A dot expression.
    fn parse_dot_expr(&mut self) -> (r: Option<Node>)
        requires
            old(self).wf(),
        ensures
            final(self).stepped(*old(self), r, spec_dot_expr(old(self)@.tokens, old(self)@.cursor)),
    {
        let left = match self.ident(0) {
            Some(ident) => ident,
            None => {
                return None;
            },
        };
        let right = match self.ident(2) {
            Some(ident) => ident,
            None => {
                return None;
            },
        };
        self.skip(3);
        Some(Node::DotExpr { left, right })
    }

    /// An expression: a term and, after an operator, a whole expression.
    fn parse_expr(&mut self) -> (r: Option<Node>)
        requires
            old(self).wf(),
        ensures
            final(self).stepped(*old(self), r, spec_expr(old(self)@.tokens, old(self)@.cursor)),
        decreases old(self)@.tokens.len() - old(self)@.cursor, 3nat,
    {
        let left = match self.parse_term() {
            Some(left) => left,
            None => {
                return None;
            },
        };
        let operator = match self.expr_operator() {
            Some(operator) => operator,
            None => {
                return Some(left);
            },
        };
        self.skip(1);
        match self.parse_expr() {
            Some(right) => Some(
                Node::BinaryExpr { left: Box::new(left), operator, right: Box::new(right) },
            ),
            None => None,
        }
    }

    /// A term: a factor and, after `*` or `/`, a whole expression.
    fn parse_term(&mut self) -> (r: Option<Node>)
        requires
            old(self).wf(),
        ensures
            final(self).stepped(*old(self), r, spec_term(old(self)@.tokens, old(self)@.cursor)),
        decreases old(self)@.tokens.len() - old(self)@.cursor, 2nat,
    {
        let left = match self.parse_factor() {
            Some(left) => left,
            None => {
                return None;
            },
        };
        let operator = match self.term_operator() {
            Some(operator) => operator,
            None => {
                return Some(left);
            },
        };
        self.skip(1);
        match self.parse_expr() {
            Some(right) => Some(
                Node::BinaryExpr { left: Box::new(left), operator, right: Box::new(right) },
            ),
            None => None,
        }
    }

    /// A factor.
    fn parse_factor(&mut self) -> (r: Option<Node>)
        requires
            old(self).wf(),
        ensures
            final(self).stepped(*old(self), r, spec_factor(old(self)@.tokens, old(self)@.cursor)),
        decreases old(self)@.tokens.len() - old(self)@.cursor, 1nat,
    {
        if self.cursor >= self.tokens.len() {
            return None;
        }
        match &self.tokens[self.cursor].kind {
            TokenKind::Number(x) => {
                let node = Node::Primary(Value::Number(*x));
                self.skip(1);
                Some(node)
            },
            TokenKind::String(s) => {
                let node = Node::Primary(Value::String(s.clone()));
                self.skip(1);
                Some(node)
            },
            TokenKind::Ident(name) => {
                if self.has_symbol(1, SymbolKind::LeftBracket) {
                    self.parse_func_call()
                } else if self.has_symbol(1, SymbolKind::LeftSqBracket) {
                    self.parse_array_ref()
                } else if self.has_symbol(1, SymbolKind::Dot) {
                    self.parse_dot_expr()
                } else {
                    let node = Node::VariableRef(name.clone());
                    self.skip(1);
                    Some(node)
                }
            },
            TokenKind::Symbol(SymbolKind::LeftBracket) => {
                self.skip(1);
                let expr = match self.parse_expr() {
                    Some(expr) => expr,
                    None => {
                        return None;
                    },
                };
                if !self.get_token() {
                    return None;
                }
                Some(expr)
            },
            _ => None,
        }
    }

    /// An array element.
    fn parse_array_ref(&mut self) -> (r: Option<Node>)
        requires
            old(self).wf(),
        ensures
            final(self).stepped(
                *old(self),
                r,
                spec_array_ref(old(self)@.tokens, old(self)@.cursor),
            ),
        decreases old(self)@.tokens.len() - old(self)@.cursor, 0nat,
    {
        let ident = match self.ident(0) {
            Some(ident) => ident,
            None => {
                return None;
            },
        };
        if !self.has_symbol(1, SymbolKind::LeftSqBracket) {
            return None;
        }
        self.skip(2);
        let index = match self.parse_expr() {
            Some(index) => index,
            None => {
                return None;
            },
        };
        if !self.get_token() {
            return None;
        }
        Some(Node::ArrayRef { ident, index: Box::new(index) })
    }

    /// Consumes one token, whatever it is, and says whether there was one.
    fn get_token(&mut self) -> (found: bool)
        requires
            old(self).wf(),
        ensures
            found == (old(self)@.cursor < old(self)@.tokens.len()),
            found ==> final(self).moved(*old(self), old(self)@.cursor + 1),
            !found ==> final(self).moved(*old(self), old(self)@.cursor),
    {
        if self.cursor < self.tokens.len() {
            self.cursor += 1;
            true
        } else {
            false
        }
    }

    /// Consumes `n` tokens, which are there.
    fn skip(&mut self, n: usize)
        requires
            old(self).wf(),
            old(self)@.cursor + n <= old(self)@.tokens.len(),
        ensures
            final(self).moved(*old(self), old(self)@.cursor + n),
    {
        self.cursor += n;
    }

    /// The token `offset` places after the cursor, if there is one.
    fn peek_token(&self, offset: usize) -> (token: Option<&Token>)
        requires
            self.wf(),
        ensures
            match token {
                Some(t) => kind_at(self@.tokens, self@.cursor + offset) == Some(t@.kind)
                    && self@.cursor + offset < self@.tokens.len() && t@
                    == self@.tokens[self@.cursor + offset],
                None => kind_at(self@.tokens, self@.cursor + offset) is None,
            },
    {
        if offset < self.tokens.len() - self.cursor {
            Some(&self.tokens[self.cursor + offset])
        } else {
            None
        }
    }

    /// Whether there is a token `offset` places after the cursor.
    fn has_token(&self, offset: usize) -> (b: bool)
        requires
            self.wf(),
        ensures
            b == (kind_at(self@.tokens, self@.cursor + offset) is Some),
            b == (self@.cursor + offset < self@.tokens.len()),
    {
        self.peek_token(offset).is_some()
    }

    /// Whether the token `offset` places after the cursor is the given
    /// symbol.
    fn has_symbol(&self, offset: usize, symbol: SymbolKind) -> (b: bool)
        requires
            self.wf(),
        ensures
            b == symbol_at(self@.tokens, self@.cursor + offset, symbol),
            b ==> self@.cursor + offset < self@.tokens.len(),
    {
        match self.peek_token(offset) {
            Some(token) => match &token.kind {
                TokenKind::Symbol(found) => *found == symbol,
                _ => false,
            },
            None => false,
        }
    }

    /// Whether the token at the cursor is the given keyword.
    fn has_keyword(&self, keyword: KeywordKind) -> (b: bool)
        requires
            self.wf(),
        ensures
            b == (kind_at(self@.tokens, self@.cursor) == Some(TokenKindView::Keyword(keyword))),
    {
        match self.peek_token(0) {
            Some(token) => match &token.kind {
                TokenKind::Keyword(found) => *found == keyword,
                _ => false,
            },
            None => false,
        }
    }

    /// The name of the identifier `offset` places after the cursor, if one
    /// stands there.
    fn ident(&self, offset: usize) -> (name: Option<String>)
        requires
            self.wf(),
        ensures
            match name {
                Some(s) => ident_at(self@.tokens, self@.cursor + offset) == Some(s@),
                None => ident_at(self@.tokens, self@.cursor + offset) is None,
            },
            name is Some ==> self@.cursor + offset < self@.tokens.len(),
    {
        match self.peek_token(offset) {
            Some(token) => match &token.kind {
                TokenKind::Ident(name) => Some(name.clone()),
                _ => None,
            },
            None => None,
        }
    }

    /// The operator at the cursor, if it is one that an expression continues
    /// with.
    fn expr_operator(&self) -> (op: Option<Op>)
        requires
            self.wf(),
        ensures
            op == expr_operator_at(self@.tokens, self@.cursor),
            op is Some ==> self@.cursor < self@.tokens.len(),
    {
        match self.peek_token(0) {
            Some(token) => match &token.kind {
                TokenKind::Symbol(SymbolKind::Plus) => Some(Op::Plus),
                TokenKind::Symbol(SymbolKind::Minus) => Some(Op::Minus),
                TokenKind::Symbol(SymbolKind::Greater) => Some(Op::Greater),
                TokenKind::Symbol(SymbolKind::GreaterEquals) => Some(Op::GreaterEqual),
                TokenKind::Symbol(SymbolKind::Less) => Some(Op::Less),
                TokenKind::Symbol(SymbolKind::LessEquals) => Some(Op::LessEqual),
                TokenKind::Symbol(SymbolKind::DoubleEquals) => Some(Op::EqualTo),
                _ => None,
            },
            None => None,
        }
    }

    /// The operator at the cursor, if it is one that a term continues with.
    fn term_operator(&self) -> (op: Option<Op>)
        requires
            self.wf(),
        ensures
            op == term_operator_at(self@.tokens, self@.cursor),
            op is Some ==> self@.cursor < self@.tokens.len(),
    {
        match self.peek_token(0) {
            Some(token) => match &token.kind {
                TokenKind::Symbol(SymbolKind::Multiply) => Some(Op::Multiply),
                TokenKind::Symbol(SymbolKind::Divide) => Some(Op::Divide),
                _ => None,
            },
            None => None,
        }
    }
}

} // verus!
