//! What holds of the grammar: every rule moves forward, and operators take
//! the whole rest of a chain as their right side.

use vstd::prelude::*;

use crate::lexer::TokenView;
use crate::parser::{
    advance, binary, expr_operator_at, spec_array, spec_array_assign_ind, spec_array_ref,
    spec_assign, spec_block, spec_dot_expr, spec_expr, spec_factor, spec_func_call, spec_if,
    spec_statement, spec_term, spec_while, start_at, term_operator_at, BlockParse, Start, Step,
};
use crate::Op;

verus! {

/// Whether a step from `pos`, if there is one, moved forward and stayed
/// inside the tokens.
pub open spec fn forward(ts: Seq<TokenView>, pos: int, step: Option<Step>) -> bool {
    step matches Some(s) ==> pos < s.next <= ts.len()
}

/// An expression ends after where it started, inside the tokens.
pub proof fn lemma_expr_advances(ts: Seq<TokenView>, pos: int)
    requires
        0 <= pos <= ts.len(),
    ensures
        forward(ts, pos, spec_expr(ts, pos)),
    decreases ts.len() - pos, 3nat,
{
    lemma_term_advances(ts, pos);
    match spec_term(ts, pos) {
        Some(left) => {
            if left.next < ts.len() {
                lemma_expr_advances(ts, left.next + 1);
            }
        },
        None => {},
    }
}

/// A term ends after where it started, inside the tokens.
pub proof fn lemma_term_advances(ts: Seq<TokenView>, pos: int)
    requires
        0 <= pos <= ts.len(),
    ensures
        forward(ts, pos, spec_term(ts, pos)),
    decreases ts.len() - pos, 2nat,
{
    lemma_factor_advances(ts, pos);
    match spec_factor(ts, pos) {
        Some(left) => {
            if left.next < ts.len() {
                lemma_expr_advances(ts, left.next + 1);
            }
        },
        None => {},
    }
}

/// A factor ends after where it started, inside the tokens.
pub proof fn lemma_factor_advances(ts: Seq<TokenView>, pos: int)
    requires
        0 <= pos <= ts.len(),
    ensures
        forward(ts, pos, spec_factor(ts, pos)),
    decreases ts.len() - pos, 1nat,
{
    if pos < ts.len() {
        lemma_call_advances(ts, pos);
        lemma_expr_advances(ts, pos + 1);
    }
}

/// A call, an array element and a dot expression end after where they
/// started, inside the tokens.
pub proof fn lemma_call_advances(ts: Seq<TokenView>, pos: int)
    requires
        0 <= pos <= ts.len(),
    ensures
        forward(ts, pos, spec_func_call(ts, pos)),
        forward(ts, pos, spec_array_ref(ts, pos)),
        forward(ts, pos, spec_dot_expr(ts, pos)),
    decreases ts.len() - pos, 0nat,
{
    if pos + 2 <= ts.len() {
        lemma_expr_advances(ts, pos + 2);
    }
}

/// An assignment, an assignment to an array element and an array
/// declaration end after where they started, inside the tokens.
pub proof fn lemma_assignments_advance(ts: Seq<TokenView>, pos: int)
    requires
        0 <= pos <= ts.len(),
    ensures
        forward(ts, pos, spec_assign(ts, pos)),
        forward(ts, pos, spec_array_assign_ind(ts, pos)),
        forward(ts, pos, spec_array(ts, pos)),
{
    if pos + 2 <= ts.len() {
        lemma_expr_advances(ts, pos + 2);
        match spec_expr(ts, pos + 2) {
            Some(index) => {
                if index.next + 2 <= ts.len() {
                    lemma_expr_advances(ts, index.next + 2);
                }
            },
            None => {},
        }
    }
    if pos + 3 <= ts.len() {
        lemma_expr_advances(ts, pos + 3);
    }
}

/// A conditional ends after where it started, inside the tokens.
pub proof fn lemma_if_advances(ts: Seq<TokenView>, pos: int)
    requires
        0 <= pos <= ts.len(),
    ensures
        forward(ts, pos, spec_if(ts, pos)),
    decreases ts.len() - pos, 4nat,
{
    if pos < ts.len() {
        lemma_expr_advances(ts, pos + 1);
        match spec_expr(ts, pos + 1) {
            Some(cond) => {
                if cond.next < ts.len() {
                    lemma_block_advances(ts, cond.next + 1);
                    match spec_block(ts, cond.next + 1) {
                        BlockParse::Done(_, end) => {
                            if end < ts.len() {
                                lemma_block_advances(ts, end + 1);
                            }
                        },
                        _ => {},
                    }
                }
            },
            None => {},
        }
    }
}

/// A loop ends after where it started, inside the tokens.
pub proof fn lemma_while_advances(ts: Seq<TokenView>, pos: int)
    requires
        0 <= pos <= ts.len(),
    ensures
        forward(ts, pos, spec_while(ts, pos)),
    decreases ts.len() - pos, 4nat,
{
    if pos < ts.len() {
        lemma_expr_advances(ts, pos + 1);
        match spec_expr(ts, pos + 1) {
            Some(cond) => {
                lemma_block_advances(ts, cond.next);
            },
            None => {},
        }
    }
}

/// A statement ends after where it started, inside the tokens.
pub proof fn lemma_statement_advances(ts: Seq<TokenView>, pos: int, start: Start)
    requires
        0 <= pos <= ts.len(),
    ensures
        forward(ts, pos, spec_statement(ts, pos, start)),
    decreases ts.len() - pos, 5nat,
{
    lemma_assignments_advance(ts, pos);
    lemma_call_advances(ts, pos);
    lemma_if_advances(ts, pos);
    lemma_while_advances(ts, pos);
}

/// A block ends at or after where it started, inside the tokens.
pub proof fn lemma_block_advances(ts: Seq<TokenView>, pos: int)
    requires
        0 <= pos <= ts.len(),
    ensures
        spec_block(ts, pos) matches BlockParse::Done(_, next) ==> pos <= next <= ts.len(),
    decreases ts.len() - pos, 6nat,
{
    if pos < ts.len() {
        let start = start_at(ts, pos);
        lemma_statement_advances(ts, pos, start);
        match spec_statement(ts, pos, start) {
            Some(first) => {
                lemma_block_advances(ts, first.next);
            },
            None => {},
        }
    }
}

/// Every rule consumes at least one token and never reads past the end:
/// whatever a rule gives from `pos` ends after `pos` and inside the tokens,
/// and a block ends at or after where it started.
pub proof fn lemma_steps_advance(ts: Seq<TokenView>, pos: int)
    requires
        0 <= pos <= ts.len(),
    ensures
        forward(ts, pos, spec_expr(ts, pos)),
        forward(ts, pos, spec_term(ts, pos)),
        forward(ts, pos, spec_factor(ts, pos)),
        forward(ts, pos, spec_func_call(ts, pos)),
        forward(ts, pos, spec_array_ref(ts, pos)),
        forward(ts, pos, spec_dot_expr(ts, pos)),
        forward(ts, pos, spec_assign(ts, pos)),
        forward(ts, pos, spec_array_assign_ind(ts, pos)),
        forward(ts, pos, spec_array(ts, pos)),
        forward(ts, pos, spec_if(ts, pos)),
        forward(ts, pos, spec_while(ts, pos)),
        spec_block(ts, pos) matches BlockParse::Done(_, next) ==> pos <= next <= ts.len(),
{
    lemma_expr_advances(ts, pos);
    lemma_term_advances(ts, pos);
    lemma_factor_advances(ts, pos);
    lemma_call_advances(ts, pos);
    lemma_assignments_advance(ts, pos);
    lemma_if_advances(ts, pos);
    lemma_while_advances(ts, pos);
    lemma_block_advances(ts, pos);
}

/// Since every step advances, the guard that the rules carry never turns a
/// step away.
pub proof fn lemma_advance_keeps(ts: Seq<TokenView>, pos: int)
    requires
        0 <= pos <= ts.len(),
    ensures
        advance(ts, pos, spec_expr(ts, pos)) == spec_expr(ts, pos),
        advance(ts, pos, spec_term(ts, pos)) == spec_term(ts, pos),
        advance(ts, pos, spec_factor(ts, pos)) == spec_factor(ts, pos),
{
    lemma_steps_advance(ts, pos);
}

/// An operator of an expression takes the whole rest of the chain as its
/// right side: where a term is followed by one of `+ - > >= < <= ==` and an
/// expression follows that, the expression from the term on is the binary
/// expression of the term, the operator and that whole expression.
pub proof fn lemma_expr_leans_right(
    ts: Seq<TokenView>,
    pos: int,
    left: Step,
    operator: Op,
    right: Step,
)
    requires
        0 <= pos <= ts.len(),
        spec_term(ts, pos) == Some(left),
        expr_operator_at(ts, left.next) == Some(operator),
        spec_expr(ts, left.next + 1) == Some(right),
    ensures
        spec_expr(ts, pos) == Some(
            Step { node: binary(left.node, operator, right.node), next: right.next },
        ),
{
    lemma_steps_advance(ts, pos);
}

/// An operator of a term takes the whole rest of the chain as its right
/// side, operators of lower rank in it included: where a factor is followed
/// by `*` or `/` and an expression follows that, the term from the factor on
/// is the binary expression of the factor, the operator and that whole
/// expression.
pub proof fn lemma_term_leans_right(
    ts: Seq<TokenView>,
    pos: int,
    left: Step,
    operator: Op,
    right: Step,
)
    requires
        0 <= pos <= ts.len(),
        spec_factor(ts, pos) == Some(left),
        term_operator_at(ts, left.next) == Some(operator),
        spec_expr(ts, left.next + 1) == Some(right),
    ensures
        spec_term(ts, pos) == Some(
            Step { node: binary(left.node, operator, right.node), next: right.next },
        ),
{
    lemma_steps_advance(ts, pos);
}

} // verus!
