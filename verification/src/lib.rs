//! A small imperative teaching language: lexer, recursive-descent parser and
//! evaluator, with their behaviour stated in contracts and proved.
//!
//! Source text goes through [`lexer::Lexer`] into tokens, through
//! [`parser::Parser`] into a tree of [`ast::Node`]s, and into an
//! [`interpretor::Interpretor`], a machine that its caller steps: each step
//! says whether there is text to write or a line to read, so the library
//! itself neither writes nor reads. Every type has a mathematical view, and
//! every function says over these views what it returns and what it changes.
//!
//! Beyond what `vstd` assumes of the standard library, this is believed and
//! not proved, all of it in [`text`]: that `String::push` appends a
//! character, what `char::is_alphanumeric` and `char::is_numeric` say of a
//! character, and what `{:?}` shows of a string.

use vstd::prelude::*;

pub mod ast;
pub mod error;
pub mod interpretor;
pub mod lexer;
pub mod parser;
pub mod symbol_table;
pub mod text;

use crate::lexer::{SymbolKind, TokenKind, TokenKindView};
use crate::text::{chars_of, decimal_digits, push_decimal, quote, quoted, text_of};

verus! {

/// The language's one numeric type.
pub type Num = u64;

/// A runtime value.
#[derive(Debug, PartialEq)]
pub enum Value {
    Number(Num),
    String(String),
    Boolean(bool),
    Array(Vec<Value>),
}

/// What a [`Value`] is, as mathematics.
pub enum ValueView {
    Number(u64),
    String(Seq<char>),
    Boolean(bool),
    Array(Seq<ValueView>),
}

impl View for Value {
    type V = ValueView;

    open spec fn view(&self) -> ValueView
        decreases self, 0nat,
    {
        match self {
            Value::Number(n) => ValueView::Number(*n),
            Value::String(s) => ValueView::String(s@),
            Value::Boolean(b) => ValueView::Boolean(*b),
            Value::Array(items) => ValueView::Array(leading_views(items@, items@.len())),
        }
    }
}

/// The views of the first `n` items.
pub open spec fn leading_views(items: Seq<Value>, n: nat) -> Seq<ValueView>
    decreases items, n,
{
    if n == 0 || n > items.len() {
        Seq::empty()
    } else {
        leading_views(items, (n - 1) as nat).push(items[n - 1]@)
    }
}

/// The views of a sequence of values, item by item.
pub open spec fn values_view(items: Seq<Value>) -> Seq<ValueView> {
    Seq::new(items.len(), |i: int| items[i]@)
}

/// The views of the first `n` items are the first `n` of the items' views.
pub proof fn lemma_leading_views(items: Seq<Value>, n: nat)
    requires
        n <= items.len(),
    ensures
        leading_views(items, n) == values_view(items).take(n as int),
    decreases n,
{
    if n > 0 {
        lemma_leading_views(items, (n - 1) as nat);
        let a = leading_views(items, n);
        let b = values_view(items).take(n as int);
        assert(a == leading_views(items, (n - 1) as nat).push(items[n - 1]@));
        assert forall|i: int| 0 <= i < n implies a[i] == b[i] by {}
    } else {
    }
}

/// An array's view is the views of its items.
pub proof fn lemma_array_view(v: Value)
    requires
        v is Array,
    ensures
        v@ == ValueView::Array(values_view(v->Array_0@)),
{
    let items = v->Array_0@;
    lemma_leading_views(items, items.len());
    assert(values_view(items).take(items.len() as int) =~= values_view(items));
}

impl Clone for Value {
    fn clone(&self) -> (r: Self)
        ensures
            r@ == self@,
        decreases self,
    {
        match self {
            Value::Number(n) => Value::Number(*n),
            Value::String(s) => Value::String(s.clone()),
            Value::Boolean(b) => Value::Boolean(*b),
            Value::Array(items) => {
                let mut out: Vec<Value> = Vec::new();
                let mut i: usize = 0;
                while i < items.len()
                    invariant
                        i <= items.len(),
                        out@.len() == i,
                        forall|j: int| 0 <= j < i ==> out@[j]@ == items@[j]@,
                        *self == Value::Array(*items),
                    decreases items.len() - i,
                {
                    proof {
                        assert(decreases_to!(self => self->Array_0));
                    }
                    out.push(items[i].clone());
                    i += 1;
                }
                let r = Value::Array(out);
                proof {
                    lemma_array_view(r);
                    lemma_array_view(*self);
                    assert(values_view(out@) =~= values_view(items@));
                }
                r
            },
        }
    }
}

/// The text of a boolean.
pub open spec fn truth_text(b: bool) -> Seq<char> {
    if b {
        "true"@
    } else {
        "false"@
    }
}

/// The text that printing a value shows: a number in decimal, a string as it
/// is, a boolean as `true` or `false`, an array as its items' structural
/// texts between square brackets.
pub open spec fn display_text(v: ValueView) -> Seq<char> {
    match v {
        ValueView::Number(n) => decimal_digits(n as nat),
        ValueView::String(s) => s,
        ValueView::Boolean(b) => truth_text(b),
        ValueView::Array(items) => "["@ + joined_text(items, items.len()) + "]"@,
    }
}

/// The structural text of a string whose quoted and escaped form is
/// `quoted`.
pub open spec fn string_entry(quoted: Seq<char>) -> Seq<char> {
    "String("@ + quoted + ")"@
}

/// The structural text of a value: the variant's name and, in round brackets,
/// its content, a string quoted and escaped.
pub open spec fn structural_text(v: ValueView) -> Seq<char>
    decreases v, 0nat,
{
    match v {
        ValueView::Number(n) => "Number("@ + decimal_digits(n as nat) + ")"@,
        ValueView::String(s) => string_entry(quoted(s)),
        ValueView::Boolean(b) => "Boolean("@ + truth_text(b) + ")"@,
        ValueView::Array(items) => "Array(["@ + joined_text(items, items.len()) + "])"@,
    }
}

/// The structural texts of the first `n` items, separated by a comma and a
/// space.
pub open spec fn joined_text(items: Seq<ValueView>, n: nat) -> Seq<char>
    decreases items, n,
{
    if n == 0 || n > items.len() {
        Seq::empty()
    } else if n == 1 {
        structural_text(items[0])
    } else {
        joined_text(items, (n - 1) as nat) + ", "@ + structural_text(items[n - 1])
    }
}

/// Appends the characters of `s` to `out`.
pub fn push_text(out: &mut Vec<char>, s: &str)
    ensures
        final(out)@ == old(out)@ + s@,
{
    let chars = chars_of(s);
    let mut i: usize = 0;
    while i < chars.len()
        invariant
            i <= chars.len(),
            chars@ == s@,
            out@ == old(out)@ + chars@.take(i as int),
        decreases chars.len() - i,
    {
        out.push(chars[i]);
        i += 1;
    }
}

impl Value {
    /// The text that printing this value shows.
    pub fn to_string(&self) -> (s: String)
        ensures
            s@ == display_text(self@),
    {
        match self {
            Value::Number(n) => crate::text::decimal_text(*n),
            Value::String(s) => s.clone(),
            Value::Boolean(b) => {
                if *b {
                    "true".to_owned()
                } else {
                    "false".to_owned()
                }
            },
            Value::Array(items) => {
                let mut out: Vec<char> = Vec::new();
                push_text(&mut out, "[");
                Value::push_joined(items, &mut out);
                push_text(&mut out, "]");
                let n: usize = out.len();
                proof {
                    lemma_array_view(*self);
                }
                text_of(&out, 0, n)
            },
        }
    }

    /// Appends the structural text of a string, given its quoted and escaped
    /// form.
    pub fn push_string_entry(out: &mut Vec<char>, quoted: &str)
        ensures
            final(out)@ == old(out)@ + string_entry(quoted@),
    {
        push_text(out, "String(");
        push_text(out, quoted);
        push_text(out, ")");
    }

    /// Appends the structural texts of `items`, separated by a comma and a
    /// space.
    fn push_joined(items: &Vec<Value>, out: &mut Vec<char>)
        ensures
            final(out)@ == old(out)@ + joined_text(values_view(items@), items@.len()),
        decreases items, 1nat,
    {
        let ghost views = values_view(items@);
        let mut i: usize = 0;
        while i < items.len()
            invariant
                i <= items.len(),
                views == values_view(items@),
                out@ == old(out)@ + joined_text(views, i as nat),
            decreases items.len() - i,
        {
            if i > 0 {
                push_text(out, ", ");
            }
            items[i].push_structural(out);
            proof {
                if i == 0 {
                } else {
                }
            }
            i += 1;
        }
    }

    /// Appends the structural text of this value.
    fn push_structural(&self, out: &mut Vec<char>)
        ensures
            final(out)@ == old(out)@ + structural_text(self@),
        decreases self, 0nat,
    {
        match self {
            Value::Number(n) => {
                push_text(out, "Number(");
                push_decimal(out, *n);
                push_text(out, ")");
            },
            Value::String(s) => {
                let q = quote(s.as_str());
                Value::push_string_entry(out, q.as_str());
            },
            Value::Boolean(b) => {
                push_text(out, "Boolean(");
                if *b {
                    push_text(out, "true");
                } else {
                    push_text(out, "false");
                }
                push_text(out, ")");
            },
            Value::Array(items) => {
                push_text(out, "Array([");
                Value::push_joined(items, out);
                push_text(out, "])");
                proof {
                    lemma_array_view(*self);
                }
            },
        }
    }
}

/// A binary operator.
#[derive(Clone, Copy, Debug, PartialEq, Eq, Structural)]
pub enum Op {
    Plus,
    Minus,
    Multiply,
    Divide,
    Mod,
    Greater,
    GreaterEqual,
    Less,
    LessEqual,
    EqualTo,
}

impl Op {
    /// The operator that a symbol stands for, if it stands for one.
    pub open spec fn of_symbol(symbol: SymbolKind) -> Option<Op> {
        match symbol {
            SymbolKind::Plus => Some(Op::Plus),
            SymbolKind::Minus => Some(Op::Minus),
            SymbolKind::Multiply => Some(Op::Multiply),
            SymbolKind::Divide => Some(Op::Divide),
            SymbolKind::Mod => Some(Op::Mod),
            SymbolKind::Greater => Some(Op::Greater),
            SymbolKind::GreaterEquals => Some(Op::GreaterEqual),
            SymbolKind::Less => Some(Op::Less),
            SymbolKind::LessEquals => Some(Op::LessEqual),
            SymbolKind::DoubleEquals => Some(Op::EqualTo),
            _ => None,
        }
    }

    /// The operator that a token kind stands for, if it is an operator symbol.
    pub open spec fn of_kind(kind: TokenKindView) -> Option<Op> {
        match kind {
            TokenKindView::Symbol(symbol) => Op::of_symbol(symbol),
            _ => None,
        }
    }

    /// The operator that a symbol stands for, if it stands for one.
    pub fn from_symbol(symbol: SymbolKind) -> (op: Option<Op>)
        ensures
            op == Op::of_symbol(symbol),
    {
        match symbol {
            SymbolKind::Plus => Some(Op::Plus),
            SymbolKind::Minus => Some(Op::Minus),
            SymbolKind::Multiply => Some(Op::Multiply),
            SymbolKind::Divide => Some(Op::Divide),
            SymbolKind::Mod => Some(Op::Mod),
            SymbolKind::Greater => Some(Op::Greater),
            SymbolKind::GreaterEquals => Some(Op::GreaterEqual),
            SymbolKind::Less => Some(Op::Less),
            SymbolKind::LessEquals => Some(Op::LessEqual),
            SymbolKind::DoubleEquals => Some(Op::EqualTo),
            _ => None,
        }
    }

    /// The operator that an operator symbol's token kind stands for.
    pub fn from(kind: TokenKind) -> (op: Op)
        requires
            Op::of_kind(kind@) is Some,
        ensures
            Some(op) == Op::of_kind(kind@),
    {
        match kind {
            TokenKind::Symbol(symbol) => {
                match Op::from_symbol(symbol) {
                    Some(op) => op,
                    None => vstd::pervasive::unreached(),
                }
            },
            _ => vstd::pervasive::unreached(),
        }
    }
}

/// A place in the source: a line, counted from one, and a running column.
#[derive(Clone, Copy, Debug, PartialEq, Eq, Structural)]
pub struct Position {
    pub line: usize,
    pub col: usize,
}

impl Position {
    /// The position at the given line and column.
    pub fn new(line: usize, col: usize) -> (p: Self)
        ensures
            p == (Position { line, col }),
    {
        Self { line, col }
    }

    /// The text of a position: line and column in round brackets.
    pub open spec fn text(self) -> Seq<char> {
        "("@ + decimal_digits(self.line as nat) + ", "@ + decimal_digits(self.col as nat) + ")"@
    }

    /// The position as text.
    pub fn to_string(&self) -> (s: String)
        ensures
            s@ == self.text(),
    {
        let mut out: Vec<char> = Vec::new();
        push_text(&mut out, "(");
        push_decimal(&mut out, self.line as u64);
        push_text(&mut out, ", ");
        push_decimal(&mut out, self.col as u64);
        push_text(&mut out, ")");
        let n: usize = out.len();
        text_of(&out, 0, n)
    }
}

} // verus!
