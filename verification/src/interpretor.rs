//! The evaluator, as a machine that is stepped from outside: it walks the
//! tree with a stack of pending tasks and a stack of values, and each step
//! says what its caller has to do before the next one: nothing, write text,
//! or read a line and hand it back.

use vstd::prelude::*;

pub mod theorems;

use crate::ast::{lemma_block_view, nodes_view, Node, NodeView};
use crate::error::RuntimeError;
use crate::symbol_table::SymbolTable;
use crate::interpretor::theorems::{
    lemma_run_keeps_sound, lemma_start_is_sound, lemma_step_keeps_sound, lemma_supply_keeps_sound,
};
use crate::text::{
    read_unsigned, same_text, strip_line_feed, unsigned_of, whole_text, without_line_feed,
};
use crate::{display_text, lemma_array_view, push_text, values_view, Op, Value, ValueView};

verus! {

/// One piece of pending work.
pub enum Task {
    /// Execute a statement.
    Run(Node),
    /// Evaluate an expression; its value goes on top of the values.
    Eval(Node),
    /// Bind the top value to the identifier.
    Bind(String),
    /// Make an array whose length is the top value, and bind it.
    Declare(String),
    /// The top value is an index: check it, then evaluate the value to store.
    StoreIndex { ident: String, value: Node },
    /// The two top values are an index and a value: store the value there.
    Store(String),
    /// The top value is a condition: execute one of the two statements.
    Branch { then: Node, els: Node },
    /// The top value is a loop's condition: execute the body and come back,
    /// or leave the loop.
    Loop { expr: Node, body: Node },
    /// The two top values are the operands of the operator.
    Apply(Op),
    /// The top value is an index into the named array.
    Element(String),
    /// Write the top value and a line feed.
    Print,
    /// Write the top value.
    Prompt,
    /// Ask for a line of input.
    Read,
    /// Read the top value, a string, as a number.
    Cast,
    /// Forget the top value.
    Drop,
    /// A value is needed and the call before gave none.
    Missing,
}

/// What a [`Task`] is, as mathematics.
pub enum TaskView {
    Run(NodeView),
    Eval(NodeView),
    Bind(Seq<char>),
    Declare(Seq<char>),
    StoreIndex { ident: Seq<char>, value: NodeView },
    Store(Seq<char>),
    Branch { then: NodeView, els: NodeView },
    Loop { expr: NodeView, body: NodeView },
    Apply(Op),
    Element(Seq<char>),
    Print,
    Prompt,
    Read,
    Cast,
    Drop,
    Missing,
}

impl View for Task {
    type V = TaskView;

    open spec fn view(&self) -> TaskView {
        match self {
            Task::Run(node) => TaskView::Run(node@),
            Task::Eval(node) => TaskView::Eval(node@),
            Task::Bind(ident) => TaskView::Bind(ident@),
            Task::Declare(ident) => TaskView::Declare(ident@),
            Task::StoreIndex { ident, value } => TaskView::StoreIndex {
                ident: ident@,
                value: value@,
            },
            Task::Store(ident) => TaskView::Store(ident@),
            Task::Branch { then, els } => TaskView::Branch { then: then@, els: els@ },
            Task::Loop { expr, body } => TaskView::Loop { expr: expr@, body: body@ },
            Task::Apply(op) => TaskView::Apply(*op),
            Task::Element(ident) => TaskView::Element(ident@),
            Task::Print => TaskView::Print,
            Task::Prompt => TaskView::Prompt,
            Task::Read => TaskView::Read,
            Task::Cast => TaskView::Cast,
            Task::Drop => TaskView::Drop,
            Task::Missing => TaskView::Missing,
        }
    }
}

/// The views of a sequence of tasks, task by task.
pub open spec fn tasks_view(tasks: Seq<Task>) -> Seq<TaskView> {
    Seq::new(tasks.len(), |i: int| tasks[i]@)
}

/// Where a machine stands.
#[derive(Clone, Copy, Debug, PartialEq, Eq, Structural)]
pub enum Status {
    /// There may be work left.
    Running,
    /// The machine asked for a line of input and has not been given one.
    Waiting,
    /// The program came to its end.
    Finished,
    /// The program was stopped.
    Failed(RuntimeError),
}

/// What the caller of a step has to do before the next one.
#[derive(Debug, PartialEq)]
pub enum Action {
    /// Nothing.
    Continue,
    /// Write the text to standard output.
    Write(String),
    /// Read a line from standard input and hand it to the machine.
    ReadLine,
    /// Nothing more: the program came to its end.
    Halt,
    /// Nothing more: the program was stopped.
    Fatal(RuntimeError),
}

/// What an [`Action`] is, as mathematics.
pub enum ActionView {
    Continue,
    Write(Seq<char>),
    ReadLine,
    Halt,
    Fatal(RuntimeError),
}

impl View for Action {
    type V = ActionView;

    open spec fn view(&self) -> ActionView {
        match self {
            Action::Continue => ActionView::Continue,
            Action::Write(text) => ActionView::Write(text@),
            Action::ReadLine => ActionView::ReadLine,
            Action::Halt => ActionView::Halt,
            Action::Fatal(e) => ActionView::Fatal(*e),
        }
    }
}

/// A machine's state, as mathematics. The last task and the last value are
/// the top ones.
pub struct MachineView {
    pub tasks: Seq<TaskView>,
    pub values: Seq<ValueView>,
    pub symbols: Map<Seq<char>, ValueView>,
    pub status: Status,
}

/// A machine after a step, and what the step asks of the caller.
pub struct Moved {
    pub machine: MachineView,
    pub action: ActionView,
}

impl MachineView {
    /// The machine with one more task on top.
    pub open spec fn with_task(self, task: TaskView) -> MachineView {
        MachineView { tasks: self.tasks.push(task), ..self }
    }

    /// The machine with one more value on top.
    pub open spec fn with_value(self, value: ValueView) -> MachineView {
        MachineView { values: self.values.push(value), ..self }
    }

    /// The machine without its top value.
    pub open spec fn popped(self) -> MachineView {
        MachineView { values: self.values.drop_last(), ..self }
    }

    /// The machine with `ident` bound to `value`.
    pub open spec fn bound(self, ident: Seq<char>, value: ValueView) -> MachineView {
        MachineView { symbols: self.symbols.insert(ident, value), ..self }
    }

    /// A step that asks nothing of the caller.
    pub open spec fn ran(self) -> Moved {
        Moved { machine: self, action: ActionView::Continue }
    }

    /// A step that asks the caller to write `text`.
    pub open spec fn wrote(self, text: Seq<char>) -> Moved {
        Moved { machine: self, action: ActionView::Write(text) }
    }

    /// A step that stops the program: the work that was left is dropped, the
    /// variables stay.
    pub open spec fn failed(self, error: RuntimeError) -> Moved {
        Moved {
            machine: MachineView {
                tasks: Seq::empty(),
                values: Seq::empty(),
                symbols: self.symbols,
                status: Status::Failed(error),
            },
            action: ActionView::Fatal(error),
        }
    }
}

/// The statements of a block as tasks, the first statement on top.
pub open spec fn reversed_runs(nodes: Seq<NodeView>) -> Seq<TaskView> {
    Seq::new(nodes.len(), |i: int| TaskView::Run(nodes[nodes.len() - 1 - i]))
}

/// An array of `n` zeros.
pub open spec fn zeros(n: nat) -> Seq<ValueView> {
    Seq::new(n, |i: int| ValueView::Number(0))
}

/// What an operator gives on two numbers: a number for `+ - * / %`, where the
/// result is an unsigned 64-bit number, and a boolean for the comparisons.
pub open spec fn arithmetic(op: Op, x: u64, y: u64) -> Result<ValueView, RuntimeError> {
    match op {
        Op::Plus => if x + y <= u64::MAX {
            Ok(ValueView::Number((x + y) as u64))
        } else {
            Err(RuntimeError::UnsupportedOperator)
        },
        Op::Minus => if x >= y {
            Ok(ValueView::Number((x - y) as u64))
        } else {
            Err(RuntimeError::UnsupportedOperator)
        },
        Op::Multiply => if x * y <= u64::MAX {
            Ok(ValueView::Number((x * y) as u64))
        } else {
            Err(RuntimeError::UnsupportedOperator)
        },
        Op::Divide => if y != 0 {
            Ok(ValueView::Number(x / y))
        } else {
            Err(RuntimeError::UnsupportedOperator)
        },
        Op::Mod => if y != 0 {
            Ok(ValueView::Number(x % y))
        } else {
            Err(RuntimeError::UnsupportedOperator)
        },
        Op::Greater => Ok(ValueView::Boolean(x > y)),
        Op::GreaterEqual => Ok(ValueView::Boolean(x >= y)),
        Op::Less => Ok(ValueView::Boolean(x < y)),
        Op::LessEqual => Ok(ValueView::Boolean(x <= y)),
        Op::EqualTo => Ok(ValueView::Boolean(x == y)),
    }
}

/// What a binary expression gives on two values: arithmetic on two numbers;
/// where either side is a string, the two sides' texts joined, whatever the
/// operator; nothing on any other pair.
pub open spec fn binary_value(op: Op, left: ValueView, right: ValueView) -> Result<
    ValueView,
    RuntimeError,
> {
    match (left, right) {
        (ValueView::Number(x), ValueView::Number(y)) => arithmetic(op, x, y),
        _ => if left is String || right is String {
            Ok(ValueView::String(display_text(left) + display_text(right)))
        } else {
            Err(RuntimeError::TypeMismatch)
        },
    }
}

/// What `int` gives on a value: the number that a string spells.
pub open spec fn cast_value(value: ValueView) -> Result<ValueView, RuntimeError> {
    match value {
        ValueView::String(s) => match unsigned_of(s) {
            Some(n) => Ok(ValueView::Number(n)),
            None => Err(RuntimeError::TypeMismatch),
        },
        _ => Err(RuntimeError::TypeMismatch),
    }
}

/// The element of the array `ident` at the index `index`.
pub open spec fn element_value(
    symbols: Map<Seq<char>, ValueView>,
    ident: Seq<char>,
    index: ValueView,
) -> Result<ValueView, RuntimeError> {
    match index {
        ValueView::Number(i) => {
            if !symbols.contains_key(ident) {
                Err(RuntimeError::UndefinedVariable)
            } else {
                match symbols[ident] {
                    ValueView::Array(items) => if i < items.len() {
                        Ok(items[i as int])
                    } else {
                        Err(RuntimeError::IndexOutOfRange)
                    },
                    _ => Err(RuntimeError::TypeMismatch),
                }
            }
        },
        _ => Err(RuntimeError::TypeMismatch),
    }
}

/// The array `ident` with `value` at the index `index`.
pub open spec fn stored_value(
    symbols: Map<Seq<char>, ValueView>,
    ident: Seq<char>,
    index: ValueView,
    value: ValueView,
) -> Result<ValueView, RuntimeError> {
    match index {
        ValueView::Number(i) => {
            if !symbols.contains_key(ident) {
                Err(RuntimeError::UndefinedVariable)
            } else {
                match symbols[ident] {
                    ValueView::Array(items) => if i < items.len() {
                        Ok(ValueView::Array(items.update(i as int, value)))
                    } else {
                        Err(RuntimeError::IndexOutOfRange)
                    },
                    _ => Err(RuntimeError::TypeMismatch),
                }
            }
        },
        _ => Err(RuntimeError::TypeMismatch),
    }
}

/// The length of the array `ident`.
pub open spec fn length_value(symbols: Map<Seq<char>, ValueView>, ident: Seq<char>) -> Result<
    ValueView,
    RuntimeError,
> {
    if !symbols.contains_key(ident) {
        Err(RuntimeError::UndefinedVariable)
    } else {
        match symbols[ident] {
            ValueView::Array(items) => Ok(ValueView::Number(items.len() as u64)),
            _ => Err(RuntimeError::TypeMismatch),
        }
    }
}

/// The machine with the result on top of its values, or stopped.
pub open spec fn settle(m: MachineView, result: Result<ValueView, RuntimeError>) -> Moved {
    match result {
        Ok(value) => m.with_value(value).ran(),
        Err(error) => m.failed(error),
    }
}

/// Starting a statement.
pub open spec fn spec_run_node(m: MachineView, node: NodeView) -> Moved {
    match node {
        NodeView::FuncCall { ident, args } => spec_run_func(m, ident, args, false),
        NodeView::Assign { ident, value } => m.with_task(TaskView::Bind(ident)).with_task(
            TaskView::Eval(*value),
        ).ran(),
        NodeView::ArrayAssign { ident, size } => m.with_task(TaskView::Declare(ident)).with_task(
            TaskView::Eval(*size),
        ).ran(),
        NodeView::ArrayAssingIndex { ident, index, value } => m.with_task(
            TaskView::StoreIndex { ident, value: *value },
        ).with_task(TaskView::Eval(*index)).ran(),
        NodeView::IfExpr { expr, then, els } => m.with_task(
            TaskView::Branch { then: *then, els: *els },
        ).with_task(TaskView::Eval(*expr)).ran(),
        NodeView::WhileStmt { expr, body } => m.with_task(
            TaskView::Loop { expr: *expr, body: *body },
        ).with_task(TaskView::Eval(*expr)).ran(),
        NodeView::Block(nodes) => MachineView { tasks: m.tasks + reversed_runs(nodes), ..m }.ran(),
        _ => m.failed(RuntimeError::UnsupportedOperator),
    }
}

/// Starting an expression. The left operand of a binary expression is on
/// top of the right one, so it is evaluated first, with all it reads and
/// writes.
pub open spec fn spec_get_expr_val(m: MachineView, node: NodeView) -> Moved {
    match node {
        NodeView::BinaryExpr { left, operator, right } => m.with_task(
            TaskView::Apply(operator),
        ).with_task(TaskView::Eval(*right)).with_task(TaskView::Eval(*left)).ran(),
        NodeView::VariableRef(ident) => if m.symbols.contains_key(ident) {
            m.with_value(m.symbols[ident]).ran()
        } else {
            m.failed(RuntimeError::UndefinedVariable)
        },
        NodeView::ArrayRef { ident, index } => m.with_task(TaskView::Element(ident)).with_task(
            TaskView::Eval(*index),
        ).ran(),
        NodeView::FuncCall { ident, args } => spec_run_func(m, ident, args, true),
        NodeView::DotExpr { left, right } => if right == "length"@ {
            settle(m, length_value(m.symbols, left))
        } else {
            m.failed(RuntimeError::UnsupportedOperator)
        },
        NodeView::Primary(value) => m.with_value(value).ran(),
        _ => m.failed(RuntimeError::UnsupportedOperator),
    }
}

/// Whether `int` takes an argument of this shape: a literal, a variable or
/// a call.
pub open spec fn castable(arg: NodeView) -> bool {
    arg is Primary || arg is VariableRef || arg is FuncCall
}

/// Starting a call of a built-in. `wanted` says whether the call stands
/// where a value is needed.
pub open spec fn spec_run_func(
    m: MachineView,
    ident: Seq<char>,
    args: Seq<NodeView>,
    wanted: bool,
) -> Moved {
    if ident == "print"@ {
        let after = if wanted {
            m.with_task(TaskView::Missing)
        } else {
            m
        };
        if args.len() == 0 {
            after.wrote("\n"@)
        } else if args.len() == 1 {
            after.with_task(TaskView::Print).with_task(TaskView::Eval(args[0])).ran()
        } else {
            m.failed(RuntimeError::ArityMismatch)
        }
    } else if ident == "input"@ {
        let after = if wanted {
            m
        } else {
            m.with_task(TaskView::Drop)
        };
        if args.len() == 0 {
            after.with_task(TaskView::Read).ran()
        } else if args.len() == 1 {
            after.with_task(TaskView::Read).with_task(TaskView::Prompt).with_task(
                TaskView::Eval(args[0]),
            ).ran()
        } else {
            m.failed(RuntimeError::ArityMismatch)
        }
    } else if ident == "int"@ {
        let after = if wanted {
            m
        } else {
            m.with_task(TaskView::Drop)
        };
        if args.len() != 1 {
            m.failed(RuntimeError::ArityMismatch)
        } else if castable(args[0]) {
            after.with_task(TaskView::Cast).with_task(TaskView::Eval(args[0])).ran()
        } else {
            m.failed(RuntimeError::TypeMismatch)
        }
    } else {
        m.failed(RuntimeError::UndefinedVariable)
    }
}

/// Carrying out a task that works on the top value `top`, already taken off
/// the values of `m`.
pub open spec fn spec_finish(m: MachineView, task: TaskView, top: ValueView) -> Moved {
    match task {
        TaskView::Bind(ident) => m.bound(ident, top).ran(),
        TaskView::Declare(ident) => match top {
            ValueView::Number(n) => if n <= usize::MAX {
                m.bound(ident, ValueView::Array(zeros(n as nat))).ran()
            } else {
                m.failed(RuntimeError::IndexOutOfRange)
            },
            _ => m.failed(RuntimeError::TypeMismatch),
        },
        TaskView::StoreIndex { ident, value } => match top {
            ValueView::Number(_) => m.with_value(top).with_task(TaskView::Store(ident)).with_task(
                TaskView::Eval(value),
            ).ran(),
            _ => m.failed(RuntimeError::TypeMismatch),
        },
        TaskView::Store(ident) => if m.values.len() == 0 {
            m.failed(RuntimeError::UnsupportedOperator)
        } else {
            match stored_value(m.symbols, ident, m.values.last(), top) {
                Ok(array) => m.popped().bound(ident, array).ran(),
                Err(error) => m.failed(error),
            }
        },
        TaskView::Branch { then, els } => match top {
            ValueView::Boolean(true) => m.with_task(TaskView::Run(then)).ran(),
            ValueView::Boolean(false) => m.with_task(TaskView::Run(els)).ran(),
            _ => m.failed(RuntimeError::TypeMismatch),
        },
        TaskView::Loop { expr, body } => match top {
            ValueView::Boolean(true) => m.with_task(TaskView::Loop { expr, body }).with_task(
                TaskView::Eval(expr),
            ).with_task(TaskView::Run(body)).ran(),
            ValueView::Boolean(false) => m.ran(),
            _ => m.failed(RuntimeError::TypeMismatch),
        },
        TaskView::Apply(op) => if m.values.len() == 0 {
            m.failed(RuntimeError::UnsupportedOperator)
        } else {
            settle(m.popped(), binary_value(op, m.values.last(), top))
        },
        TaskView::Element(ident) => settle(m, element_value(m.symbols, ident, top)),
        TaskView::Print => m.wrote(display_text(top) + "\n"@),
        TaskView::Prompt => m.wrote(display_text(top)),
        TaskView::Cast => settle(m, cast_value(top)),
        TaskView::Drop => m.ran(),
        _ => m.failed(RuntimeError::UnsupportedOperator),
    }
}

/// Carrying out the task `task`, already taken off the tasks of `m`.
pub open spec fn spec_perform(m: MachineView, task: TaskView) -> Moved {
    match task {
        TaskView::Run(node) => spec_run_node(m, node),
        TaskView::Eval(node) => spec_get_expr_val(m, node),
        TaskView::Read => Moved {
            machine: MachineView { status: Status::Waiting, ..m },
            action: ActionView::ReadLine,
        },
        TaskView::Missing => m.failed(RuntimeError::TypeMismatch),
        _ => if m.values.len() == 0 {
            m.failed(RuntimeError::UnsupportedOperator)
        } else {
            spec_finish(m.popped(), task, m.values.last())
        },
    }
}

/// One step of the machine. A machine that waits, has finished or was
/// stopped stays as it is and says so again.
#[verifier::opaque]
pub open spec fn spec_step(m: MachineView) -> Moved {
    match m.status {
        Status::Failed(error) => Moved { machine: m, action: ActionView::Fatal(error) },
        Status::Finished => Moved { machine: m, action: ActionView::Halt },
        Status::Waiting => Moved { machine: m, action: ActionView::ReadLine },
        Status::Running => if m.tasks.len() == 0 {
            Moved {
                machine: MachineView { status: Status::Finished, ..m },
                action: ActionView::Halt,
            }
        } else {
            spec_perform(MachineView { tasks: m.tasks.drop_last(), ..m }, m.tasks.last())
        },
    }
}

/// Handing a line of input to the machine. A machine that waits takes the
/// line, without the line feed that ends it, as a string value and runs on;
/// any other machine stays as it is.
pub open spec fn spec_supply(m: MachineView, line: Seq<char>) -> MachineView {
    if m.status == Status::Waiting {
        MachineView {
            status: Status::Running,
            ..m.with_value(ValueView::String(without_line_feed(line)))
        }
    } else {
        m
    }
}

/// The machine that is about to run a program: the root block where the
/// root is one, a stopped machine where it is not.
pub open spec fn spec_start(ast: NodeView) -> MachineView {
    if ast is Block {
        MachineView {
            tasks: seq![TaskView::Run(ast)],
            values: Seq::empty(),
            symbols: Map::empty(),
            status: Status::Running,
        }
    } else {
        MachineView {
            tasks: Seq::empty(),
            values: Seq::empty(),
            symbols: Map::empty(),
            status: Status::Failed(RuntimeError::UnsupportedOperator),
        }
    }
}

/// How many values a task takes off the values when it is carried out.
pub open spec fn takes(task: TaskView) -> int {
    match task {
        TaskView::Run(_) => 0,
        TaskView::Eval(_) => 0,
        TaskView::Read => 0,
        TaskView::Missing => 0,
        TaskView::Store(_) => 2,
        TaskView::Apply(_) => 2,
        _ => 1,
    }
}

/// By how many the values have grown once a task, and all that it started,
/// is done.
pub open spec fn leaves(task: TaskView) -> int {
    match task {
        TaskView::Run(_) => 0,
        TaskView::Eval(_) => 1,
        TaskView::Read => 1,
        TaskView::Missing => 1,
        TaskView::Store(_) => -2,
        TaskView::Element(_) => 0,
        TaskView::Cast => 0,
        _ => -1,
    }
}

/// Whether `depth` values are enough for the tasks, carried out from the
/// top one down.
pub open spec fn balanced(tasks: Seq<TaskView>, depth: int) -> bool
    decreases tasks.len(),
{
    if tasks.len() == 0 {
        depth >= 0
    } else {
        depth >= takes(tasks.last()) && balanced(tasks.drop_last(), depth + leaves(tasks.last()))
    }
}

impl MachineView {
    /// Whether the values are enough for the tasks: with the line that it
    /// waits for, where the machine waits.
    pub open spec fn sound(self) -> bool {
        match self.status {
            Status::Running => balanced(self.tasks, self.values.len() as int),
            Status::Waiting => balanced(self.tasks, (self.values.len() + 1) as int),
            _ => true,
        }
    }
}

/// How a run ended.
#[derive(Clone, Copy, Debug, PartialEq, Eq, Structural)]
pub enum End {
    /// The program came to its end.
    Finished,
    /// The program was stopped.
    Failed(RuntimeError),
    /// The program asked for a line of input and there was none left.
    AwaitingInput,
    /// The steps that the run was given are used up.
    StepLimit,
}

/// A run, as mathematics: the machine it left, the text it wrote, how many
/// lines of input it has taken, and how it ended.
pub struct RunView {
    pub machine: MachineView,
    pub output: Seq<char>,
    pub consumed: nat,
    pub end: End,
}

impl RunView {
    /// This run with `text` written before it.
    pub open spec fn after(self, text: Seq<char>) -> RunView {
        RunView { output: text + self.output, ..self }
    }
}

/// The run of at most `steps` steps from `m`, with the lines of `input` from
/// number `consumed` on to read.
pub open spec fn spec_run(
    m: MachineView,
    input: Seq<Seq<char>>,
    consumed: nat,
    steps: nat,
) -> RunView
    decreases steps,
{
    if steps == 0 {
        RunView { machine: m, output: Seq::empty(), consumed, end: End::StepLimit }
    } else {
        let moved = spec_step(m);
        match moved.action {
            ActionView::Continue => spec_run(moved.machine, input, consumed, (steps - 1) as nat),
            ActionView::Write(text) => spec_run(
                moved.machine,
                input,
                consumed,
                (steps - 1) as nat,
            ).after(text),
            ActionView::ReadLine => if consumed < input.len() {
                spec_run(
                    spec_supply(moved.machine, input[consumed as int]),
                    input,
                    consumed + 1,
                    (steps - 1) as nat,
                )
            } else {
                RunView {
                    machine: moved.machine,
                    output: Seq::empty(),
                    consumed,
                    end: End::AwaitingInput,
                }
            },
            ActionView::Halt => RunView {
                machine: moved.machine,
                output: Seq::empty(),
                consumed,
                end: End::Finished,
            },
            ActionView::Fatal(error) => RunView {
                machine: moved.machine,
                output: Seq::empty(),
                consumed,
                end: End::Failed(error),
            },
        }
    }
}

/// The views of a sequence of strings, string by string.
pub open spec fn lines_view(lines: Seq<String>) -> Seq<Seq<char>> {
    Seq::new(lines.len(), |i: int| lines[i]@)
}

/// What a run wrote, how many lines of input it took, and how it ended.
#[derive(Debug, PartialEq)]
pub struct Transcript {
    pub output: String,
    pub consumed: usize,
    pub end: End,
}

/// The machine that runs a program: its variables, the work that is left,
/// the values that the work is done on, and where it stands.
pub struct Interpretor {
    symbol_table: SymbolTable,
    tasks: Vec<Task>,
    values: Vec<Value>,
    status: Status,
}

impl View for Interpretor {
    type V = MachineView;

    closed spec fn view(&self) -> MachineView {
        MachineView {
            tasks: tasks_view(self.tasks@),
            values: values_view(self.values@),
            symbols: self.symbol_table@,
            status: self.status,
        }
    }
}

impl Interpretor {
    /// This machine and the action that a step gave.
    pub open spec fn after(&self, action: Action) -> Moved {
        Moved { machine: self@, action: action@ }
    }

    /// A machine that is about to run the program `ast`.
    pub fn new(ast: Box<Node>) -> (machine: Self)
        ensures
            machine@ == spec_start(ast@),
            machine@.sound(),
    {
        proof {
            lemma_start_is_sound(ast@);
        }
        let mut machine = Self {
            symbol_table: SymbolTable::new(),
            tasks: Vec::new(),
            values: Vec::new(),
            status: Status::Running,
        };
        assert(machine@.tasks =~= Seq::empty());
        assert(machine@.values =~= Seq::empty());
        let is_block: bool = match &*ast {
            Node::Block(_) => true,
            _ => false,
        };
        if is_block {
            machine.push_task(Task::Run(*ast));
        } else {
            machine.status = Status::Failed(RuntimeError::UnsupportedOperator);
        }
        machine
    }

    /// Where the machine stands.
    pub fn status(&self) -> (status: Status)
        ensures
            status == self@.status,
    {
        self.status
    }

    /// The value that a variable is bound to, if it is bound.
    pub fn variable(&self, ident: &str) -> (value: Option<Value>)
        ensures
            match value {
                Some(v) => self@.symbols.contains_key(ident@) && v@ == self@.symbols[ident@],
                None => !self@.symbols.contains_key(ident@),
            },
    {
        self.symbol_table.lookup(ident)
    }

    /// One step of the machine, and what the caller has to do before the
    /// next one.
    pub fn step(&mut self) -> (action: Action)
        ensures
            final(self).after(action) == spec_step(old(self)@),
            old(self)@.sound() ==> final(self)@.sound(),
    {
        reveal(spec_step);
        proof {
            if self@.sound() {
                lemma_step_keeps_sound(self@);
            }
        }
        match self.status {
            Status::Failed(error) => Action::Fatal(error),
            Status::Finished => Action::Halt,
            Status::Waiting => Action::ReadLine,
            Status::Running => {
                match self.pop_task() {
                    Some(task) => self.perform(task),
                    None => {
                        self.status = Status::Finished;
                        Action::Halt
                    },
                }
            },
        }
    }

    /// Hands the machine the line that it asked for, as it was read: the
    /// line feed that ends it is dropped.
    pub fn supply_line(&mut self, line: String)
        ensures
            final(self)@ == spec_supply(old(self)@, line@),
            old(self)@.sound() ==> final(self)@.sound(),
    {
        proof {
            if self@.sound() {
                lemma_supply_keeps_sound(self@, line@);
            }
        }
        match self.status {
            Status::Waiting => {
                self.push_value(Value::String(strip_line_feed(line.as_str())));
                self.status = Status::Running;
            },
            _ => {},
        }
    }

    /// Runs the program for at most `limit` steps, reading from the lines of
    /// `input`, each as it would be read: with its line feed. The transcript
    /// holds all that the program wrote.
    pub fn run(&mut self, input: Vec<String>, limit: usize) -> (transcript: Transcript)
        ensures
            ({
                let run = spec_run(old(self)@, lines_view(input@), 0, limit as nat);
                &&& final(self)@ == run.machine
                &&& transcript.output@ == run.output
                &&& transcript.consumed == run.consumed
                &&& transcript.end == run.end
            }),
            old(self)@.sound() ==> final(self)@.sound(),
    {
        proof {
            if self@.sound() {
                lemma_run_keeps_sound(self@, lines_view(input@), 0, limit as nat);
            }
        }
        let ghost total = spec_run(self@, lines_view(input@), 0, limit as nat);
        let ghost lines = lines_view(input@);
        let mut output: Vec<char> = Vec::new();
        let mut consumed: usize = 0;
        let mut left: usize = limit;
        proof {
            assert(total.after(Seq::empty()) == total);
        }
        while left > 0
            invariant
                consumed <= input.len(),
                lines == lines_view(input@),
                total == spec_run(old(self)@, lines, 0, limit as nat),
                old(self)@.sound() ==> total.machine.sound(),
                spec_run(self@, lines, consumed as nat, left as nat).after(output@) == total,
            decreases left,
        {
            let ghost before = output@;
            left -= 1;
            let end: Option<End> = match self.step() {
                Action::Continue => None,
                Action::Write(text) => {
                    push_text(&mut output, text.as_str());
                    proof {
                        let next = spec_run(self@, lines, consumed as nat, left as nat);
                        assert(before + (text@ + next.output) =~= (before + text@) + next.output);
                    }
                    None
                },
                Action::ReadLine => {
                    if consumed < input.len() {
                        self.supply_line(input[consumed].clone());
                        consumed += 1;
                        None
                    } else {
                        Some(End::AwaitingInput)
                    }
                },
                Action::Halt => Some(End::Finished),
                Action::Fatal(error) => Some(End::Failed(error)),
            };
            match end {
                Some(end) => {
                    return Transcript { output: whole_text(&output), consumed, end };
                },
                None => {},
            }
        }
        Transcript { output: whole_text(&output), consumed, end: End::StepLimit }
    }

    /// Puts a task on top of the tasks.
    fn push_task(&mut self, task: Task)
        ensures
            final(self)@ == old(self)@.with_task(task@),
    {
        self.tasks.push(task);
        assert(self@.tasks =~= old(self)@.tasks.push(task@));
    }

    /// Takes the top task off the tasks, if there is one.
    fn pop_task(&mut self) -> (task: Option<Task>)
        ensures
            match task {
                Some(t) => old(self)@.tasks.len() > 0 && t@ == old(self)@.tasks.last()
                    && final(self)@ == (MachineView {
                    tasks: old(self)@.tasks.drop_last(),
                    ..old(self)@
                }),
                None => old(self)@.tasks.len() == 0 && final(self)@ == old(self)@,
            },
    {
        let task = self.tasks.pop();
        assert(task is Some ==> self@.tasks =~= old(self)@.tasks.drop_last());
        task
    }

    /// Puts a value on top of the values.
    fn push_value(&mut self, value: Value)
        ensures
            final(self)@ == old(self)@.with_value(value@),
    {
        self.values.push(value);
        assert(self@.values =~= old(self)@.values.push(value@));
    }

    /// Takes the top value off the values, if there is one.
    fn pop_value(&mut self) -> (value: Option<Value>)
        ensures
            match value {
                Some(v) => old(self)@.values.len() > 0 && v@ == old(self)@.values.last()
                    && final(self)@ == old(self)@.popped(),
                None => old(self)@.values.len() == 0 && final(self)@ == old(self)@,
            },
    {
        let value = self.values.pop();
        assert(value is Some ==> self@.values =~= old(self)@.values.drop_last());
        value
    }

    /// Stops the program.
    fn fail(&mut self, error: RuntimeError) -> (action: Action)
        ensures
            final(self).after(action) == old(self)@.failed(error),
    {
        self.tasks.clear();
        self.values.clear();
        self.status = Status::Failed(error);
        assert(self@.tasks =~= Seq::empty());
        assert(self@.values =~= Seq::empty());
        Action::Fatal(error)
    }

    /// Puts a result on top of the values, or stops the program.
    fn settle(&mut self, result: Result<Value, RuntimeError>) -> (action: Action)
        ensures
            final(self).after(action) == settle(
                old(self)@,
                match result {
                    Ok(v) => Ok(v@),
                    Err(e) => Err(e),
                },
            ),
    {
        match result {
            Ok(value) => {
                self.push_value(value);
                Action::Continue
            },
            Err(error) => self.fail(error),
        }
    }

    /// Carries out a task that was taken off the tasks.
    fn perform(&mut self, task: Task) -> (action: Action)
        ensures
            final(self).after(action) == spec_perform(old(self)@, task@),
    {
        match task {
            Task::Run(node) => self.run_node(node),
            Task::Eval(node) => self.get_expr_val(node),
            Task::Read => {
                self.status = Status::Waiting;
                Action::ReadLine
            },
            Task::Missing => self.fail(RuntimeError::TypeMismatch),
            other => match self.pop_value() {
                Some(top) => self.finish(other, top),
                None => self.fail(RuntimeError::UnsupportedOperator),
            },
        }
    }

    /// Carries out a task that works on the top value, which was taken off
    /// the values.
    fn finish(&mut self, task: Task, top: Value) -> (action: Action)
        ensures
            final(self).after(action) == spec_finish(old(self)@, task@, top@),
    {
        match task {
            Task::Bind(ident) => {
                self.symbol_table.assign_variable(ident, top);
                Action::Continue
            },
            Task::Declare(ident) => self.run_array_assign(ident, top),
            Task::StoreIndex { ident, value } => self.run_array_assign_ind(ident, value, top),
            Task::Store(ident) => match self.pop_value() {
                Some(index) => self.store(ident, index, top),
                None => self.fail(RuntimeError::UnsupportedOperator),
            },
            Task::Branch { then, els } => self.run_if(then, els, top),
            Task::Loop { expr, body } => self.run_while(expr, body, top),
            Task::Apply(op) => match self.pop_value() {
                Some(left) => {
                    let result = Interpretor::run_expr(op, &left, &top);
                    self.settle(result)
                },
                None => self.fail(RuntimeError::UnsupportedOperator),
            },
            Task::Element(ident) => {
                let result = self.get_array_ref(ident.as_str(), &top);
                self.settle(result)
            },
            Task::Print => self.builtin_print(top),
            Task::Prompt => Action::Write(top.to_string()),
            Task::Cast => {
                let result = Interpretor::builtin_casti(&top);
                self.settle(result)
            },
            Task::Drop => Action::Continue,
            _ => self.fail(RuntimeError::UnsupportedOperator),
        }
    }

    /// Starts a statement.
    fn run_node(&mut self, node: Node) -> (action: Action)
        ensures
            final(self).after(action) == spec_run_node(old(self)@, node@),
    {
        match node {
            Node::FuncCall { ident, args } => {
                proof {
                    lemma_block_view(args@);
                }
                self.run_func(ident, args, false)
            },
            Node::Assign { ident, value } => self.run_assign(ident, *value),
            Node::ArrayAssign { ident, size } => {
                self.push_task(Task::Declare(ident));
                self.push_task(Task::Eval(*size));
                Action::Continue
            },
            Node::ArrayAssingIndex { ident, index, value } => {
                self.push_task(Task::StoreIndex { ident, value: *value });
                self.push_task(Task::Eval(*index));
                Action::Continue
            },
            Node::IfExpr { expr, then, els } => {
                self.push_task(Task::Branch { then: *then, els: *els });
                self.push_task(Task::Eval(*expr));
                Action::Continue
            },
            Node::WhileStmt { expr, body } => {
                let again: Node = (*expr).clone();
                self.push_task(Task::Loop { expr: *expr, body: *body });
                self.push_task(Task::Eval(again));
                Action::Continue
            },
            Node::Block(nodes) => {
                proof {
                    lemma_block_view(nodes@);
                }
                self.run_block(nodes);
                Action::Continue
            },
            _ => self.fail(RuntimeError::UnsupportedOperator),
        }
    }

    /// Starts a block: its statements become tasks, the first on top.
    fn run_block(&mut self, nodes: Vec<Node>)
        ensures
            final(self)@ == (MachineView {
                tasks: old(self)@.tasks + reversed_runs(nodes_view(nodes@)),
                ..old(self)@
            }),
    {
        let ghost all = nodes_view(nodes@);
        let ghost runs = reversed_runs(all);
        let mut nodes = nodes;
        while nodes.len() > 0
            invariant
                nodes.len() <= all.len(),
                runs == reversed_runs(all),
                nodes_view(nodes@) == all.take(nodes@.len() as int),
                self@ == (MachineView {
                    tasks: old(self)@.tasks + runs.take(all.len() - nodes@.len()),
                    ..old(self)@
                }),
            decreases nodes.len(),
        {
            let ghost done = all.len() - nodes@.len();
            let ghost held = nodes@;
            match nodes.pop() {
                Some(node) => {
                    proof {
                        assert(nodes_view(held)[held.len() - 1] == node@);
                        assert((old(self)@.tasks + runs.take(done)).push(TaskView::Run(node@))
                            =~= old(self)@.tasks + runs.take(done + 1));
                    }
                    self.push_task(Task::Run(node));
                },
                None => {},
            }
        }
        assert(runs.take(all.len() as int) =~= runs);
    }

    /// Starts an assignment: the value is evaluated, then bound.
    fn run_assign(&mut self, ident: String, value: Node) -> (action: Action)
        ensures
            final(self).after(action) == old(self)@.with_task(TaskView::Bind(ident@)).with_task(
                TaskView::Eval(value@),
            ).ran(),
    {
        self.push_task(Task::Bind(ident));
        self.push_task(Task::Eval(value));
        Action::Continue
    }

    /// Ends an array declaration: `size` zeros are bound to `ident`.
    fn run_array_assign(&mut self, ident: String, size: Value) -> (action: Action)
        ensures
            final(self).after(action) == spec_finish(
                old(self)@,
                TaskView::Declare(ident@),
                size@,
            ),
    {
        let n: u64 = match size {
            Value::Number(n) => n,
            _ => {
                return self.fail(RuntimeError::TypeMismatch);
            },
        };
        if n > usize::MAX as u64 {
            return self.fail(RuntimeError::IndexOutOfRange);
        }
        let mut array: Vec<Value> = Vec::new();
        let mut i: usize = 0;
        while i < n as usize
            invariant
                i <= n,
                n <= usize::MAX,
                array@.len() == i,
                forall|j: int| 0 <= j < i ==> (#[trigger] array@[j])@ == ValueView::Number(0),
            decreases n - i,
        {
            array.push(Value::Number(0));
            i += 1;
        }
        let value = Value::Array(array);
        proof {
            lemma_array_view(value);
            assert(values_view(value->Array_0@) =~= zeros(n as nat));
        }
        self.symbol_table.assign_variable(ident, value);
        Action::Continue
    }

    /// Goes on with an assignment to an array element once the index is
    /// known: it has to be a number before the value is evaluated.
    fn run_array_assign_ind(&mut self, ident: String, value: Node, index: Value) -> (action:
        Action)
        ensures
            final(self).after(action) == spec_finish(
                old(self)@,
                TaskView::StoreIndex { ident: ident@, value: value@ },
                index@,
            ),
    {
        match index {
            Value::Number(_) => {
                self.push_value(index);
                self.push_task(Task::Store(ident));
                self.push_task(Task::Eval(value));
                Action::Continue
            },
            _ => self.fail(RuntimeError::TypeMismatch),
        }
    }

    /// Ends an assignment to an array element: the array is fetched, changed
    /// at the index and bound again.
    fn store(&mut self, ident: String, index: Value, value: Value) -> (action: Action)
        ensures
            final(self).after(action) == match stored_value(
                old(self)@.symbols,
                ident@,
                index@,
                value@,
            ) {
                Ok(array) => old(self)@.bound(ident@, array).ran(),
                Err(error) => old(self)@.failed(error),
            },
    {
        let i: u64 = match index {
            Value::Number(i) => i,
            _ => {
                return self.fail(RuntimeError::TypeMismatch);
            },
        };
        let found = match self.symbol_table.lookup(ident.as_str()) {
            Some(found) => found,
            None => {
                return self.fail(RuntimeError::UndefinedVariable);
            },
        };
        proof {
            if found is Array {
                lemma_array_view(found);
            }
        }
        let mut items: Vec<Value> = match found {
            Value::Array(items) => items,
            _ => {
                return self.fail(RuntimeError::TypeMismatch);
            },
        };
        if i >= items.len() as u64 {
            return self.fail(RuntimeError::IndexOutOfRange);
        }
        let ghost kept = values_view(items@);
        items.set(i as usize, value);
        let array = Value::Array(items);
        proof {
            lemma_array_view(array);
            assert(values_view(array->Array_0@) =~= kept.update(i as int, value@));
        }
        self.symbol_table.assign_variable(ident, array);
        Action::Continue
    }

    /// Ends a conditional's condition: one of the two statements is next.
    fn run_if(&mut self, then: Node, els: Node, condition: Value) -> (action: Action)
        ensures
            final(self).after(action) == spec_finish(
                old(self)@,
                TaskView::Branch { then: then@, els: els@ },
                condition@,
            ),
    {
        match condition {
            Value::Boolean(true) => {
                self.push_task(Task::Run(then));
                Action::Continue
            },
            Value::Boolean(false) => {
                self.push_task(Task::Run(els));
                Action::Continue
            },
            _ => self.fail(RuntimeError::TypeMismatch),
        }
    }

    /// Ends a loop's condition: the body, the condition and the loop again
    /// are next, or nothing of the loop is.
    fn run_while(&mut self, expr: Node, body: Node, condition: Value) -> (action: Action)
        ensures
            final(self).after(action) == spec_finish(
                old(self)@,
                TaskView::Loop { expr: expr@, body: body@ },
                condition@,
            ),
    {
        match Interpretor::evaluate_condition(&condition) {
            Some(true) => {
                let again: Node = expr.clone();
                let once: Node = body.clone();
                self.push_task(Task::Loop { expr, body });
                self.push_task(Task::Eval(again));
                self.push_task(Task::Run(once));
                Action::Continue
            },
            Some(false) => Action::Continue,
            None => self.fail(RuntimeError::TypeMismatch),
        }
    }

    /// Starts a call of a built-in.
    fn run_func(&mut self, ident: String, args: Vec<Node>, wanted: bool) -> (action: Action)
        ensures
            final(self).after(action) == spec_run_func(
                old(self)@,
                ident@,
                nodes_view(args@),
                wanted,
            ),
    {
        let mut args = args;
        let count: usize = args.len();
        let argument: Option<Node> = args.pop();
        if same_text(ident.as_str(), "print") {
            if count > 1 {
                return self.fail(RuntimeError::ArityMismatch);
            }
            if wanted {
                self.push_task(Task::Missing);
            }
            match argument {
                Some(arg) => {
                    self.push_task(Task::Print);
                    self.push_task(Task::Eval(arg));
                    Action::Continue
                },
                None => Action::Write("\n".to_owned()),
            }
        } else if same_text(ident.as_str(), "input") {
            self.builtin_input(argument, count, wanted)
        } else if same_text(ident.as_str(), "int") {
            if count != 1 {
                return self.fail(RuntimeError::ArityMismatch);
            }
            match argument {
                Some(arg) => {
                    let takes: bool = match &arg {
                        Node::Primary(_) => true,
                        Node::VariableRef(_) => true,
                        Node::FuncCall { .. } => true,
                        _ => false,
                    };
                    if !takes {
                        return self.fail(RuntimeError::TypeMismatch);
                    }
                    if !wanted {
                        self.push_task(Task::Drop);
                    }
                    self.push_task(Task::Cast);
                    self.push_task(Task::Eval(arg));
                    Action::Continue
                },
                None => self.fail(RuntimeError::ArityMismatch),
            }
        } else {
            self.fail(RuntimeError::UndefinedVariable)
        }
    }

    /// Starts an expression.
    fn get_expr_val(&mut self, node: Node) -> (action: Action)
        ensures
            final(self).after(action) == spec_get_expr_val(old(self)@, node@),
    {
        match node {
            Node::BinaryExpr { left, operator, right } => {
                self.push_task(Task::Apply(operator));
                self.push_task(Task::Eval(*right));
                self.push_task(Task::Eval(*left));
                Action::Continue
            },
            Node::VariableRef(ident) => {
                let result = match self.symbol_table.lookup(ident.as_str()) {
                    Some(value) => Ok(value),
                    None => Err(RuntimeError::UndefinedVariable),
                };
                self.settle(result)
            },
            Node::ArrayRef { ident, index } => {
                self.push_task(Task::Element(ident));
                self.push_task(Task::Eval(*index));
                Action::Continue
            },
            Node::FuncCall { ident, args } => {
                proof {
                    lemma_block_view(args@);
                }
                self.run_func(ident, args, true)
            },
            Node::DotExpr { left, right } => self.run_dot_expr(left, right),
            Node::Primary(value) => {
                self.push_value(value);
                Action::Continue
            },
            _ => self.fail(RuntimeError::UnsupportedOperator),
        }
    }

    /// Evaluates a dot expression: the one name that can follow the dot is
    /// `length`.
    fn run_dot_expr(&mut self, left: String, right: String) -> (action: Action)
        ensures
            final(self).after(action) == spec_get_expr_val(
                old(self)@,
                NodeView::DotExpr { left: left@, right: right@ },
            ),
    {
        if same_text(right.as_str(), "length") {
            let result = self.builtin_length(left.as_str());
            self.settle(result)
        } else {
            self.fail(RuntimeError::UnsupportedOperator)
        }
    }

    /// What a binary expression gives on two values.
    pub fn run_expr(op: Op, left: &Value, right: &Value) -> (r: Result<Value, RuntimeError>)
        ensures
            match r {
                Ok(v) => binary_value(op, left@, right@) == Ok::<ValueView, RuntimeError>(v@),
                Err(e) => binary_value(op, left@, right@) == Err::<ValueView, RuntimeError>(e),
            },
    {
        match (left, right) {
            (Value::Number(x), Value::Number(y)) => {
                let x: u64 = *x;
                let y: u64 = *y;
                let fault: Result<Value, RuntimeError> = Err(RuntimeError::UnsupportedOperator);
                match op {
                    Op::Plus => match x.checked_add(y) {
                        Some(sum) => Ok(Value::Number(sum)),
                        None => fault,
                    },
                    Op::Minus => match x.checked_sub(y) {
                        Some(difference) => Ok(Value::Number(difference)),
                        None => fault,
                    },
                    Op::Multiply => match x.checked_mul(y) {
                        Some(product) => Ok(Value::Number(product)),
                        None => fault,
                    },
                    Op::Divide => if y != 0 {
                        Ok(Value::Number(x / y))
                    } else {
                        fault
                    },
                    Op::Mod => if y != 0 {
                        Ok(Value::Number(x % y))
                    } else {
                        fault
                    },
                    Op::EqualTo => Ok(Value::Boolean(x == y)),
                    Op::Less => Ok(Value::Boolean(x < y)),
                    Op::LessEqual => Ok(Value::Boolean(x <= y)),
                    Op::Greater => Ok(Value::Boolean(x > y)),
                    Op::GreaterEqual => Ok(Value::Boolean(x >= y)),
                }
            },
            (Value::String(_), _) => Ok(Interpretor::concat(left, right)),
            (_, Value::String(_)) => Ok(Interpretor::concat(left, right)),
            _ => Err(RuntimeError::TypeMismatch),
        }
    }

    /// The element of the array `ident` at `index`.
    fn get_array_ref(&self, ident: &str, index: &Value) -> (r: Result<Value, RuntimeError>)
        ensures
            match r {
                Ok(v) => element_value(self@.symbols, ident@, index@) == Ok::<
                    ValueView,
                    RuntimeError,
                >(v@),
                Err(e) => element_value(self@.symbols, ident@, index@) == Err::<
                    ValueView,
                    RuntimeError,
                >(e),
            },
    {
        let i: u64 = match index {
            Value::Number(i) => *i,
            _ => {
                return Err(RuntimeError::TypeMismatch);
            },
        };
        let found = match self.symbol_table.lookup(ident) {
            Some(found) => found,
            None => {
                return Err(RuntimeError::UndefinedVariable);
            },
        };
        proof {
            if found is Array {
                lemma_array_view(found);
            }
        }
        match found {
            Value::Array(items) => {
                if i >= items.len() as u64 {
                    return Err(RuntimeError::IndexOutOfRange);
                }
                Ok(items[i as usize].clone())
            },
            _ => Err(RuntimeError::TypeMismatch),
        }
    }

    /// The two values' texts, joined.
    fn concat(lvalue: &Value, rvalue: &Value) -> (joined: Value)
        ensures
            joined@ == ValueView::String(display_text(lvalue@) + display_text(rvalue@)),
    {
        let mut out: Vec<char> = Vec::new();
        push_text(&mut out, lvalue.to_string().as_str());
        push_text(&mut out, rvalue.to_string().as_str());
        Value::String(whole_text(&out))
    }

    /// What a condition says, if it is a boolean.
    fn evaluate_condition(condition: &Value) -> (r: Option<bool>)
        ensures
            match r {
                Some(b) => condition@ == ValueView::Boolean(b),
                None => !(condition@ is Boolean),
            },
    {
        match condition {
            Value::Boolean(b) => Some(*b),
            _ => None,
        }
    }

    /// Ends a `print`: the value's text and a line feed are to be written.
    fn builtin_print(&mut self, value: Value) -> (action: Action)
        ensures
            final(self).after(action) == old(self)@.wrote(display_text(value@) + "\n"@),
    {
        let mut out: Vec<char> = Vec::new();
        push_text(&mut out, value.to_string().as_str());
        push_text(&mut out, "\n");
        Action::Write(whole_text(&out))
    }

    /// Starts an `input`: the prompt, if there is one, is evaluated and
    /// written, then a line is read.
    fn builtin_input(&mut self, prompt: Option<Node>, count: usize, wanted: bool) -> (action:
        Action)
        requires
            count == 0 <==> prompt is None,
        ensures
            final(self).after(action) == ({
                let m = old(self)@;
                let after = if wanted {
                    m
                } else {
                    m.with_task(TaskView::Drop)
                };
                if count == 0 {
                    after.with_task(TaskView::Read).ran()
                } else if count == 1 {
                    after.with_task(TaskView::Read).with_task(TaskView::Prompt).with_task(
                        TaskView::Eval(prompt->0@),
                    ).ran()
                } else {
                    m.failed(RuntimeError::ArityMismatch)
                }
            }),
    {
        if count > 1 {
            return self.fail(RuntimeError::ArityMismatch);
        }
        if !wanted {
            self.push_task(Task::Drop);
        }
        self.push_task(Task::Read);
        match prompt {
            Some(arg) => {
                self.push_task(Task::Prompt);
                self.push_task(Task::Eval(arg));
            },
            None => {},
        }
        Action::Continue
    }

    /// What `int` gives on a value.
    pub fn builtin_casti(value: &Value) -> (r: Result<Value, RuntimeError>)
        ensures
            match r {
                Ok(v) => cast_value(value@) == Ok::<ValueView, RuntimeError>(v@),
                Err(e) => cast_value(value@) == Err::<ValueView, RuntimeError>(e),
            },
    {
        match value {
            Value::String(s) => match read_unsigned(s.as_str()) {
                Some(n) => Ok(Value::Number(n)),
                None => Err(RuntimeError::TypeMismatch),
            },
            _ => Err(RuntimeError::TypeMismatch),
        }
    }

    /// The length of the array `ident`.
    fn builtin_length(&self, ident: &str) -> (r: Result<Value, RuntimeError>)
        ensures
            match r {
                Ok(v) => length_value(self@.symbols, ident@) == Ok::<ValueView, RuntimeError>(v@),
                Err(e) => length_value(self@.symbols, ident@) == Err::<ValueView, RuntimeError>(
                    e,
                ),
            },
    {
        let found = match self.symbol_table.lookup(ident) {
            Some(found) => found,
            None => {
                return Err(RuntimeError::UndefinedVariable);
            },
        };
        proof {
            if found is Array {
                lemma_array_view(found);
            }
        }
        match found {
            Value::Array(items) => Ok(Value::Number(items.len() as u64)),
            _ => Err(RuntimeError::TypeMismatch),
        }
    }
}

} // verus!
