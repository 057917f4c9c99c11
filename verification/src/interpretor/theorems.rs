//! What holds of the machine: the values are always enough for the tasks,
//! the machine agrees with the value of an expression, a stopped program
//! stays silent, and a prompt is written before its line is read.

use vstd::prelude::*;

use crate::ast::NodeView;
use crate::error::RuntimeError;
use crate::interpretor::{
    balanced, binary_value, element_value, leaves, length_value, reversed_runs, spec_finish,
    spec_get_expr_val, spec_run, spec_run_func, spec_run_node, spec_start, spec_step,
    spec_supply, stored_value, takes, zeros, ActionView, End, MachineView, Moved, RunView, Status,
    TaskView,
};
use crate::text::without_line_feed;
use crate::{Op, ValueView};

verus! {

/// No operator has a result on a number and a boolean, whichever side each
/// is on.
pub proof fn lemma_number_and_boolean(op: Op, x: u64, b: bool)
    ensures
        binary_value(op, ValueView::Number(x), ValueView::Boolean(b)) == Err::<
            ValueView,
            RuntimeError,
        >(RuntimeError::TypeMismatch),
        binary_value(op, ValueView::Boolean(b), ValueView::Number(x)) == Err::<
            ValueView,
            RuntimeError,
        >(RuntimeError::TypeMismatch),
{
}

/// Applying an operator to a number and a boolean stops the program.
pub proof fn lemma_mismatch_stops(m: MachineView, op: Op, x: u64, b: bool)
    requires
        m.status == Status::Running,
        m.tasks.len() > 0,
        m.tasks.last() == TaskView::Apply(op),
        m.values.len() >= 2,
        m.values[m.values.len() - 2] == ValueView::Number(x),
        m.values.last() == ValueView::Boolean(b),
    ensures
        spec_step(m) == m.failed(RuntimeError::TypeMismatch),
{
    reveal(spec_step);
    let rest = MachineView { tasks: m.tasks.drop_last(), ..m };
    assert(rest.popped().values.last() == ValueView::Number(x));
}

/// Looking up an identifier that was never assigned stops the program.
pub proof fn lemma_unassigned_stops(m: MachineView, ident: Seq<char>)
    requires
        m.status == Status::Running,
        m.tasks.len() > 0,
        m.tasks.last() == TaskView::Eval(NodeView::VariableRef(ident)),
        !m.symbols.contains_key(ident),
    ensures
        spec_step(m) == m.failed(RuntimeError::UndefinedVariable),
{
    reveal(spec_step);
}

/// A program that was stopped writes nothing more and reads nothing more:
/// whatever run follows leaves the machine as it is and ends at once.
pub proof fn lemma_stopped_is_silent(
    m: MachineView,
    error: RuntimeError,
    input: Seq<Seq<char>>,
    consumed: nat,
    steps: nat,
)
    requires
        m.status == Status::Failed(error),
        steps > 0,
    ensures
        spec_run(m, input, consumed, steps) == (RunView {
            machine: m,
            output: Seq::empty(),
            consumed,
            end: End::Failed(error),
        }),
{
    reveal(spec_step);
}

/// An array keeps the length that it was declared with: storing into it
/// changes one element and nothing else.
pub proof fn lemma_store_keeps_length(
    symbols: Map<Seq<char>, ValueView>,
    ident: Seq<char>,
    index: ValueView,
    value: ValueView,
)
    ensures
        stored_value(symbols, ident, index, value) matches Ok(ValueView::Array(items)) ==> {
            &&& symbols.contains_key(ident)
            &&& symbols[ident] matches ValueView::Array(before)
            &&& index matches ValueView::Number(i)
            &&& items.len() == before.len()
            &&& i < items.len()
            &&& items[i as int] == value
            &&& forall|j: int| 0 <= j < items.len() && j != i ==> items[j] == before[j]
        },
{
}

/// One more task on top asks for what it takes, and leaves the rest with
/// what it leaves.
pub proof fn lemma_balanced_push(tasks: Seq<TaskView>, task: TaskView, depth: int)
    ensures
        balanced(tasks.push(task), depth) == (depth >= takes(task) && balanced(
            tasks,
            depth + leaves(task),
        )),
{
    assert(tasks.push(task).drop_last() =~= tasks);
}

/// The statements of a block on top ask for nothing and leave nothing.
pub proof fn lemma_balanced_block(tasks: Seq<TaskView>, nodes: Seq<NodeView>, depth: int)
    ensures
        balanced(tasks + reversed_runs(nodes), depth) == balanced(tasks, depth),
    decreases nodes.len(),
{
    let runs = reversed_runs(nodes);
    if nodes.len() == 0 {
        assert(tasks + runs =~= tasks);
    } else {
        let fewer = nodes.drop_first();
        lemma_balanced_block(tasks, fewer, depth);
        assert((tasks + runs).drop_last() =~= tasks + reversed_runs(fewer));
        assert((tasks + runs).last() == TaskView::Run(nodes[0]));
    }
}

/// A machine that is about to run a program has the values that its tasks
/// need.
pub proof fn lemma_start_is_sound(ast: NodeView)
    ensures
        spec_start(ast).sound(),
{
    lemma_balanced_push(Seq::empty(), TaskView::Run(ast), 0);
    assert(Seq::<TaskView>::empty().push(TaskView::Run(ast)) =~= seq![TaskView::Run(ast)]);
}

/// Starting a call keeps the values enough.
proof fn lemma_call_is_sound(m: MachineView, ident: Seq<char>, args: Seq<NodeView>, wanted: bool)
    requires
        m.status == Status::Running,
        balanced(
            m.tasks,
            m.values.len() + if wanted {
                1int
            } else {
                0int
            },
        ),
    ensures
        spec_run_func(m, ident, args, wanted).machine.sound(),
{
    let d = m.values.len() as int;
    let t = m.tasks;
    lemma_balanced_push(t, TaskView::Missing, d);
    lemma_balanced_push(t, TaskView::Drop, d + 1);
    lemma_balanced_push(t, TaskView::Print, d + 1);
    lemma_balanced_push(t.push(TaskView::Missing), TaskView::Print, d + 1);
    lemma_balanced_push(t, TaskView::Read, d);
    lemma_balanced_push(t.push(TaskView::Drop), TaskView::Read, d);
    lemma_balanced_push(t.push(TaskView::Read), TaskView::Prompt, d + 1);
    lemma_balanced_push(t.push(TaskView::Drop).push(TaskView::Read), TaskView::Prompt, d + 1);
    lemma_balanced_push(t, TaskView::Cast, d + 1);
    lemma_balanced_push(t.push(TaskView::Drop), TaskView::Cast, d + 1);
    if args.len() > 0 {
        let eval = TaskView::Eval(args[0]);
        lemma_balanced_push(t.push(TaskView::Print), eval, d);
        lemma_balanced_push(t.push(TaskView::Missing).push(TaskView::Print), eval, d);
        lemma_balanced_push(t.push(TaskView::Read).push(TaskView::Prompt), eval, d);
        lemma_balanced_push(
            t.push(TaskView::Drop).push(TaskView::Read).push(TaskView::Prompt),
            eval,
            d,
        );
        lemma_balanced_push(t.push(TaskView::Cast), eval, d);
        lemma_balanced_push(t.push(TaskView::Drop).push(TaskView::Cast), eval, d);
    }
}

/// Starting a statement keeps the values enough.
proof fn lemma_statement_is_sound(m: MachineView, node: NodeView)
    requires
        m.status == Status::Running,
        balanced(m.tasks, m.values.len() as int),
    ensures
        spec_run_node(m, node).machine.sound(),
{
    let d = m.values.len() as int;
    let t = m.tasks;
    match node {
        NodeView::FuncCall { ident, args } => lemma_call_is_sound(m, ident, args, false),
        NodeView::Assign { ident, value } => {
            lemma_balanced_push(t, TaskView::Bind(ident), d + 1);
            lemma_balanced_push(t.push(TaskView::Bind(ident)), TaskView::Eval(*value), d);
        },
        NodeView::ArrayAssign { ident, size } => {
            lemma_balanced_push(t, TaskView::Declare(ident), d + 1);
            lemma_balanced_push(t.push(TaskView::Declare(ident)), TaskView::Eval(*size), d);
        },
        NodeView::ArrayAssingIndex { ident, index, value } => {
            let first = TaskView::StoreIndex { ident, value: *value };
            lemma_balanced_push(t, first, d + 1);
            lemma_balanced_push(t.push(first), TaskView::Eval(*index), d);
        },
        NodeView::IfExpr { expr, then, els } => {
            let first = TaskView::Branch { then: *then, els: *els };
            lemma_balanced_push(t, first, d + 1);
            lemma_balanced_push(t.push(first), TaskView::Eval(*expr), d);
        },
        NodeView::WhileStmt { expr, body } => {
            let first = TaskView::Loop { expr: *expr, body: *body };
            lemma_balanced_push(t, first, d + 1);
            lemma_balanced_push(t.push(first), TaskView::Eval(*expr), d);
        },
        NodeView::Block(nodes) => lemma_balanced_block(t, nodes, d),
        _ => {},
    }
}

/// Starting an expression keeps the values enough.
proof fn lemma_expression_is_sound(m: MachineView, node: NodeView)
    requires
        m.status == Status::Running,
        balanced(m.tasks, (m.values.len() + 1) as int),
    ensures
        spec_get_expr_val(m, node).machine.sound(),
{
    let d = m.values.len() as int;
    let t = m.tasks;
    match node {
        NodeView::BinaryExpr { left, operator, right } => {
            let apply = TaskView::Apply(operator);
            lemma_balanced_push(t, apply, d + 2);
            lemma_balanced_push(t.push(apply), TaskView::Eval(*right), d + 1);
            lemma_balanced_push(
                t.push(apply).push(TaskView::Eval(*right)),
                TaskView::Eval(*left),
                d,
            );
        },
        NodeView::ArrayRef { ident, index } => {
            lemma_balanced_push(t, TaskView::Element(ident), d + 1);
            lemma_balanced_push(t.push(TaskView::Element(ident)), TaskView::Eval(*index), d);
        },
        NodeView::FuncCall { ident, args } => lemma_call_is_sound(m, ident, args, true),
        _ => {},
    }
}

/// Carrying out a task on the top value keeps the values enough.
proof fn lemma_finish_is_sound(m: MachineView, task: TaskView, top: ValueView)
    requires
        m.status == Status::Running,
        takes(task) >= 1,
        m.values.len() + 1 >= takes(task),
        balanced(m.tasks, m.values.len() + 1 + leaves(task)),
    ensures
        spec_finish(m, task, top).machine.sound(),
{
    let d = m.values.len() as int;
    let t = m.tasks;
    match task {
        TaskView::StoreIndex { ident, value } => {
            lemma_balanced_push(t, TaskView::Store(ident), d + 2);
            lemma_balanced_push(t.push(TaskView::Store(ident)), TaskView::Eval(value), d + 1);
        },
        TaskView::Branch { then, els } => {
            lemma_balanced_push(t, TaskView::Run(then), d);
            lemma_balanced_push(t, TaskView::Run(els), d);
        },
        TaskView::Loop { expr, body } => {
            let again = TaskView::Loop { expr, body };
            lemma_balanced_push(t, again, d + 1);
            lemma_balanced_push(t.push(again), TaskView::Eval(expr), d);
            lemma_balanced_push(t.push(again).push(TaskView::Eval(expr)), TaskView::Run(body), d);
        },
        _ => {},
    }
}

/// A step keeps the values enough for the tasks.
pub proof fn lemma_step_keeps_sound(m: MachineView)
    requires
        m.sound(),
    ensures
        spec_step(m).machine.sound(),
{
    reveal(spec_step);
    if m.status == Status::Running && m.tasks.len() > 0 {
        let task = m.tasks.last();
        let rest = MachineView { tasks: m.tasks.drop_last(), ..m };
        match task {
            TaskView::Run(node) => lemma_statement_is_sound(rest, node),
            TaskView::Eval(node) => lemma_expression_is_sound(rest, node),
            TaskView::Read => {},
            TaskView::Missing => {},
            _ => lemma_finish_is_sound(rest.popped(), task, m.values.last()),
        }
    }
}

/// Handing a line to the machine keeps the values enough for the tasks.
pub proof fn lemma_supply_keeps_sound(m: MachineView, line: Seq<char>)
    requires
        m.sound(),
    ensures
        spec_supply(m, line).sound(),
{
}

/// A program never stops for want of a value: in a machine that started
/// with a program and was stepped and fed from there, the task on top finds
/// the values that it takes.
pub proof fn lemma_sound_finds_values(m: MachineView)
    requires
        m.sound(),
        m.status == Status::Running,
        m.tasks.len() > 0,
    ensures
        m.values.len() >= takes(m.tasks.last()),
{
}

/// A run keeps the values enough for the tasks.
pub proof fn lemma_run_keeps_sound(m: MachineView, input: Seq<Seq<char>>, consumed: nat, steps: nat)
    requires
        m.sound(),
    ensures
        spec_run(m, input, consumed, steps).machine.sound(),
    decreases steps,
{
    if steps > 0 {
        let moved = spec_step(m);
        lemma_step_keeps_sound(m);
        match moved.action {
            ActionView::Continue => lemma_run_keeps_sound(
                moved.machine,
                input,
                consumed,
                (steps - 1) as nat,
            ),
            ActionView::Write(text) => lemma_run_keeps_sound(
                moved.machine,
                input,
                consumed,
                (steps - 1) as nat,
            ),
            ActionView::ReadLine => {
                if consumed < input.len() {
                    lemma_supply_keeps_sound(moved.machine, input[consumed as int]);
                    lemma_run_keeps_sound(
                        spec_supply(moved.machine, input[consumed as int]),
                        input,
                        consumed + 1,
                        (steps - 1) as nat,
                    );
                }
            },
            _ => {},
        }
    }
}

/// Whether an expression holds no call: evaluating it reads no line and
/// writes no text.
pub open spec fn pure(node: NodeView) -> bool
    decreases node,
{
    match node {
        NodeView::BinaryExpr { left, operator, right } => pure(*left) && pure(*right),
        NodeView::ArrayRef { ident, index } => pure(*index),
        NodeView::FuncCall { .. } => false,
        _ => true,
    }
}

/// The value of an expression that holds no call, under the given
/// variables: the left operand of a binary expression first, the right one
/// only where the left one has a value.
pub open spec fn value_of(node: NodeView, symbols: Map<Seq<char>, ValueView>) -> Result<
    ValueView,
    RuntimeError,
>
    decreases node,
{
    match node {
        NodeView::Primary(value) => Ok(value),
        NodeView::VariableRef(ident) => if symbols.contains_key(ident) {
            Ok(symbols[ident])
        } else {
            Err(RuntimeError::UndefinedVariable)
        },
        NodeView::DotExpr { left, right } => if right == "length"@ {
            length_value(symbols, left)
        } else {
            Err(RuntimeError::UnsupportedOperator)
        },
        NodeView::ArrayRef { ident, index } => match value_of(*index, symbols) {
            Ok(i) => element_value(symbols, ident, i),
            Err(error) => Err(error),
        },
        NodeView::BinaryExpr { left, operator, right } => match value_of(*left, symbols) {
            Ok(a) => match value_of(*right, symbols) {
                Ok(b) => binary_value(operator, a, b),
                Err(error) => Err(error),
            },
            Err(error) => Err(error),
        },
        _ => Err(RuntimeError::UnsupportedOperator),
    }
}

/// How many steps the machine takes over an expression that holds no call.
pub open spec fn steps_of(node: NodeView, symbols: Map<Seq<char>, ValueView>) -> nat
    decreases node,
{
    match node {
        NodeView::ArrayRef { ident, index } => 1 + steps_of(*index, symbols) + if value_of(
            *index,
            symbols,
        ) is Ok {
            1nat
        } else {
            0nat
        },
        NodeView::BinaryExpr { left, operator, right } => 1 + steps_of(*left, symbols)
            + if value_of(*left, symbols) is Ok {
            steps_of(*right, symbols) + if value_of(*right, symbols) is Ok {
                1nat
            } else {
                0nat
            }
        } else {
            0nat
        },
        _ => 1,
    }
}

/// The run of a program that is stopped before anything more is written or
/// read: the work that was left is dropped, the variables stay.
pub open spec fn stopped(m: MachineView, error: RuntimeError, consumed: nat) -> RunView {
    RunView {
        machine: m.failed(error).machine,
        output: Seq::empty(),
        consumed,
        end: End::Failed(error),
    }
}

/// The machine without its top task.
pub open spec fn below(m: MachineView) -> MachineView {
    MachineView { tasks: m.tasks.drop_last(), ..m }
}

/// What a run from `m` comes to once the expression on top of its tasks,
/// which holds no call, is evaluated: the run from the machine with the
/// value on top of its values, or the end of the program.
pub open spec fn evaluated(
    m: MachineView,
    node: NodeView,
    input: Seq<Seq<char>>,
    consumed: nat,
    steps: nat,
) -> RunView {
    match value_of(node, m.symbols) {
        Ok(value) => spec_run(
            below(m).with_value(value),
            input,
            consumed,
            (steps - steps_of(node, m.symbols)) as nat,
        ),
        Err(error) => stopped(m, error, consumed),
    }
}

/// A step on an expression starts the expression.
proof fn lemma_step_starts(m: MachineView, node: NodeView)
    requires
        m.status == Status::Running,
        m.tasks.len() > 0,
        m.tasks.last() == TaskView::Eval(node),
    ensures
        spec_step(m) == spec_get_expr_val(below(m), node),
{
    reveal(spec_step);
}

/// A step on a task that works on the top value carries the task out on
/// that value.
proof fn lemma_step_finishes(m: MachineView)
    requires
        m.status == Status::Running,
        m.tasks.len() > 0,
        takes(m.tasks.last()) >= 1,
        m.values.len() > 0,
    ensures
        spec_step(m) == spec_finish(below(m).popped(), m.tasks.last(), m.values.last()),
{
    reveal(spec_step);
}

/// The last step over an array element: with the index on top of the
/// values, the element is fetched.
proof fn lemma_element_follows(
    m: MachineView,
    ident: Seq<char>,
    i: ValueView,
    input: Seq<Seq<char>>,
    consumed: nat,
    steps: nat,
)
    requires
        m.status == Status::Running,
        steps >= 1,
    ensures
        spec_run(m.with_task(TaskView::Element(ident)).with_value(i), input, consumed, steps)
            == match element_value(m.symbols, ident, i) {
            Ok(value) => spec_run(m.with_value(value), input, consumed, (steps - 1) as nat),
            Err(error) => stopped(m, error, consumed),
        },
{
    let m2 = m.with_task(TaskView::Element(ident)).with_value(i);
    lemma_step_finishes(m2);
    assert(m2.tasks.drop_last() =~= m.tasks);
    assert(m2.values.drop_last() =~= m.values);
    assert(below(m2).popped() == m);
}

/// The last step over a binary expression: with the two operands on top of
/// the values, the operator is applied.
proof fn lemma_apply_follows(
    m: MachineView,
    operator: Op,
    a: ValueView,
    b: ValueView,
    input: Seq<Seq<char>>,
    consumed: nat,
    steps: nat,
)
    requires
        m.status == Status::Running,
        steps >= 1,
    ensures
        spec_run(
            m.with_task(TaskView::Apply(operator)).with_value(a).with_value(b),
            input,
            consumed,
            steps,
        ) == match binary_value(operator, a, b) {
            Ok(value) => spec_run(m.with_value(value), input, consumed, (steps - 1) as nat),
            Err(error) => stopped(m, error, consumed),
        },
{
    let m3 = m.with_task(TaskView::Apply(operator)).with_value(a).with_value(b);
    lemma_step_finishes(m3);
    assert(m3.tasks.drop_last() =~= m.tasks);
    assert(m3.values.drop_last() =~= m.values.push(a));
    assert(m3.values.drop_last().drop_last() =~= m.values);
    assert(below(m3).popped().popped() == m);
}

/// The machine agrees with the value of an expression: evaluating an
/// expression that holds no call takes `steps_of` steps, writes and reads
/// nothing, changes no variable, and leaves the expression's value on top
/// of the values, or stops the program with the expression's error.
pub proof fn lemma_machine_evaluates(
    m: MachineView,
    node: NodeView,
    input: Seq<Seq<char>>,
    consumed: nat,
    steps: nat,
)
    requires
        pure(node),
        m.status == Status::Running,
        m.tasks.len() > 0,
        m.tasks.last() == TaskView::Eval(node),
        steps >= steps_of(node, m.symbols),
    ensures
        spec_run(m, input, consumed, steps) == evaluated(m, node, input, consumed, steps),
    decreases node,
{
    let rest = below(m);
    let after = (steps - 1) as nat;
    lemma_step_starts(m, node);
    match node {
        NodeView::ArrayRef { ident, index } => {
            let element = TaskView::Element(ident);
            let m1 = rest.with_task(element).with_task(TaskView::Eval(*index));
            assert(spec_run(m, input, consumed, steps) == spec_run(m1, input, consumed, after));
            lemma_machine_evaluates(m1, *index, input, consumed, after);
            assert(m1.tasks.drop_last() =~= rest.tasks.push(element));
            assert(below(m1) == rest.with_task(element));
            match value_of(*index, m.symbols) {
                Ok(i) => {
                    let left = (after - steps_of(*index, m.symbols)) as nat;
                    lemma_element_follows(rest, ident, i, input, consumed, left);
                },
                Err(error) => {},
            }
        },
        NodeView::BinaryExpr { left, operator, right } => {
            let apply = TaskView::Apply(operator);
            let m1 = rest.with_task(apply).with_task(TaskView::Eval(*right)).with_task(
                TaskView::Eval(*left),
            );
            assert(spec_run(m, input, consumed, steps) == spec_run(m1, input, consumed, after));
            lemma_machine_evaluates(m1, *left, input, consumed, after);
            assert(m1.tasks.drop_last() =~= rest.tasks.push(apply).push(TaskView::Eval(*right)));
            assert(below(m1) == rest.with_task(apply).with_task(TaskView::Eval(*right)));
            match value_of(*left, m.symbols) {
                Ok(a) => {
                    let second = (after - steps_of(*left, m.symbols)) as nat;
                    let m2 = below(m1).with_value(a);
                    lemma_machine_evaluates(m2, *right, input, consumed, second);
                    assert(m2.tasks.drop_last() =~= rest.tasks.push(apply));
                    assert(below(m2) == rest.with_task(apply).with_value(a));
                    match value_of(*right, m.symbols) {
                        Ok(b) => {
                            let third = (second - steps_of(*right, m.symbols)) as nat;
                            lemma_apply_follows(rest, operator, a, b, input, consumed, third);
                        },
                        Err(error) => {},
                    }
                },
                Err(error) => {},
            }
        },
        _ => {},
    }
}

/// Assigning an expression that holds no call binds the expression's value
/// and changes nothing else, or stops the program with the expression's
/// error.
pub proof fn lemma_machine_assigns(
    m: MachineView,
    ident: Seq<char>,
    value: NodeView,
    input: Seq<Seq<char>>,
    consumed: nat,
    steps: nat,
)
    requires
        pure(value),
        m.status == Status::Running,
        m.tasks.len() > 0,
        m.tasks.last() == TaskView::Run(NodeView::Assign { ident, value: Box::new(value) }),
        steps >= steps_of(value, m.symbols) + 2,
    ensures
        spec_run(m, input, consumed, steps) == match value_of(value, m.symbols) {
            Ok(v) => spec_run(
                below(m).bound(ident, v),
                input,
                consumed,
                (steps - steps_of(value, m.symbols) - 2) as nat,
            ),
            Err(error) => stopped(m, error, consumed),
        },
{
    let rest = MachineView { tasks: m.tasks.drop_last(), ..m };
    let bind = TaskView::Bind(ident);
    let m1 = rest.with_task(bind).with_task(TaskView::Eval(value));
    let after = (steps - 1) as nat;
    assert(spec_step(m) == m1.ran()) by {
        reveal(spec_step);
    }
    assert(spec_run(m, input, consumed, steps) == spec_run(m1, input, consumed, after));
    lemma_machine_evaluates(m1, value, input, consumed, after);
    assert(m1.tasks.drop_last() =~= rest.tasks.push(bind));
    match value_of(value, m.symbols) {
        Ok(v) => {
            let left = (after - steps_of(value, m.symbols)) as nat;
            let m2 = rest.with_task(bind).with_value(v);
            assert(MachineView { tasks: m1.tasks.drop_last(), ..m1 }.with_value(v) == m2);
            assert(m2.tasks.drop_last() =~= rest.tasks);
            assert(m2.values.drop_last() =~= rest.values);
            assert(spec_step(m2) == rest.bound(ident, v).ran()) by {
                reveal(spec_step);
            }
            assert(spec_run(m2, input, consumed, left) == spec_run(
                rest.bound(ident, v),
                input,
                consumed,
                (left - 1) as nat,
            ));
        },
        Err(error) => {},
    }
}

/// Declaring an array whose size holds no call binds as many zeros as the
/// size says, or stops the program: with the size's error, or because the
/// size is no number.
pub proof fn lemma_machine_declares(
    m: MachineView,
    ident: Seq<char>,
    size: NodeView,
    input: Seq<Seq<char>>,
    consumed: nat,
    steps: nat,
)
    requires
        pure(size),
        m.status == Status::Running,
        m.tasks.len() > 0,
        m.tasks.last() == TaskView::Run(NodeView::ArrayAssign { ident, size: Box::new(size) }),
        steps >= steps_of(size, m.symbols) + 2,
    ensures
        spec_run(m, input, consumed, steps) == match value_of(size, m.symbols) {
            Ok(ValueView::Number(n)) => if n <= usize::MAX {
                spec_run(
                    below(m).bound(ident, ValueView::Array(zeros(n as nat))),
                    input,
                    consumed,
                    (steps - steps_of(size, m.symbols) - 2) as nat,
                )
            } else {
                stopped(m, RuntimeError::IndexOutOfRange, consumed)
            },
            Ok(_) => stopped(m, RuntimeError::TypeMismatch, consumed),
            Err(error) => stopped(m, error, consumed),
        },
{
    let rest = below(m);
    let declare = TaskView::Declare(ident);
    let m1 = rest.with_task(declare).with_task(TaskView::Eval(size));
    let after = (steps - 1) as nat;
    assert(spec_step(m) == m1.ran()) by {
        reveal(spec_step);
    }
    assert(spec_run(m, input, consumed, steps) == spec_run(m1, input, consumed, after));
    lemma_machine_evaluates(m1, size, input, consumed, after);
    assert(m1.tasks.drop_last() =~= rest.tasks.push(declare));
    match value_of(size, m.symbols) {
        Ok(v) => {
            let left = (after - steps_of(size, m.symbols)) as nat;
            let m2 = rest.with_task(declare).with_value(v);
            assert(below(m1).with_value(v) == m2);
            assert(m2.tasks.drop_last() =~= rest.tasks);
            assert(m2.values.drop_last() =~= rest.values);
            assert(spec_step(m2) == spec_finish(rest, declare, v)) by {
                reveal(spec_step);
            }
            assert(spec_run(m2, input, consumed, left) == match spec_finish(
                rest,
                declare,
                v,
            ).action {
                ActionView::Continue => spec_run(
                    spec_finish(rest, declare, v).machine,
                    input,
                    consumed,
                    (left - 1) as nat,
                ),
                _ => stopped(m, spec_finish(rest, declare, v).action->Fatal_0, consumed),
            });
        },
        Err(error) => {},
    }
}

/// Storing into an array, where neither the index nor the value holds a
/// call: the index is evaluated and has to be a number before the value is
/// evaluated; then the array is bound again with the value at the index, or
/// the program is stopped.
pub proof fn lemma_machine_stores(
    m: MachineView,
    ident: Seq<char>,
    index: NodeView,
    value: NodeView,
    input: Seq<Seq<char>>,
    consumed: nat,
    steps: nat,
)
    requires
        pure(index),
        pure(value),
        m.status == Status::Running,
        m.tasks.len() > 0,
        m.tasks.last() == TaskView::Run(
            NodeView::ArrayAssingIndex { ident, index: Box::new(index), value: Box::new(value) },
        ),
        steps >= steps_of(index, m.symbols) + steps_of(value, m.symbols) + 3,
    ensures
        spec_run(m, input, consumed, steps) == match value_of(index, m.symbols) {
            Ok(ValueView::Number(i)) => match value_of(value, m.symbols) {
                Ok(v) => match stored_value(m.symbols, ident, ValueView::Number(i), v) {
                    Ok(array) => spec_run(
                        below(m).bound(ident, array),
                        input,
                        consumed,
                        (steps - steps_of(index, m.symbols) - steps_of(value, m.symbols)
                            - 3) as nat,
                    ),
                    Err(error) => stopped(m, error, consumed),
                },
                Err(error) => stopped(m, error, consumed),
            },
            Ok(_) => stopped(m, RuntimeError::TypeMismatch, consumed),
            Err(error) => stopped(m, error, consumed),
        },
{
    let rest = below(m);
    let first = TaskView::StoreIndex { ident, value };
    let store = TaskView::Store(ident);
    let m1 = rest.with_task(first).with_task(TaskView::Eval(index));
    let after = (steps - 1) as nat;
    assert(spec_step(m) == m1.ran()) by {
        reveal(spec_step);
    }
    assert(spec_run(m, input, consumed, steps) == spec_run(m1, input, consumed, after));
    lemma_machine_evaluates(m1, index, input, consumed, after);
    assert(m1.tasks.drop_last() =~= rest.tasks.push(first));
    match value_of(index, m.symbols) {
        Ok(i) => {
            let second = (after - steps_of(index, m.symbols)) as nat;
            let m2 = rest.with_task(first).with_value(i);
            assert(below(m1).with_value(i) == m2);
            assert(m2.tasks.drop_last() =~= rest.tasks);
            assert(m2.values.drop_last() =~= rest.values);
            assert(spec_step(m2) == spec_finish(rest, first, i)) by {
                reveal(spec_step);
            }
            if i is Number {
                let m3 = rest.with_value(i).with_task(store).with_task(TaskView::Eval(value));
                assert(spec_run(m2, input, consumed, second) == spec_run(
                    m3,
                    input,
                    consumed,
                    (second - 1) as nat,
                ));
                lemma_machine_evaluates(m3, value, input, consumed, (second - 1) as nat);
                assert(m3.tasks.drop_last() =~= rest.tasks.push(store));
                match value_of(value, m.symbols) {
                    Ok(v) => {
                        let third = (second - 1 - steps_of(value, m.symbols)) as nat;
                        let m4 = rest.with_value(i).with_task(store).with_value(v);
                        assert(below(m3).with_value(v) == m4);
                        assert(m4.tasks.drop_last() =~= rest.tasks);
                        assert(m4.values.drop_last() =~= rest.values.push(i));
                        assert(m4.values.drop_last().drop_last() =~= rest.values);
                        assert(spec_step(m4) == match stored_value(m.symbols, ident, i, v) {
                            Ok(array) => rest.bound(ident, array).ran(),
                            Err(error) => rest.failed(error),
                        }) by {
                            reveal(spec_step);
                            assert(below(m4).popped().popped() == rest);
                        }
                        assert(spec_run(m4, input, consumed, third) == match stored_value(
                            m.symbols,
                            ident,
                            i,
                            v,
                        ) {
                            Ok(array) => spec_run(
                                rest.bound(ident, array),
                                input,
                                consumed,
                                (third - 1) as nat,
                            ),
                            Err(error) => stopped(m, error, consumed),
                        });
                    },
                    Err(error) => {},
                }
            } else {
                assert(spec_run(m2, input, consumed, second) == stopped(
                    m,
                    RuntimeError::TypeMismatch,
                    consumed,
                ));
            }
        },
        Err(error) => {},
    }
}

/// A conditional whose condition holds no call goes on with the statement
/// that the condition names, or stops the program: with the condition's
/// error, or because the condition is no boolean.
pub proof fn lemma_machine_branches(
    m: MachineView,
    expr: NodeView,
    then: NodeView,
    els: NodeView,
    input: Seq<Seq<char>>,
    consumed: nat,
    steps: nat,
)
    requires
        pure(expr),
        m.status == Status::Running,
        m.tasks.len() > 0,
        m.tasks.last() == TaskView::Run(
            NodeView::IfExpr { expr: Box::new(expr), then: Box::new(then), els: Box::new(els) },
        ),
        steps >= steps_of(expr, m.symbols) + 2,
    ensures
        spec_run(m, input, consumed, steps) == match value_of(expr, m.symbols) {
            Ok(ValueView::Boolean(b)) => spec_run(
                below(m).with_task(
                    TaskView::Run(
                        if b {
                            then
                        } else {
                            els
                        },
                    ),
                ),
                input,
                consumed,
                (steps - steps_of(expr, m.symbols) - 2) as nat,
            ),
            Ok(_) => stopped(m, RuntimeError::TypeMismatch, consumed),
            Err(error) => stopped(m, error, consumed),
        },
{
    let rest = below(m);
    let branch = TaskView::Branch { then, els };
    let m1 = rest.with_task(branch).with_task(TaskView::Eval(expr));
    let after = (steps - 1) as nat;
    assert(spec_step(m) == m1.ran()) by {
        reveal(spec_step);
    }
    assert(spec_run(m, input, consumed, steps) == spec_run(m1, input, consumed, after));
    lemma_machine_evaluates(m1, expr, input, consumed, after);
    assert(m1.tasks.drop_last() =~= rest.tasks.push(branch));
    match value_of(expr, m.symbols) {
        Ok(v) => {
            let left = (after - steps_of(expr, m.symbols)) as nat;
            let m2 = rest.with_task(branch).with_value(v);
            assert(below(m1).with_value(v) == m2);
            assert(m2.tasks.drop_last() =~= rest.tasks);
            assert(m2.values.drop_last() =~= rest.values);
            assert(spec_step(m2) == spec_finish(rest, branch, v)) by {
                reveal(spec_step);
            }
            assert(spec_run(m2, input, consumed, left) == match spec_finish(
                rest,
                branch,
                v,
            ).action {
                ActionView::Continue => spec_run(
                    spec_finish(rest, branch, v).machine,
                    input,
                    consumed,
                    (left - 1) as nat,
                ),
                _ => stopped(m, RuntimeError::TypeMismatch, consumed),
            });
        },
        Err(error) => {},
    }
}

/// A loop whose condition holds no call, unrolled once: where the condition
/// is true, the body is run and the loop stands again as it stood after its
/// first step; where it is false, the loop is over; anything else stops the
/// program.
pub proof fn lemma_machine_loops(
    m: MachineView,
    expr: NodeView,
    body: NodeView,
    input: Seq<Seq<char>>,
    consumed: nat,
    steps: nat,
)
    requires
        pure(expr),
        m.status == Status::Running,
        m.tasks.len() > 0,
        m.tasks.last() == TaskView::Run(
            NodeView::WhileStmt { expr: Box::new(expr), body: Box::new(body) },
        ),
        steps >= steps_of(expr, m.symbols) + 2,
    ensures
        spec_run(m, input, consumed, steps) == match value_of(expr, m.symbols) {
            Ok(ValueView::Boolean(true)) => spec_run(
                spec_step(m).machine.with_task(TaskView::Run(body)),
                input,
                consumed,
                (steps - steps_of(expr, m.symbols) - 2) as nat,
            ),
            Ok(ValueView::Boolean(false)) => spec_run(
                below(m),
                input,
                consumed,
                (steps - steps_of(expr, m.symbols) - 2) as nat,
            ),
            Ok(_) => stopped(m, RuntimeError::TypeMismatch, consumed),
            Err(error) => stopped(m, error, consumed),
        },
{
    let rest = below(m);
    let again = TaskView::Loop { expr, body };
    let m1 = rest.with_task(again).with_task(TaskView::Eval(expr));
    let after = (steps - 1) as nat;
    assert(spec_step(m) == m1.ran()) by {
        reveal(spec_step);
    }
    assert(spec_run(m, input, consumed, steps) == spec_run(m1, input, consumed, after));
    lemma_machine_evaluates(m1, expr, input, consumed, after);
    assert(m1.tasks.drop_last() =~= rest.tasks.push(again));
    match value_of(expr, m.symbols) {
        Ok(v) => {
            let left = (after - steps_of(expr, m.symbols)) as nat;
            let m2 = rest.with_task(again).with_value(v);
            assert(below(m1).with_value(v) == m2);
            assert(m2.tasks.drop_last() =~= rest.tasks);
            assert(m2.values.drop_last() =~= rest.values);
            assert(spec_step(m2) == spec_finish(rest, again, v)) by {
                reveal(spec_step);
            }
            assert(spec_run(m2, input, consumed, left) == match spec_finish(rest, again, v).action {
                ActionView::Continue => spec_run(
                    spec_finish(rest, again, v).machine,
                    input,
                    consumed,
                    (left - 1) as nat,
                ),
                _ => stopped(m, RuntimeError::TypeMismatch, consumed),
            });
        },
        Err(error) => {},
    }
}

/// The life of an array: declared with a length, it holds that many zeros;
/// after a store at an index below the length, the element at the index is
/// what was stored, the other elements are what they were, and the length is
/// the one it was declared with.
pub proof fn lemma_array_lifecycle(
    symbols: Map<Seq<char>, ValueView>,
    ident: Seq<char>,
    length: u64,
    index: u64,
    value: ValueView,
)
    requires
        index < length,
    ensures
        ({
            let declared = symbols.insert(ident, ValueView::Array(zeros(length as nat)));
            let stored = stored_value(declared, ident, ValueView::Number(index), value);
            &&& length_value(declared, ident) == Ok::<ValueView, RuntimeError>(
                ValueView::Number(length),
            )
            &&& forall|i: u64|
                i < length ==> element_value(declared, ident, ValueView::Number(i)) == Ok::<
                    ValueView,
                    RuntimeError,
                >(ValueView::Number(0))
            &&& stored is Ok
            &&& ({
                let after = declared.insert(ident, stored->Ok_0);
                &&& element_value(after, ident, ValueView::Number(index)) == Ok::<
                    ValueView,
                    RuntimeError,
                >(value)
                &&& length_value(after, ident) == Ok::<ValueView, RuntimeError>(
                    ValueView::Number(length),
                )
                &&& forall|i: u64|
                    i < length && i != index ==> element_value(
                        after,
                        ident,
                        ValueView::Number(i),
                    ) == Ok::<ValueView, RuntimeError>(ValueView::Number(0))
            })
        }),
{
}

/// An index at or beyond an array's length finds no element and stores
/// none.
pub proof fn lemma_index_beyond_length(
    symbols: Map<Seq<char>, ValueView>,
    ident: Seq<char>,
    items: Seq<ValueView>,
    index: u64,
    value: ValueView,
)
    requires
        symbols.contains_key(ident),
        symbols[ident] == ValueView::Array(items),
        index >= items.len(),
    ensures
        element_value(symbols, ident, ValueView::Number(index)) == Err::<ValueView, RuntimeError>(
            RuntimeError::IndexOutOfRange,
        ),
        stored_value(symbols, ident, ValueView::Number(index), value) == Err::<
            ValueView,
            RuntimeError,
        >(RuntimeError::IndexOutOfRange),
{
}

/// The program that reads a line under a prompt into a variable and prints
/// the variable.
pub open spec fn echo_program(name: Seq<char>, prompt: Seq<char>) -> NodeView {
    NodeView::Block(seq![echo_read(name, prompt), echo_print(name)])
}

/// The statement that reads a line under a prompt into a variable.
pub open spec fn echo_read(name: Seq<char>, prompt: Seq<char>) -> NodeView {
    NodeView::Assign { ident: name, value: Box::new(echo_input(prompt)) }
}

/// The call that reads a line under a prompt.
pub open spec fn echo_input(prompt: Seq<char>) -> NodeView {
    NodeView::FuncCall {
        ident: "input"@,
        args: seq![NodeView::Primary(ValueView::String(prompt))],
    }
}

/// The statement that prints a variable.
pub open spec fn echo_print(name: Seq<char>) -> NodeView {
    NodeView::FuncCall { ident: "print"@, args: seq![NodeView::VariableRef(name)] }
}

/// A running machine with the given tasks, values and variables.
pub open spec fn running(
    tasks: Seq<TaskView>,
    values: Seq<ValueView>,
    symbols: Map<Seq<char>, ValueView>,
) -> MachineView {
    MachineView { tasks, values, symbols, status: Status::Running }
}

/// The echo program up to the point where it asks for its line: five steps
/// that write the prompt and nothing else, and leave the machine waiting.
proof fn lemma_echo_asks(name: Seq<char>, prompt: Seq<char>, input: Seq<Seq<char>>, steps: nat)
    requires
        steps >= 6,
    ensures
        ({
            let waiting = MachineView {
                status: Status::Waiting,
                ..running(
                    seq![TaskView::Run(echo_print(name)), TaskView::Bind(name)],
                    Seq::empty(),
                    Map::empty(),
                )
            };
            &&& spec_run(spec_start(echo_program(name, prompt)), input, 0, steps) == if 0
                < input.len() {
                spec_run(spec_supply(waiting, input[0]), input, 1, (steps - 6) as nat).after(
                    prompt,
                )
            } else {
                (RunView {
                    machine: waiting,
                    output: Seq::empty(),
                    consumed: 0,
                    end: End::AwaitingInput,
                }).after(prompt)
            }
        }),
{
    reveal_strlit("input");
    reveal_strlit("print");
    assert("input"@ != "print"@) by {
        assert("input"@[0] != "print"@[0]);
    }
    let none = Seq::<ValueView>::empty();
    let vars = Map::<Seq<char>, ValueView>::empty();
    let print = TaskView::Run(echo_print(name));
    let text = ValueView::String(prompt);
    let m0 = spec_start(echo_program(name, prompt));
    let m1 = running(seq![print, TaskView::Run(echo_read(name, prompt))], none, vars);
    let m2 = running(
        seq![print, TaskView::Bind(name), TaskView::Eval(echo_input(prompt))],
        none,
        vars,
    );
    let m3 = running(
        seq![
            print,
            TaskView::Bind(name),
            TaskView::Read,
            TaskView::Prompt,
            TaskView::Eval(NodeView::Primary(text)),
        ],
        none,
        vars,
    );
    let m4 = running(
        seq![print, TaskView::Bind(name), TaskView::Read, TaskView::Prompt],
        seq![text],
        vars,
    );
    let m5 = running(seq![print, TaskView::Bind(name), TaskView::Read], none, vars);
    let m6 = MachineView {
        status: Status::Waiting,
        ..running(seq![print, TaskView::Bind(name)], none, vars)
    };
    assert(spec_step(m0) == m1.ran()) by {
        reveal(spec_step);
        let nodes = seq![echo_read(name, prompt), echo_print(name)];
        assert(m0.tasks.drop_last() + reversed_runs(nodes) =~= m1.tasks);
    }
    assert(spec_step(m1) == m2.ran()) by {
        reveal(spec_step);
        assert(m1.tasks.drop_last().push(TaskView::Bind(name)).push(
            TaskView::Eval(echo_input(prompt)),
        ) =~= m2.tasks);
    }
    assert(spec_step(m2) == m3.ran()) by {
        reveal(spec_step);
        assert(m2.tasks.drop_last().push(TaskView::Read).push(TaskView::Prompt).push(
            TaskView::Eval(NodeView::Primary(text)),
        ) =~= m3.tasks);
    }
    assert(spec_step(m3) == m4.ran()) by {
        reveal(spec_step);
        assert(m3.tasks.drop_last() =~= m4.tasks);
        assert(none.push(text) =~= m4.values);
    }
    assert(spec_step(m4) == m5.wrote(prompt)) by {
        reveal(spec_step);
        assert(m4.tasks.drop_last() =~= m5.tasks);
        assert(m4.values.drop_last() =~= none);
    }
    assert(spec_step(m5) == (Moved { machine: m6, action: ActionView::ReadLine })) by {
        reveal(spec_step);
        assert(m5.tasks.drop_last() =~= m6.tasks);
    }
    let s = steps;
    assert(spec_run(m0, input, 0, s) == spec_run(m1, input, 0, (s - 1) as nat));
    assert(spec_run(m1, input, 0, (s - 1) as nat) == spec_run(m2, input, 0, (s - 2) as nat));
    assert(spec_run(m2, input, 0, (s - 2) as nat) == spec_run(m3, input, 0, (s - 3) as nat));
    assert(spec_run(m3, input, 0, (s - 3) as nat) == spec_run(m4, input, 0, (s - 4) as nat));
    assert(spec_run(m4, input, 0, (s - 4) as nat) == spec_run(m5, input, 0, (s - 5) as nat).after(
        prompt,
    ));
    assert(spec_run(m5, input, 0, (s - 5) as nat) == if 0 < input.len() {
        spec_run(spec_supply(m6, input[0]), input, 1, (s - 6) as nat)
    } else {
        RunView { machine: m6, output: Seq::empty(), consumed: 0, end: End::AwaitingInput }
    });
}

/// The echo program from the point where it was handed its line: five steps
/// that write the line and a line feed, and end the program.
proof fn lemma_echo_answers(name: Seq<char>, held: Seq<char>, input: Seq<Seq<char>>, steps: nat)
    requires
        steps >= 5,
    ensures
        ({
            let fed = running(
                seq![TaskView::Run(echo_print(name)), TaskView::Bind(name)],
                seq![ValueView::String(held)],
                Map::empty(),
            );
            let run = spec_run(fed, input, 1, steps);
            &&& run.output == held + "\n"@
            &&& run.end == End::Finished
            &&& run.consumed == 1
            &&& run.machine.symbols == Map::<Seq<char>, ValueView>::empty().insert(
                name,
                ValueView::String(held),
            )
        }),
{
    reveal_strlit("input");
    reveal_strlit("print");
    assert("input"@ != "print"@) by {
        assert("input"@[0] != "print"@[0]);
    }
    let none = Seq::<ValueView>::empty();
    let text = ValueView::String(held);
    let vars = Map::<Seq<char>, ValueView>::empty().insert(name, text);
    let print = TaskView::Run(echo_print(name));
    let m0 = running(seq![print, TaskView::Bind(name)], seq![text], Map::empty());
    let m1 = running(seq![print], none, vars);
    let m2 = running(
        seq![TaskView::Print, TaskView::Eval(NodeView::VariableRef(name))],
        none,
        vars,
    );
    let m3 = running(seq![TaskView::Print], seq![text], vars);
    let m4 = running(Seq::empty(), none, vars);
    let m5 = MachineView { status: Status::Finished, ..m4 };
    assert(spec_step(m0) == m1.ran()) by {
        reveal(spec_step);
        assert(m0.tasks.drop_last() =~= m1.tasks);
        assert(m0.values.drop_last() =~= none);
    }
    assert(spec_step(m1) == m2.ran()) by {
        reveal(spec_step);
        assert(m1.tasks.drop_last().push(TaskView::Print).push(
            TaskView::Eval(NodeView::VariableRef(name)),
        ) =~= m2.tasks);
    }
    assert(spec_step(m2) == m3.ran()) by {
        reveal(spec_step);
        assert(m2.tasks.drop_last() =~= m3.tasks);
        assert(none.push(text) =~= m3.values);
    }
    assert(spec_step(m3) == m4.wrote(held + "\n"@)) by {
        reveal(spec_step);
        assert(m3.tasks.drop_last() =~= m4.tasks);
        assert(m3.values.drop_last() =~= none);
    }
    assert(spec_step(m4) == (Moved { machine: m5, action: ActionView::Halt })) by {
        reveal(spec_step);
    }
    let s = steps;
    assert(spec_run(m0, input, 1, s) == spec_run(m1, input, 1, (s - 1) as nat));
    assert(spec_run(m1, input, 1, (s - 1) as nat) == spec_run(m2, input, 1, (s - 2) as nat));
    assert(spec_run(m2, input, 1, (s - 2) as nat) == spec_run(m3, input, 1, (s - 3) as nat));
    assert(spec_run(m3, input, 1, (s - 3) as nat) == spec_run(m4, input, 1, (s - 4) as nat).after(
        held + "\n"@,
    ));
    assert(spec_run(m4, input, 1, (s - 4) as nat) == (RunView {
        machine: m5,
        output: Seq::empty(),
        consumed: 1,
        end: End::Finished,
    }));
    assert((held + "\n"@) + Seq::<char>::empty() =~= held + "\n"@);
}

/// Reading under a prompt: the program that reads a line under a prompt and
/// prints it writes the prompt before it asks for the line, then, given the
/// line, writes exactly the line without the line feed that ends it, and a
/// line feed of its own.
pub proof fn lemma_prompt_comes_first(
    name: Seq<char>,
    prompt: Seq<char>,
    line: Seq<char>,
    steps: nat,
)
    requires
        steps >= 11,
    ensures
        ({
            let start = spec_start(echo_program(name, prompt));
            let alone = spec_run(start, Seq::empty(), 0, steps);
            let fed = spec_run(start, seq![line], 0, steps);
            let held = without_line_feed(line);
            &&& alone.output == prompt
            &&& alone.end == End::AwaitingInput
            &&& alone.consumed == 0
            &&& fed.output == prompt + held + "\n"@
            &&& fed.end == End::Finished
            &&& fed.consumed == 1
            &&& fed.machine.symbols.contains_key(name)
            &&& fed.machine.symbols[name] == ValueView::String(held)
        }),
{
    let held = without_line_feed(line);
    lemma_echo_asks(name, prompt, Seq::empty(), steps);
    lemma_echo_asks(name, prompt, seq![line], steps);
    lemma_echo_answers(name, held, seq![line], (steps - 6) as nat);
    let waiting = MachineView {
        status: Status::Waiting,
        ..running(
            seq![TaskView::Run(echo_print(name)), TaskView::Bind(name)],
            Seq::empty(),
            Map::empty(),
        )
    };
    let fed = running(
        seq![TaskView::Run(echo_print(name)), TaskView::Bind(name)],
        seq![ValueView::String(held)],
        Map::empty(),
    );
    assert(spec_supply(waiting, line) == fed) by {
        assert(Seq::<ValueView>::empty().push(ValueView::String(held)) =~= fed.values);
    }
    assert(prompt + Seq::<char>::empty() =~= prompt);
    assert(prompt + (held + "\n"@) =~= prompt + held + "\n"@);
}

} // verus!
