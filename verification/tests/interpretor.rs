use ocr_language::ast::Node;
use ocr_language::error::RuntimeError;
use ocr_language::interpretor::{Action, End, Interpretor, Status, Transcript};
use ocr_language::lexer::Lexer;
use ocr_language::parser::Parser;
use ocr_language::{Op, Value};

fn program(source: &str) -> Interpretor {
    let mut lexer = Lexer::new(source.to_string());
    lexer.lex().unwrap();
    let mut parser = Parser::new(lexer.tokens, source.to_string());
    Interpretor::new(Box::new(parser.parse().unwrap()))
}

fn run_source(source: &str, input: &[&str]) -> Transcript {
    let lines: Vec<String> = input.iter().map(|line| line.to_string()).collect();
    program(source).run(lines, 100_000)
}

fn number(n: u64) -> Node {
    Node::Primary(Value::Number(n))
}

#[test]
fn while_loop_runs_exactly_twice() {
    let source = "a = 0\nb = 1\ncount = 2\nwhile count < 4\nprint(a + b)\na = b\nb = a + b\ncount = count + 1\nendwhile\n";
    let transcript = run_source(source, &[]);
    assert_eq!(transcript.output, "1\n3\n");
    assert_eq!(transcript.end, End::Finished);
    assert_eq!(transcript.consumed, 0);
}

#[test]
fn while_loop_leaves_the_last_bindings() {
    let source = "a = 0\nb = 1\ncount = 2\nwhile count < 4\na = b\nb = a + b\ncount = count + 1\nendwhile\n";
    let mut machine = program(source);
    let transcript = machine.run(Vec::new(), 100_000);
    assert_eq!(transcript.end, End::Finished);
    assert_eq!(machine.variable("a"), Some(Value::Number(2)));
    assert_eq!(machine.variable("b"), Some(Value::Number(4)));
    assert_eq!(machine.variable("count"), Some(Value::Number(4)));
    assert_eq!(machine.variable("next"), None);
    assert_eq!(machine.status(), Status::Finished);
}

#[test]
fn input_echoes_the_line_without_its_line_feed() {
    let transcript = run_source("name = input(\"prompt\")\nprint(name)\n", &["Ada\n"]);
    assert_eq!(transcript.output, "promptAda\n");
    assert_eq!(transcript.consumed, 1);
    assert_eq!(transcript.end, End::Finished);
}

#[test]
fn prompt_is_written_before_the_line_is_asked_for() {
    let mut machine = program("name = input(\"prompt\")\nprint(name)\n");
    let mut actions: Vec<Action> = Vec::new();
    loop {
        let action = machine.step();
        match action {
            Action::Continue => {}
            Action::ReadLine => {
                actions.push(Action::ReadLine);
                assert_eq!(machine.status(), Status::Waiting);
                machine.supply_line("Ada\n".to_string());
            }
            Action::Halt => break,
            other => actions.push(other),
        }
    }
    assert_eq!(
        actions,
        vec![
            Action::Write("prompt".to_string()),
            Action::ReadLine,
            Action::Write("Ada\n".to_string()),
        ]
    );
}

#[test]
fn a_waiting_machine_keeps_asking() {
    let mut machine = program("x = input()\n");
    let mut action = machine.step();
    while action == Action::Continue {
        action = machine.step();
    }
    assert_eq!(action, Action::ReadLine);
    assert_eq!(machine.step(), Action::ReadLine);
    machine.supply_line("\n".to_string());
    assert_eq!(machine.status(), Status::Running);
    let transcript = machine.run(Vec::new(), 100);
    assert_eq!(transcript.end, End::Finished);
    assert_eq!(machine.variable("x"), Some(Value::String(String::new())));
}

#[test]
fn a_line_is_only_taken_when_asked_for() {
    let mut machine = program("x = 1\n");
    machine.supply_line("ignored\n".to_string());
    let transcript = machine.run(Vec::new(), 100);
    assert_eq!(transcript.end, End::Finished);
    assert_eq!(transcript.output, "");
    assert_eq!(machine.variable("x"), Some(Value::Number(1)));
}

#[test]
fn a_last_line_without_line_feed_is_kept_whole() {
    let transcript = run_source("x = input()\nprint(x)\n", &["Ada"]);
    assert_eq!(transcript.output, "Ada\n");
    let transcript = run_source("x = input()\nprint(x + \"|\")\n", &["Ada\r\n"]);
    assert_eq!(transcript.output, "Ada\r|\n");
    let transcript = run_source("x = input()\nprint(x + \"|\")\n", &[""]);
    assert_eq!(transcript.output, "|\n");
}

#[test]
fn input_without_lines_left_stops_the_run() {
    let transcript = run_source("print(1)\nx = input(\"? \")\nprint(x)\n", &[]);
    assert_eq!(transcript.output, "1\n? ");
    assert_eq!(transcript.end, End::AwaitingInput);
    assert_eq!(transcript.consumed, 0);
}

#[test]
fn left_operand_reads_its_line_first() {
    let transcript = run_source("a = input(\"x\") + input(\"y\")\nprint(a)\n", &["1\n", "2\n"]);
    assert_eq!(transcript.output, "xy12\n");
    assert_eq!(transcript.consumed, 2);
}

#[test]
fn array_lifecycle() {
    let transcript = run_source("array arr[3]\narr[1] = 9\nprint(arr[1])\nprint(arr.length)\n", &[]);
    assert_eq!(transcript.output, "9\n3\n");
    assert_eq!(transcript.end, End::Finished);
}

#[test]
fn array_starts_as_zeros_and_is_shown_item_by_item() {
    let transcript = run_source("array arr[2]\nprint(arr)\narr[0] = \"a\\b\"\nprint(arr)\n", &[]);
    assert_eq!(transcript.end, End::Finished);
    // inside an array a string is shown quoted, its backslash escaped
    assert_eq!(
        transcript.output,
        "[Number(0), Number(0)]\n[String(\"a\\\\b\"), Number(0)]\n"
    );
}

#[test]
fn array_of_arrays_and_booleans_is_shown_structurally() {
    let mut machine = Interpretor::new(Box::new(Node::Block(vec![
        Node::ArrayAssign { ident: "a".to_string(), size: Box::new(number(2)) },
        Node::ArrayAssingIndex {
            ident: "a".to_string(),
            index: Box::new(number(0)),
            value: Box::new(Node::Primary(Value::Array(vec![Value::Boolean(true)]))),
        },
        Node::FuncCall { ident: "print".to_string(), args: vec![Node::VariableRef("a".to_string())] },
    ])));
    let transcript = machine.run(Vec::new(), 1000);
    assert_eq!(transcript.output, "[Array([Boolean(true)]), Number(0)]\n");
}

#[test]
fn number_plus_boolean_stops_the_program() {
    let transcript = run_source("print(1)\nx = 5 + 1 == 1\nprint(2)\n", &[]);
    assert_eq!(transcript.output, "1\n");
    assert_eq!(transcript.end, End::Failed(RuntimeError::TypeMismatch));
}

#[test]
fn unassigned_identifier_stops_the_program() {
    let transcript = run_source("print(1)\nprint(y)\nprint(2)\n", &[]);
    assert_eq!(transcript.output, "1\n");
    assert_eq!(transcript.end, End::Failed(RuntimeError::UndefinedVariable));
}

#[test]
fn a_stopped_machine_stays_stopped() {
    let mut machine = program("print(y)\n");
    let transcript = machine.run(Vec::new(), 100);
    assert_eq!(transcript.end, End::Failed(RuntimeError::UndefinedVariable));
    assert_eq!(machine.step(), Action::Fatal(RuntimeError::UndefinedVariable));
    assert_eq!(machine.step(), Action::Fatal(RuntimeError::UndefinedVariable));
    assert_eq!(machine.status(), Status::Failed(RuntimeError::UndefinedVariable));
}

#[test]
fn a_finished_machine_stays_finished() {
    let mut machine = program("x = 1\n");
    assert_eq!(machine.run(Vec::new(), 100).end, End::Finished);
    assert_eq!(machine.step(), Action::Halt);
    assert_eq!(machine.run(Vec::new(), 100).end, End::Finished);
}

#[test]
fn index_beyond_the_array_stops_the_program() {
    let transcript = run_source("array a[2]\nprint(a[2])\n", &[]);
    assert_eq!(transcript.end, End::Failed(RuntimeError::IndexOutOfRange));
    let transcript = run_source("array a[2]\na[5] = 1\n", &[]);
    assert_eq!(transcript.end, End::Failed(RuntimeError::IndexOutOfRange));
}

#[test]
fn index_has_to_be_a_number_before_the_value_is_evaluated() {
    let transcript = run_source("array a[2]\na[\"x\"] = input(\"never\")\n", &[]);
    assert_eq!(transcript.output, "");
    assert_eq!(transcript.end, End::Failed(RuntimeError::TypeMismatch));
}

#[test]
fn indexing_what_is_no_array_stops_the_program() {
    let transcript = run_source("a = 1\nprint(a[0])\n", &[]);
    assert_eq!(transcript.end, End::Failed(RuntimeError::TypeMismatch));
    let transcript = run_source("a = 1\nprint(a.length)\n", &[]);
    assert_eq!(transcript.end, End::Failed(RuntimeError::TypeMismatch));
}

#[test]
fn only_length_follows_a_dot() {
    let transcript = run_source("array a[2]\nprint(a.size)\n", &[]);
    assert_eq!(transcript.end, End::Failed(RuntimeError::UnsupportedOperator));
}

#[test]
fn too_many_arguments_stop_the_program() {
    for name in ["print", "input", "int"] {
        let mut machine = Interpretor::new(Box::new(Node::Block(vec![Node::FuncCall {
            ident: name.to_string(),
            args: vec![number(1), number(2)],
        }])));
        let transcript = machine.run(Vec::new(), 100);
        assert_eq!(transcript.end, End::Failed(RuntimeError::ArityMismatch));
        assert_eq!(transcript.output, "");
    }
}

#[test]
fn int_needs_one_argument() {
    let transcript = run_source("x = int()\n", &[]);
    assert_eq!(transcript.end, End::Failed(RuntimeError::ArityMismatch));
}

#[test]
fn unknown_function_stops_the_program() {
    let transcript = run_source("foo(1)\n", &[]);
    assert_eq!(transcript.end, End::Failed(RuntimeError::UndefinedVariable));
}

#[test]
fn print_without_argument_writes_a_blank_line() {
    let transcript = run_source("print()\nprint(\"a\")\n", &[]);
    assert_eq!(transcript.output, "\na\n");
}

#[test]
fn print_gives_no_value() {
    let transcript = run_source("x = print(1)\nprint(2)\n", &[]);
    assert_eq!(transcript.output, "1\n");
    assert_eq!(transcript.end, End::Failed(RuntimeError::TypeMismatch));
}

#[test]
fn int_reads_a_string_as_a_number() {
    let transcript = run_source("n = int(input(\"n: \"))\nprint(n + 1)\nprint(int(\"+7\"))\n", &["41\n"]);
    assert_eq!(transcript.output, "n: 42\n7\n");
    assert_eq!(transcript.end, End::Finished);
}

#[test]
fn int_takes_a_variable_bound_to_a_string() {
    let transcript = run_source("s = \"12\"\nprint(int(s) * 2)\n", &[]);
    assert_eq!(transcript.output, "24\n");
}

#[test]
fn int_refuses_what_is_no_number() {
    for source in ["x = int(\"4 2\")\n", "x = int(\"\")\n", "x = int(\"-1\")\n", "s = 1\nx = int(s)\n"] {
        let transcript = run_source(source, &[]);
        assert_eq!(transcript.end, End::Failed(RuntimeError::TypeMismatch));
    }
    let transcript = run_source("x = int(\"18446744073709551616\")\n", &[]);
    assert_eq!(transcript.end, End::Failed(RuntimeError::TypeMismatch));
    let transcript = run_source("x = int(\"18446744073709551615\")\nprint(x)\n", &[]);
    assert_eq!(transcript.output, "18446744073709551615\n");
}

#[test]
fn int_refuses_a_binary_expression_as_its_argument() {
    let transcript = run_source("x = int(\"1\" + \"2\")\n", &[]);
    assert_eq!(transcript.end, End::Failed(RuntimeError::TypeMismatch));
}

#[test]
fn arithmetic_on_numbers() {
    let transcript = run_source(
        "print(7 + 5)\nprint(7 - 5)\nprint(7 * 5)\nprint(7 / 5)\nprint(2 * 3 + 1)\nprint((2 * 3) + 1)\n",
        &[],
    );
    assert_eq!(transcript.output, "12\n2\n35\n1\n8\n7\n");
}

#[test]
fn comparisons_on_numbers() {
    let transcript = run_source(
        "print(1 < 2)\nprint(2 <= 2)\nprint(1 > 2)\nprint(2 >= 3)\nprint(2 == 2)\n",
        &[],
    );
    assert_eq!(transcript.output, "true\ntrue\nfalse\nfalse\ntrue\n");
}

#[test]
fn every_operator_on_two_numbers() {
    let cases = [
        (Op::Plus, Value::Number(9)),
        (Op::Minus, Value::Number(5)),
        (Op::Multiply, Value::Number(14)),
        (Op::Divide, Value::Number(3)),
        (Op::Mod, Value::Number(1)),
        (Op::Greater, Value::Boolean(true)),
        (Op::GreaterEqual, Value::Boolean(true)),
        (Op::Less, Value::Boolean(false)),
        (Op::LessEqual, Value::Boolean(false)),
        (Op::EqualTo, Value::Boolean(false)),
    ];
    for (op, expected) in cases {
        assert_eq!(Interpretor::run_expr(op, &Value::Number(7), &Value::Number(2)), Ok(expected));
    }
}

#[test]
fn arithmetic_without_a_result_stops_the_program() {
    let fault = Err(RuntimeError::UnsupportedOperator);
    let max = Value::Number(u64::MAX);
    assert_eq!(Interpretor::run_expr(Op::Plus, &max, &Value::Number(1)), fault);
    assert_eq!(Interpretor::run_expr(Op::Multiply, &max, &Value::Number(2)), fault);
    assert_eq!(Interpretor::run_expr(Op::Minus, &Value::Number(1), &Value::Number(2)), fault);
    assert_eq!(Interpretor::run_expr(Op::Divide, &Value::Number(1), &Value::Number(0)), fault);
    assert_eq!(Interpretor::run_expr(Op::Mod, &Value::Number(1), &Value::Number(0)), fault);
    assert_eq!(Interpretor::run_expr(Op::Plus, &max, &Value::Number(0)), Ok(Value::Number(u64::MAX)));
    let transcript = run_source("print(1)\nprint(1 / 0)\n", &[]);
    assert_eq!(transcript.output, "1\n");
    assert_eq!(transcript.end, End::Failed(RuntimeError::UnsupportedOperator));
}

#[test]
fn a_string_on_either_side_joins_the_texts() {
    let text = |s: &str| Value::String(s.to_string());
    assert_eq!(Interpretor::run_expr(Op::Plus, &text("a"), &Value::Number(1)), Ok(text("a1")));
    assert_eq!(Interpretor::run_expr(Op::Minus, &Value::Number(1), &text("a")), Ok(text("1a")));
    assert_eq!(Interpretor::run_expr(Op::Less, &Value::Boolean(true), &text("a")), Ok(text("truea")));
    assert_eq!(
        Interpretor::run_expr(Op::Plus, &text("a"), &Value::Array(vec![Value::Number(1)])),
        Ok(text("a[Number(1)]"))
    );
    assert_eq!(
        Interpretor::run_expr(Op::Plus, &Value::Boolean(true), &Value::Number(1)),
        Err(RuntimeError::TypeMismatch)
    );
    assert_eq!(
        Interpretor::run_expr(Op::EqualTo, &Value::Boolean(true), &Value::Boolean(true)),
        Err(RuntimeError::TypeMismatch)
    );
}

#[test]
fn cast_of_a_value() {
    assert_eq!(Interpretor::builtin_casti(&Value::String("10".to_string())), Ok(Value::Number(10)));
    assert_eq!(
        Interpretor::builtin_casti(&Value::String("ten".to_string())),
        Err(RuntimeError::TypeMismatch)
    );
    assert_eq!(Interpretor::builtin_casti(&Value::Number(10)), Err(RuntimeError::TypeMismatch));
}

#[test]
fn condition_has_to_be_a_boolean() {
    let transcript = run_source("if 1 then\nprint(1)\nendif\n", &[]);
    assert_eq!(transcript.end, End::Failed(RuntimeError::TypeMismatch));
    let transcript = run_source("while \"x\"\nprint(1)\nendwhile\n", &[]);
    assert_eq!(transcript.end, End::Failed(RuntimeError::TypeMismatch));
}

#[test]
fn if_takes_the_branch_that_the_condition_names() {
    let transcript = run_source("if 1 < 2 then\nprint(\"yes\")\nelse\nprint(\"no\")\nendif\n", &[]);
    assert_eq!(transcript.output, "yes\n");
    let transcript = run_source("if 1 > 2 then\nprint(\"yes\")\nelse\nprint(\"no\")\nendif\n", &[]);
    assert_eq!(transcript.output, "no\n");
    let transcript = run_source("if 1 > 2 then\nprint(\"yes\")\nendif\n", &[]);
    assert_eq!(transcript.output, "");
    assert_eq!(transcript.end, End::Finished);
}

#[test]
fn a_variable_can_be_a_condition() {
    let transcript = run_source("ok = 1 < 2\nif ok then\nprint(\"yes\")\nendif\n", &[]);
    assert_eq!(transcript.output, "yes\n");
}

#[test]
fn an_endless_loop_uses_up_the_steps() {
    let mut machine = program("while 1 == 1\nx = 1\nendwhile\n");
    let transcript = machine.run(Vec::new(), 1000);
    assert_eq!(transcript.end, End::StepLimit);
    assert_eq!(machine.status(), Status::Running);
    assert_eq!(machine.run(Vec::new(), 0).end, End::StepLimit);
}

#[test]
fn an_expression_is_no_statement() {
    let mut machine = Interpretor::new(Box::new(Node::Block(vec![number(1)])));
    assert_eq!(machine.run(Vec::new(), 100).end, End::Failed(RuntimeError::UnsupportedOperator));
    let mut machine = Interpretor::new(Box::new(Node::Block(vec![Node::Assign {
        ident: "x".to_string(),
        value: Box::new(Node::Block(Vec::new())),
    }])));
    assert_eq!(machine.run(Vec::new(), 100).end, End::Failed(RuntimeError::UnsupportedOperator));
}

#[test]
fn the_root_has_to_be_a_block() {
    let mut machine = Interpretor::new(Box::new(Node::Assign {
        ident: "x".to_string(),
        value: Box::new(number(1)),
    }));
    assert_eq!(machine.status(), Status::Failed(RuntimeError::UnsupportedOperator));
    assert_eq!(machine.step(), Action::Fatal(RuntimeError::UnsupportedOperator));
    assert_eq!(machine.variable("x"), None);
}

#[test]
fn an_empty_program_finishes_at_once() {
    let mut machine = Interpretor::new(Box::new(Node::Block(Vec::new())));
    assert_eq!(machine.step(), Action::Continue);
    assert_eq!(machine.step(), Action::Halt);
    assert_eq!(machine.status(), Status::Finished);
}

#[test]
fn fibonacci_program_with_its_input() {
    let source = "n = int(input(\"How many fibonacci numbers: \"))\na = 0\nb = 1\ncount = 2\nprint(a)\nprint(b)\nwhile count < n\n    next = a + b\n    print(next)\n    a = b\n    b = next\n    count = count + 1\nendwhile\n";
    let transcript = run_source(source, &["6\n"]);
    assert_eq!(transcript.output, "How many fibonacci numbers: 0\n1\n1\n2\n3\n5\n");
    assert_eq!(transcript.end, End::Finished);
}

#[test]
fn storing_keeps_the_length() {
    let transcript = run_source(
        "array a[3]\na[0] = \"x\"\na[2] = 7\nprint(a.length)\nprint(a)\n",
        &[],
    );
    assert_eq!(transcript.output, "3\n[String(\"x\"), Number(0), Number(7)]\n");
}

#[test]
fn an_array_of_no_elements() {
    let transcript = run_source("array a[0]\nprint(a.length)\nprint(a)\nprint(a[0])\n", &[]);
    assert_eq!(transcript.output, "0\n[]\n");
    assert_eq!(transcript.end, End::Failed(RuntimeError::IndexOutOfRange));
}

#[test]
fn a_size_has_to_be_a_number() {
    let transcript = run_source("array a[\"3\"]\n", &[]);
    assert_eq!(transcript.end, End::Failed(RuntimeError::TypeMismatch));
}

#[test]
fn the_left_operand_fails_before_the_right_one_is_looked_at() {
    let transcript = run_source("x = y + input(\"never\")\n", &["1\n"]);
    assert_eq!(transcript.output, "");
    assert_eq!(transcript.consumed, 0);
    assert_eq!(transcript.end, End::Failed(RuntimeError::UndefinedVariable));
}
