use simple_calc::ast::{Block, FuncCall, If, Statement, Value};
use simple_calc::lexer::{FloatLiteral, Identifier};
use simple_calc::parser::parse;
use simple_calc::runtime::{
    add_builtin, div_builtin, multi_builtin, run_block, run_code, sub_builtin, to_boolean, Action, Frame,
    Machine, Outcome, RunKind, RuntimeError,
};
use simple_calc::scope::{BuiltInFunc, NativeOp, PrimitiveType, Scope};

fn float_of(lit: &FloatLiteral) -> f64 {
    let mut n = 0.0f64;
    for d in lit.whole.iter() {
        n = n * 10.0 + *d as f64;
    }
    let mut ex = 0.1f64;
    for d in lit.fraction.iter() {
        n += ex * *d as f64;
        ex *= 0.1;
    }
    n
}

fn float_op(op: NativeOp, a: u64, b: u64) -> u64 {
    let x = f64::from_bits(a);
    let y = f64::from_bits(b);
    let r = match op {
        NativeOp::Add => x + y,
        NativeOp::Sub => x - y,
        NativeOp::Mul => x * y,
        NativeOp::Div => x / y,
        NativeOp::Print => unreachable!(),
    };
    r.to_bits()
}

fn show(v: &PrimitiveType) -> String {
    match v {
        PrimitiveType::F64(bits) => format!("{}", f64::from_bits(*bits)),
        PrimitiveType::I32(i) => format!("{}", i),
        PrimitiveType::VOID => String::from("void"),
        PrimitiveType::FUNCTION(_) => String::from("<function>"),
        PrimitiveType::BUILTIN(_) => String::from("<builtin>"),
    }
}

/// Runs the machine to its end; returns what was written and how it ended.
fn drive<'a>(m: &mut Machine<'a>) -> (String, Result<PrimitiveType<'a>, RuntimeError<'a>>) {
    let mut out = String::new();
    for _ in 0..1_000_000 {
        match m.step() {
            Action::Continue => {}
            Action::FloatLiteral(lit) => {
                assert!(m.resume(float_of(lit).to_bits()));
            }
            Action::FloatOp(op, a, b) => {
                assert!(m.resume(float_op(op, a, b)));
            }
            Action::Print(v, more) => {
                out.push_str(&show(&v));
                if more {
                    out.push(' ');
                }
            }
            Action::PrintEnd => out.push('\n'),
            Action::Finished(v) => return (out, Ok(v)),
            Action::Fatal(e) => return (out, Err(e)),
        }
    }
    panic!("the program did not end");
}

/// Runs a program text; returns what it wrote and, formatted, how it ended.
fn run(text: &str) -> (String, Result<String, String>) {
    let program = parse(text, 0).unwrap();
    let mut m = run_code(&program);
    let (out, end) = drive(&mut m);
    (out, end.map(|v| show(&v)).map_err(|e| format!("{:?}", e)))
}

/// Runs a program text to its end and looks a name up in the root scope.
fn value_of(text: &str, name: &str) -> Option<String> {
    let program = parse(text, 0).unwrap();
    let mut m = run_code(&program);
    let (_, end) = drive(&mut m);
    assert!(end.is_ok(), "stopped: {:?}", end);
    m.try_lookup(&String::from(name)).map(|v| show(&v))
}

fn some(s: &str) -> Option<String> {
    Some(String::from(s))
}

#[test]
fn precedence_in_an_assignment() {
    assert_eq!(value_of("a = 1; b = 2; c = a + b * 2;", "c"), some("5"));
}

#[test]
fn parenthesized_expression_is_nine() {
    assert_eq!(value_of("x = (1 + 2) * 3;", "x"), some("9"));
    assert_eq!(run("return (1 + 2) * 3;"), (String::new(), Ok(String::from("9"))));
}

#[test]
fn float_arithmetic_does_not_depend_on_whitespace() {
    let dense = run("print((1.5+2.25)*3.0/4.0-1.0);");
    let loose = run("print ( ( 1.5\n+ 2.25 )\t* 3.0\r\n/ 4.0 - 1.0 ) ;\n");
    assert_eq!(dense, loose);
    assert_eq!(dense.0, "1.8125\n");
    assert_eq!(run("print((1.5+2.25)*3.0/4.0-1.0);"), dense);
}

#[test]
fn countdown_prints_each_value_on_its_own_line() {
    let (out, end) = run("fn f(){ return 6; } a = f(); while a { a = a - 1; print(a); }");
    assert_eq!(out, "5\n4\n3\n2\n1\n0\n");
    assert_eq!(end, Ok(String::from("void")));
}

#[test]
fn else_branch_is_selected() {
    assert_eq!(run("if 0 { } elif 0 { } else { }"), (String::new(), Ok(String::from("void"))));
    assert_eq!(
        value_of("if 0 { a = 1; } elif 0 { a = 2; } else { a = 3; }", "a"),
        some("3")
    );
    assert_eq!(run("if 0 { print(1); } elif 0 { print(2); } else { print(3); }").0, "3\n");
}

#[test]
fn first_true_condition_wins() {
    assert_eq!(run("if 0 { print(1); } elif 5 { print(2); } elif 6 { print(3); } else { print(4); }").0, "2\n");
    assert_eq!(run("if 1 { print(1); } else { print(2); }").0, "1\n");
}

#[test]
fn no_branch_is_selected_without_else() {
    let (out, end) = run("if 0 { print(1); } elif 0 { print(2); }");
    assert_eq!(out, "");
    assert_eq!(end, Ok(String::from("void")));
    assert_eq!(value_of("if 0 { a = 1; }", "a"), None);
}

#[test]
fn function_reads_a_variable_of_its_caller() {
    let text = "fn f() { return x; } fn g() { x = 7; return f(); } a = g();";
    assert_eq!(value_of(text, "a"), some("7"));
    assert_eq!(value_of(text, "x"), None);
}

#[test]
fn function_sees_the_binding_at_the_call_not_at_the_declaration() {
    let text = "fn f() { return x + 1; } x = 1; a = f(); x = 10; b = f();";
    assert_eq!(value_of(text, "a"), some("2"));
    assert_eq!(value_of(text, "b"), some("11"));
}

#[test]
fn assignment_in_a_function_stays_in_its_scope() {
    let text = "x = 1; fn f() { x = 2; return x; } a = f();";
    assert_eq!(value_of(text, "a"), some("2"));
    assert_eq!(value_of(text, "x"), some("1"));
}

#[test]
fn assignment_in_a_loop_body_changes_the_enclosing_scope() {
    assert_eq!(value_of("a = 3; n = 0; while a { a = a - 1; n = n + 2; }", "n"), some("6"));
    assert_eq!(value_of("if 1 { z = 4; }", "z"), some("4"));
}

#[test]
fn undefined_variable_stops_the_program() {
    let program = parse("print(zzz);", 0).unwrap();
    let mut m = run_code(&program);
    let (out, end) = drive(&mut m);
    assert_eq!(out, "");
    let name = Identifier(String::from("zzz"));
    assert_eq!(end, Err(RuntimeError::UndefinedName(&name)));
    assert_eq!(m.step(), Action::Fatal(RuntimeError::UndefinedName(&name)));
}

#[test]
fn output_before_the_error_is_kept() {
    let (out, end) = run("print(1); print(2, zzz); print(3);");
    assert_eq!(out, "1\n2 ");
    assert!(end.is_err());
}

#[test]
fn undefined_function_stops_the_program() {
    let program = parse("a = nope(1);", 0).unwrap();
    let mut m = run_code(&program);
    let name = Identifier(String::from("nope"));
    assert_eq!(drive(&mut m).1, Err(RuntimeError::UndefinedName(&name)));
}

#[test]
fn calling_a_number_stops_the_program() {
    let program = parse("a = 1; b = a();", 0).unwrap();
    let mut m = run_code(&program);
    let name = Identifier(String::from("a"));
    assert_eq!(drive(&mut m).1, Err(RuntimeError::NotCallable(&name)));
}

#[test]
fn mixed_operands_stop_the_program() {
    let program = parse("a = 1 + 2.0;", 0).unwrap();
    let mut m = run_code(&program);
    assert_eq!(drive(&mut m).1, Err(RuntimeError::OperandMismatch(NativeOp::Add)));
    let program = parse("fn f() { } a = f() * 2;", 0).unwrap();
    let mut m = run_code(&program);
    assert_eq!(drive(&mut m).1, Err(RuntimeError::OperandMismatch(NativeOp::Mul)));
}

#[test]
fn integer_arithmetic_is_exact() {
    assert_eq!(value_of("a = 7 / 2;", "a"), some("3"));
    assert_eq!(value_of("a = (0 - 7) / 2;", "a"), some("-3"));
    assert_eq!(value_of("a = 7 / (0 - 2);", "a"), some("-3"));
    assert_eq!(value_of("a = (0 - 7) / (0 - 2);", "a"), some("3"));
    assert_eq!(value_of("a = 2 - 5;", "a"), some("-3"));
    assert_eq!(value_of("a = 6 * 7;", "a"), some("42"));
    assert_eq!(value_of("a = 2147483647 - 1 + 1;", "a"), some("2147483647"));
}

#[test]
fn integer_overflow_stops_the_program() {
    let program = parse("a = 2147483647 + 1;", 0).unwrap();
    let mut m = run_code(&program);
    assert_eq!(drive(&mut m).1, Err(RuntimeError::Overflow(NativeOp::Add)));
    let program = parse("a = 65536 * 65536;", 0).unwrap();
    let mut m = run_code(&program);
    assert_eq!(drive(&mut m).1, Err(RuntimeError::Overflow(NativeOp::Mul)));
    let program = parse("a = 0 - 2147483647 - 2;", 0).unwrap();
    let mut m = run_code(&program);
    assert_eq!(drive(&mut m).1, Err(RuntimeError::Overflow(NativeOp::Sub)));
    let program = parse("a = (0 - 2147483647 - 1) / (0 - 1);", 0).unwrap();
    let mut m = run_code(&program);
    assert_eq!(drive(&mut m).1, Err(RuntimeError::Overflow(NativeOp::Div)));
}

#[test]
fn division_by_zero_stops_the_program() {
    let program = parse("a = 1 / 0;", 0).unwrap();
    let mut m = run_code(&program);
    assert_eq!(drive(&mut m).1, Err(RuntimeError::DivisionByZero));
}

#[test]
fn smallest_integer_divides() {
    assert_eq!(value_of("a = (0 - 2147483647 - 1) / 1;", "a"), some("-2147483648"));
    assert_eq!(value_of("a = (0 - 2147483647 - 1) / 2;", "a"), some("-1073741824"));
}

#[test]
fn arithmetic_built_ins_on_values() {
    let i = PrimitiveType::I32;
    assert_eq!(add_builtin(i(2), i(3)), Outcome::Value(i(5)));
    assert_eq!(sub_builtin(i(2), i(3)), Outcome::Value(i(-1)));
    assert_eq!(multi_builtin(i(-4), i(3)), Outcome::Value(i(-12)));
    assert_eq!(div_builtin(i(-9), i(2)), Outcome::Value(i(-4)));
    assert_eq!(div_builtin(i(9), i(0)), Outcome::Fatal(RuntimeError::DivisionByZero));
    assert_eq!(
        add_builtin(i(i32::MAX), i(1)),
        Outcome::Fatal(RuntimeError::Overflow(NativeOp::Add))
    );
    assert_eq!(
        add_builtin(PrimitiveType::F64(1), PrimitiveType::F64(2)),
        Outcome::Float(NativeOp::Add, 1, 2)
    );
    assert_eq!(
        div_builtin(PrimitiveType::F64(1), PrimitiveType::F64(0)),
        Outcome::Float(NativeOp::Div, 1, 0)
    );
    assert_eq!(
        sub_builtin(i(1), PrimitiveType::F64(2)),
        Outcome::Fatal(RuntimeError::OperandMismatch(NativeOp::Sub))
    );
    assert_eq!(
        multi_builtin(PrimitiveType::VOID, i(1)),
        Outcome::Fatal(RuntimeError::OperandMismatch(NativeOp::Mul))
    );
}

#[test]
fn truth_of_values() {
    assert!(!to_boolean(&PrimitiveType::VOID));
    assert!(!to_boolean(&PrimitiveType::I32(0)));
    assert!(to_boolean(&PrimitiveType::I32(1)));
    assert!(to_boolean(&PrimitiveType::I32(-1)));
    assert!(!to_boolean(&PrimitiveType::F64(0.0f64.to_bits())));
    assert!(!to_boolean(&PrimitiveType::F64((-0.0f64).to_bits())));
    assert!(to_boolean(&PrimitiveType::F64(0.5f64.to_bits())));
    assert!(to_boolean(&PrimitiveType::F64(f64::NAN.to_bits())));
    assert!(to_boolean(&PrimitiveType::BUILTIN(BuiltInFunc { execute: NativeOp::Print })));
}

#[test]
fn float_zero_ends_a_loop() {
    let (out, _) = run("a = 1.0; while a { a = a - 0.5; print(a); }");
    assert_eq!(out, "0.5\n0\n");
}

#[test]
fn float_literal_is_handed_out_as_digits() {
    let program = parse("a = 12.5;", 0).unwrap();
    let mut m = run_code(&program);
    assert_eq!(m.step(), Action::Continue);
    let lit = FloatLiteral { whole: vec![1, 2], fraction: vec![5] };
    assert_eq!(m.step(), Action::FloatLiteral(&lit));
    assert_eq!(m.step(), Action::FloatLiteral(&lit));
    assert!(m.resume(12.5f64.to_bits()));
    assert!(!m.resume(1.0f64.to_bits()));
    assert_eq!(drive(&mut m).1, Ok(PrimitiveType::VOID));
    assert_eq!(
        m.try_lookup(&String::from("a")),
        Some(PrimitiveType::F64(12.5f64.to_bits()))
    );
}

#[test]
fn float_operation_is_handed_out() {
    let program = parse("a = 1.5 / 0.5;", 0).unwrap();
    let mut m = run_code(&program);
    let mut asked = None;
    for _ in 0..100 {
        match m.step() {
            Action::FloatLiteral(lit) => {
                m.resume(float_of(lit).to_bits());
            }
            Action::FloatOp(op, a, b) => {
                asked = Some((op, a, b));
                break;
            }
            Action::Continue => {}
            other => panic!("unexpected {:?}", other),
        }
    }
    assert_eq!(asked, Some((NativeOp::Div, 1.5f64.to_bits(), 0.5f64.to_bits())));
    assert!(m.resume(3.0f64.to_bits()));
    drive(&mut m);
    assert_eq!(m.try_lookup(&String::from("a")), Some(PrimitiveType::F64(3.0f64.to_bits())));
}

#[test]
fn resume_changes_nothing_when_the_machine_does_not_wait() {
    let program = parse("a = 1;", 0).unwrap();
    let mut m = run_code(&program);
    assert!(!m.resume(7));
    assert_eq!(m.value, None);
    assert_eq!(m.frames.len(), 1);
    drive(&mut m);
    assert!(!m.resume(7));
    assert_eq!(m.try_lookup(&String::from("a")), Some(PrimitiveType::I32(1)));
}

#[test]
fn print_separates_with_one_space() {
    assert_eq!(run("print(1, 2, 3);").0, "1 2 3\n");
    assert_eq!(run("print();").0, "\n");
    assert_eq!(run("print(1.5, 2);").0, "1.5 2\n");
}

#[test]
fn print_arguments_are_written_as_they_are_evaluated() {
    assert_eq!(run("print(1, print(2));").0, "1 2\nvoid\n");
}

#[test]
fn print_of_a_function_stops_the_program() {
    let program = parse("fn f() { } print(f);", 0).unwrap();
    let mut m = run_code(&program);
    assert_eq!(drive(&mut m).1, Err(RuntimeError::NotPrintable));
    let program = parse("print(print);", 0).unwrap();
    let mut m = run_code(&program);
    assert_eq!(drive(&mut m).1, Err(RuntimeError::NotPrintable));
}

#[test]
fn built_in_can_be_bound_to_another_name() {
    assert_eq!(run("say = print; say(4);").0, "4\n");
}

#[test]
fn function_without_return_yields_void() {
    assert_eq!(run("fn f() { a = 1; } print(f());").0, "void\n");
}

#[test]
fn return_ends_only_the_block_it_stands_in() {
    assert_eq!(value_of("fn f() { if 1 { return 5; } return 6; } a = f();", "a"), some("6"));
    assert_eq!(value_of("fn f() { return 5; return 6; } a = f();", "a"), some("5"));
}

#[test]
fn return_at_the_top_ends_the_program() {
    assert_eq!(run("print(1); return 2 + 3; print(4);"), (String::from("1\n"), Ok(String::from("5"))));
}

#[test]
fn arguments_of_a_function_call_are_not_evaluated() {
    assert_eq!(value_of("fn f(p) { return 1; } a = f(zzz);", "a"), some("1"));
}

#[test]
fn zero_iterations_are_valid() {
    assert_eq!(run("while 0 { print(1); }"), (String::new(), Ok(String::from("void"))));
}

#[test]
fn recursion_through_dynamic_scope() {
    let text = "fn down() { if n { n = n - 1; print(n); return down(); } return 0; } n = 3; r = down();";
    let (out, end) = run(text);
    assert_eq!(out, "2\n1\n0\n");
    assert!(end.is_ok());
}

#[test]
fn function_redefinition_replaces_the_binding() {
    assert_eq!(value_of("fn f() { return 1; } fn f() { return 2; } a = f();", "a"), some("2"));
}

#[test]
fn initial_machine() {
    let program = Block(vec![]);
    let m = run_code(&program);
    assert_eq!(m.scopes.len(), 1);
    assert_eq!(m.scopes[0].parent, None);
    assert_eq!(m.frames.len(), 1);
    assert_eq!(m.value, None);
    for (name, op) in [
        ("+", NativeOp::Add),
        ("-", NativeOp::Sub),
        ("*", NativeOp::Mul),
        ("/", NativeOp::Div),
        ("print", NativeOp::Print),
    ] {
        assert_eq!(
            m.try_lookup(&String::from(name)),
            Some(PrimitiveType::BUILTIN(BuiltInFunc { execute: op }))
        );
    }
    assert_eq!(m.try_lookup(&String::from("x")), None);
}

#[test]
fn empty_program_finishes_with_void() {
    let program = Block(vec![]);
    let mut m = run_code(&program);
    assert_eq!(m.step(), Action::Finished(PrimitiveType::VOID));
    assert_eq!(m.frames.len(), 0);
    assert_eq!(m.step(), Action::Finished(PrimitiveType::VOID));
    assert_eq!(m.step(), Action::Finished(PrimitiveType::VOID));
}

#[test]
fn call_opens_a_scope_whose_parent_is_the_callers() {
    let program = parse("fn f() { return 1; } a = f();", 0).unwrap();
    let mut m = run_code(&program);
    let mut deepest = 1;
    for _ in 0..100 {
        match m.step() {
            Action::Finished(_) => break,
            _ => {
                if m.scopes.len() > deepest {
                    deepest = m.scopes.len();
                    assert_eq!(m.scopes[1].parent, Some(0));
                }
            }
        }
    }
    assert_eq!(deepest, 2);
    assert_eq!(m.scopes.len(), 1);
}

#[test]
fn run_block_starts_a_block() {
    let program = Block(vec![]);
    let body = parse("a = 2;", 0).unwrap();
    let mut m = run_code(&program);
    run_block(&mut m, true, &body);
    assert_eq!(m.scopes.len(), 2);
    assert_eq!(m.scopes[1].parent, Some(0));
    assert_eq!(m.frames.len(), 2);
    assert!(matches!(m.frames[1], Frame::Run { next: 0, kind: RunKind::Scoped, .. }));
    run_block(&mut m, false, &body);
    assert_eq!(m.scopes.len(), 2);
    assert!(matches!(m.frames[2], Frame::Run { next: 0, kind: RunKind::Root, .. }));
    assert_eq!(m.value, None);
}

#[test]
fn scope_keeps_the_latest_binding() {
    let mut s = Scope::new(Some(3));
    assert_eq!(s.parent, Some(3));
    assert_eq!(s.get(&String::from("a")), None);
    s.set(String::from("a"), PrimitiveType::I32(1));
    s.set(String::from("b"), PrimitiveType::I32(2));
    s.set(String::from("a"), PrimitiveType::I32(3));
    assert_eq!(s.get(&String::from("a")), Some(PrimitiveType::I32(3)));
    assert_eq!(s.get(&String::from("b")), Some(PrimitiveType::I32(2)));
    assert_eq!(s.local.len(), 2);
}

#[test]
fn lookup_of_an_identifier() {
    let program = parse("a = 1;", 0).unwrap();
    let mut m = run_code(&program);
    drive(&mut m);
    let a = Identifier(String::from("a"));
    let b = Identifier(String::from("b"));
    assert_eq!(m.lookup(&a), Ok(PrimitiveType::I32(1)));
    assert_eq!(m.lookup(&b), Err(RuntimeError::UndefinedName(&b)));
}

#[test]
fn arithmetic_built_in_needs_two_arguments() {
    let program = Block(vec![Statement::EXPRESSION(Value::FUNC_CALL(FuncCall {
        func_name: Identifier(String::from("+")),
        arg_list: vec![Value::INT(1)],
    }))]);
    let mut m = run_code(&program);
    assert_eq!(drive(&mut m).1, Err(RuntimeError::MissingOperand(NativeOp::Add)));
}

#[test]
fn condition_without_a_branch_stops_the_program() {
    let program = Block(vec![Statement::IF(If { cond: vec![Value::INT(1)], branches: vec![] })]);
    let mut m = run_code(&program);
    assert_eq!(drive(&mut m).1, Err(RuntimeError::MalformedIf));
}

#[test]
fn machine_without_a_scope_is_stopped() {
    let program = Block(vec![]);
    let mut m = run_code(&program);
    m.scopes.clear();
    assert_eq!(m.step(), Action::Fatal(RuntimeError::Corrupt));
}

#[test]
fn stopped_machine_stays_as_it_was() {
    let program = parse("a = 1; b = zzz; c = 2;", 0).unwrap();
    let mut m = run_code(&program);
    assert!(drive(&mut m).1.is_err());
    let frames = m.frames.len();
    assert!(matches!(m.step(), Action::Fatal(_)));
    assert_eq!(m.frames.len(), frames);
    assert_eq!(m.try_lookup(&String::from("a")), Some(PrimitiveType::I32(1)));
    assert_eq!(m.try_lookup(&String::from("c")), None);
}

#[test]
fn block_in_the_current_scope_yields_the_value_of_its_return() {
    let root = Block(vec![]);
    let blk = parse("a = 1; return a; a = 2;", 0).unwrap();
    let mut m = run_code(&root);
    run_block(&mut m, false, &blk);
    let (out, end) = drive(&mut m);
    assert_eq!(out, "");
    assert_eq!(end, Ok(PrimitiveType::I32(1)));
    assert_eq!(m.scopes.len(), 1);
    assert_eq!(m.try_lookup(&String::from("a")), Some(PrimitiveType::I32(1)));
}

#[test]
fn block_started_after_the_program_yields_its_value() {
    let root = parse("b = 5;", 0).unwrap();
    let blk = parse("a = b + 1; return a; a = 2;", 0).unwrap();
    let mut m = run_code(&root);
    assert_eq!(drive(&mut m).1, Ok(PrimitiveType::VOID));
    run_block(&mut m, false, &blk);
    assert_eq!(drive(&mut m).1, Ok(PrimitiveType::I32(6)));
    assert_eq!(m.frames.len(), 0);
    assert_eq!(m.step(), Action::Finished(PrimitiveType::I32(6)));
    assert_eq!(m.try_lookup(&String::from("a")), Some(PrimitiveType::I32(6)));
}

#[test]
fn block_without_return_yields_void() {
    let root = Block(vec![]);
    let blk = parse("a = 1;", 0).unwrap();
    let mut m = run_code(&root);
    run_block(&mut m, false, &blk);
    assert_eq!(drive(&mut m).1, Ok(PrimitiveType::VOID));
    assert_eq!(m.try_lookup(&String::from("a")), Some(PrimitiveType::I32(1)));
}

#[test]
fn block_in_a_scope_of_its_own_yields_its_value_and_closes_the_scope() {
    let root = parse("x = 3;", 0).unwrap();
    let blk = parse("a = x * 2; return a; a = 0;", 0).unwrap();
    let mut m = run_code(&root);
    drive(&mut m);
    run_block(&mut m, true, &blk);
    assert_eq!(m.scopes.len(), 2);
    assert_eq!(drive(&mut m).1, Ok(PrimitiveType::I32(6)));
    assert_eq!(m.scopes.len(), 1);
    assert_eq!(m.try_lookup(&String::from("a")), None);
    assert_eq!(m.try_lookup(&String::from("x")), Some(PrimitiveType::I32(3)));
}

#[test]
fn block_started_before_the_program_hands_over_to_it() {
    let root = parse("b = a + 1; return b;", 0).unwrap();
    let blk = parse("a = 1; return a;", 0).unwrap();
    let mut m = run_code(&root);
    run_block(&mut m, false, &blk);
    assert_eq!(drive(&mut m).1, Ok(PrimitiveType::I32(1)));
    assert_eq!(m.frames.len(), 1);
    assert_eq!(m.value, None);
    assert_eq!(drive(&mut m).1, Ok(PrimitiveType::I32(2)));
    assert_eq!(m.frames.len(), 0);
}

#[test]
fn value_of_a_loop_body_is_dropped() {
    assert_eq!(
        run("n = 2; while n { n = n - 1; return 9; } return n;"),
        (String::new(), Ok(String::from("0")))
    );
    assert_eq!(run("if 1 { return 9; } return 4;"), (String::new(), Ok(String::from("4"))));
}

#[test]
fn names_that_start_like_keywords_can_be_used() {
    assert_eq!(value_of("total = 2; format = total + 1; iffy = format * 2;", "iffy"), some("6"));
    assert_eq!(value_of("fn elsewhere() { return 7; } tock = elsewhere();", "tock"), some("7"));
}

#[test]
fn float_tree_asks_the_host_from_left_to_right() {
    let program = parse("a = (1.5 - 0.5) / (2.0 * 4.0);", 0).unwrap();
    let mut m = run_code(&program);
    let mut literals = Vec::new();
    let mut operations = Vec::new();
    let mut written = 0;
    for _ in 0..1000 {
        match m.step() {
            Action::Continue => {}
            Action::FloatLiteral(lit) => {
                let x = float_of(lit);
                literals.push(x);
                assert!(m.resume(x.to_bits()));
            }
            Action::FloatOp(op, a, b) => {
                operations.push((op, f64::from_bits(a), f64::from_bits(b)));
                assert!(m.resume(float_op(op, a, b)));
            }
            Action::Print(_, _) | Action::PrintEnd => written += 1,
            Action::Finished(_) => break,
            Action::Fatal(e) => panic!("stopped: {:?}", e),
        }
    }
    assert_eq!(literals, vec![1.5, 0.5, 2.0, 4.0]);
    assert_eq!(
        operations,
        vec![
            (NativeOp::Sub, 1.5, 0.5),
            (NativeOp::Mul, 2.0, 4.0),
            (NativeOp::Div, 1.0, 8.0),
        ]
    );
    assert_eq!(written, 0);
    assert_eq!(m.scopes.len(), 1);
    assert_eq!(m.try_lookup(&String::from("a")), Some(PrimitiveType::F64(0.125f64.to_bits())));
}

#[test]
fn float_tree_gives_the_same_float_each_time() {
    let first = run("print((1.5 + 2.25) * 3.0 / 4.0 - 1.0);");
    let second = run("print((1.5 + 2.25) * 3.0 / 4.0 - 1.0);");
    assert_eq!(first, second);
    assert_eq!(first.0, "1.8125\n");
}
