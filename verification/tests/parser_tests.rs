use simple_calc::ast::{
    ArgDecl, Assign, Block, FuncCall, FuncDecl, If, Return, Statement, Value, While,
};
use simple_calc::grammar::{ParseError, ParseErrorKind};
use simple_calc::lexer::{FloatLiteral, Identifier, Keyword, Operator};
use simple_calc::parser::{
    assignment_stmt, block, expression, func_call, func_decl, identifier, if_stmt, parse,
    return_stmt, statement, try_eat_keyword, try_eat_operator, try_eat_semicolon, value,
    while_stmt,
};

fn id(s: &str) -> Identifier {
    Identifier(String::from(s))
}

fn var(s: &str) -> Value {
    Value::VAR(id(s))
}

fn call(name: &str, args: Vec<Value>) -> Value {
    Value::FUNC_CALL(FuncCall { func_name: id(name), arg_list: args })
}

fn assign(name: &str, val: Value) -> Statement {
    Statement::ASSIGNMENT(Assign { id: id(name), val })
}

fn rejected(text: &str) -> ParseError {
    match parse(text, 0) {
        Ok(b) => panic!("accepted: {:?}", b),
        Err(e) => e,
    }
}

#[test]
fn three_assignments() {
    let b = parse("a = 1; b = 2; c = a + b * 2;", 0).unwrap();
    assert_eq!(
        b,
        Block(vec![
            assign("a", Value::INT(1)),
            assign("b", Value::INT(2)),
            assign(
                "c",
                call("+", vec![var("a"), call("*", vec![var("b"), Value::INT(2)])])
            ),
        ])
    );
    assert_eq!(b.0.len(), 3);
    for s in b.0.iter() {
        assert!(matches!(s, Statement::ASSIGNMENT(_)));
    }
}

#[test]
fn parentheses_override_precedence() {
    let (v, end) = expression("(1 + 2) * 3", 0).unwrap().unwrap();
    assert_eq!(end, 11);
    assert_eq!(
        v,
        call(
            "*",
            vec![call("+", vec![Value::INT(1), Value::INT(2)]), Value::INT(3)]
        )
    );
}

#[test]
fn operators_associate_to_the_left() {
    let (v, _) = expression("1 - 2 - 3", 0).unwrap().unwrap();
    assert_eq!(
        v,
        call(
            "-",
            vec![call("-", vec![Value::INT(1), Value::INT(2)]), Value::INT(3)]
        )
    );
    let (v, _) = expression("8 / 4 * 2", 0).unwrap().unwrap();
    assert_eq!(
        v,
        call(
            "*",
            vec![call("/", vec![Value::INT(8), Value::INT(4)]), Value::INT(2)]
        )
    );
}

#[test]
fn multiplication_binds_tighter_on_both_sides() {
    let (v, _) = expression("1 * 2 + 3 * 4", 0).unwrap().unwrap();
    assert_eq!(
        v,
        call(
            "+",
            vec![
                call("*", vec![Value::INT(1), Value::INT(2)]),
                call("*", vec![Value::INT(3), Value::INT(4)]),
            ]
        )
    );
}

#[test]
fn parsing_twice_gives_equal_blocks() {
    let text = "fn f(a, b){ return a; } x = f(1, 2.5); while x { x = x - 1; } if x { } else { print(x); }";
    let first = parse(text, 0);
    let second = parse(text, 0);
    assert!(first.is_ok());
    assert_eq!(first, second);
    let bad = "fn (";
    assert_eq!(parse(bad, 0), parse(bad, 0));
}

#[test]
fn whitespace_between_tokens_does_not_change_the_tree() {
    let dense = parse("a=(1.5+2.25)*3.0/4.0-1.0;", 0).unwrap();
    let loose = parse("  a =\n(\t1.5 +  2.25 )\r\n *3.0 / 4.0\n-\n1.0 ;\n\n", 0).unwrap();
    assert_eq!(dense, loose);
}

#[test]
fn empty_and_blank_programs() {
    assert_eq!(parse("", 0), Ok(Block(vec![])));
    assert_eq!(parse("  \n\t ", 0), Ok(Block(vec![])));
    assert_eq!(parse(";;;", 0), Ok(Block(vec![])));
}

#[test]
fn trailing_whitespace_is_accepted() {
    assert_eq!(parse("a = 1;\n", 0), Ok(Block(vec![assign("a", Value::INT(1))])));
}

#[test]
fn parse_from_an_offset() {
    assert_eq!(parse("@@ a = 1;", 2), Ok(Block(vec![assign("a", Value::INT(1))])));
}

#[test]
fn bare_terminators_are_dropped() {
    assert_eq!(
        parse("; a = 1;; ;b = 2;", 0),
        Ok(Block(vec![assign("a", Value::INT(1)), assign("b", Value::INT(2))]))
    );
}

#[test]
fn statement_keeps_a_bare_terminator() {
    assert_eq!(statement(" ;", 0), Ok(Some((Statement::NOTHING, 2))));
}

#[test]
fn block_stops_where_no_statement_matches() {
    let (b, end) = block("a = 1; } b", 0).unwrap();
    assert_eq!(b, Block(vec![assign("a", Value::INT(1))]));
    assert_eq!(end, 6);
    let (b, end) = block("}", 0).unwrap();
    assert_eq!(b, Block(vec![]));
    assert_eq!(end, 0);
}

#[test]
fn token_rules() {
    assert_eq!(try_eat_keyword(" fn x", 0, Keyword::Fn), Some(3));
    assert_eq!(try_eat_keyword(" fn x", 0, Keyword::If), None);
    assert_eq!(try_eat_keyword("x", 0, Keyword::Fn), None);
    assert_eq!(try_eat_operator(" ( ", 0, Operator::LeftParen), Some(2));
    assert_eq!(try_eat_operator(" ( ", 0, Operator::RightParen), None);
    assert_eq!(try_eat_operator("", 0, Operator::Comma), None);
    assert_eq!(try_eat_semicolon("  ;", 0), Some(3));
    assert_eq!(try_eat_semicolon("a;", 0), None);
    assert_eq!(identifier(" abc(", 0), Some((id("abc"), 4)));
    assert_eq!(identifier("1", 0), None);
    assert_eq!(identifier("if", 0), None);
}

#[test]
fn values() {
    assert_eq!(value("x", 0), Ok(Some((var("x"), 1))));
    assert_eq!(value(" 12", 0), Ok(Some((Value::INT(12), 3))));
    assert_eq!(
        value("1.5", 0),
        Ok(Some((
            Value::FLOAT(FloatLiteral { whole: vec![1], fraction: vec![5] }),
            3
        )))
    );
    assert_eq!(value("f()", 0), Ok(Some((call("f", vec![]), 3))));
    assert_eq!(value("(x)", 0), Ok(Some((var("x"), 3))));
    assert_eq!(value("+", 0), Ok(None));
    assert_eq!(value("", 0), Ok(None));
    assert_eq!(value("()", 0), Ok(None));
}

#[test]
fn call_with_arguments() {
    assert_eq!(
        func_call("f(1, x, g(2) + 3)", 0),
        Ok(Some((
            FuncCall {
                func_name: id("f"),
                arg_list: vec![
                    Value::INT(1),
                    var("x"),
                    call("+", vec![call("g", vec![Value::INT(2)]), Value::INT(3)]),
                ],
            },
            17
        )))
    );
    assert_eq!(func_call("f", 0), Ok(None));
    assert_eq!(func_call("f + 1", 0), Ok(None));
    assert_eq!(func_call("1(", 0), Ok(None));
}

#[test]
fn assignment_and_return() {
    assert_eq!(
        assignment_stmt("a = 1", 0),
        Ok(Some((Assign { id: id("a"), val: Value::INT(1) }, 5)))
    );
    assert_eq!(assignment_stmt("a + 1", 0), Ok(None));
    assert_eq!(assignment_stmt("a = ;", 0), Ok(None));
    assert_eq!(assignment_stmt("1 = 2", 0), Ok(None));
    assert_eq!(return_stmt("return x", 0), Ok(Some((Return(var("x")), 8))));
    assert_eq!(return_stmt("return ;", 0), Ok(None));
    assert_eq!(return_stmt("x", 0), Ok(None));
}

#[test]
fn expression_statement_takes_a_whole_expression() {
    assert_eq!(
        parse("1 + 2;", 0),
        Ok(Block(vec![Statement::EXPRESSION(call(
            "+",
            vec![Value::INT(1), Value::INT(2)]
        ))]))
    );
}

#[test]
fn function_declaration() {
    assert_eq!(
        func_decl("fn add(a, b) { return a + b; }", 0),
        Ok(Some((
            FuncDecl {
                func_name: id("add"),
                arg_list: vec![ArgDecl(id("a")), ArgDecl(id("b"))],
                body: Block(vec![Statement::RETURN(Return(call(
                    "+",
                    vec![var("a"), var("b")]
                )))]),
            },
            30
        )))
    );
    assert_eq!(
        func_decl("fn f(){}", 0),
        Ok(Some((
            FuncDecl { func_name: id("f"), arg_list: vec![], body: Block(vec![]) },
            8
        )))
    );
    assert_eq!(func_decl("f()", 0), Ok(None));
}

#[test]
fn if_with_elif_and_else() {
    let (found, end) = if_stmt("if 0 { } elif 0 { } else { }", 0).unwrap().unwrap();
    assert_eq!(end, 28);
    assert_eq!(
        found,
        If {
            cond: vec![Value::INT(0), Value::INT(0), Value::BOOL(true)],
            branches: vec![Block(vec![]), Block(vec![]), Block(vec![])],
        }
    );
    assert_eq!(found.cond.len(), found.branches.len());
}

#[test]
fn if_without_else() {
    let (found, _) = if_stmt("if a { b = 1; }", 0).unwrap().unwrap();
    assert_eq!(
        found,
        If { cond: vec![var("a")], branches: vec![Block(vec![assign("b", Value::INT(1))])] }
    );
    assert_eq!(if_stmt("while a { }", 0), Ok(None));
}

#[test]
fn nothing_follows_an_else_branch() {
    assert_eq!(rejected("if a { } else { } elif b { }").kind, ParseErrorKind::TrailingInput);
    assert_eq!(rejected("if a { } else { } else { }").kind, ParseErrorKind::TrailingInput);
}

#[test]
fn while_statement() {
    assert_eq!(
        while_stmt("while a { a = a - 1; }", 0),
        Ok(Some((
            While {
                cond: var("a"),
                body: Block(vec![assign("a", call("-", vec![var("a"), Value::INT(1)]))]),
            },
            22
        )))
    );
    assert_eq!(while_stmt("if a { }", 0), Ok(None));
}

#[test]
fn nested_bodies() {
    let b = parse("fn f() { while a { if b { return 1; } } }", 0).unwrap();
    assert_eq!(
        b,
        Block(vec![Statement::FUNC_DECL(FuncDecl {
            func_name: id("f"),
            arg_list: vec![],
            body: Block(vec![Statement::WHILE(While {
                cond: var("a"),
                body: Block(vec![Statement::IF(If {
                    cond: vec![var("b")],
                    branches: vec![Block(vec![Statement::RETURN(Return(Value::INT(1)))])],
                })]),
            })]),
        })])
    );
}

#[test]
fn rejects_fn_without_a_name() {
    assert_eq!(
        rejected("fn (a) { }"),
        ParseError { kind: ParseErrorKind::ExpectedFunctionName, pos: 2 }
    );
}

#[test]
fn rejects_fn_without_a_parameter_list() {
    assert_eq!(
        rejected("fn f { }"),
        ParseError { kind: ParseErrorKind::ExpectedParameterList, pos: 4 }
    );
}

#[test]
fn rejects_a_comma_without_a_parameter() {
    assert_eq!(
        rejected("fn f(a,) { }"),
        ParseError { kind: ParseErrorKind::ExpectedParameter, pos: 7 }
    );
}

#[test]
fn rejects_an_unclosed_parameter_list() {
    assert_eq!(
        rejected("fn f(a b) { }"),
        ParseError { kind: ParseErrorKind::ExpectedCommaOrParen, pos: 6 }
    );
    assert_eq!(
        rejected("fn f(1) { }"),
        ParseError { kind: ParseErrorKind::ExpectedCommaOrParen, pos: 5 }
    );
}

#[test]
fn rejects_an_unclosed_argument_list() {
    assert_eq!(
        rejected("f(1 2);"),
        ParseError { kind: ParseErrorKind::ExpectedCommaOrParen, pos: 3 }
    );
    assert_eq!(
        rejected("f(1"),
        ParseError { kind: ParseErrorKind::ExpectedCommaOrParen, pos: 3 }
    );
    assert_eq!(
        rejected("f(;"),
        ParseError { kind: ParseErrorKind::ExpectedCommaOrParen, pos: 2 }
    );
}

#[test]
fn rejects_a_comma_without_an_argument() {
    assert_eq!(
        rejected("f(1,);"),
        ParseError { kind: ParseErrorKind::ExpectedArgument, pos: 4 }
    );
}

#[test]
fn rejects_a_body_without_an_opening_brace() {
    assert_eq!(
        rejected("fn f() return 1;"),
        ParseError { kind: ParseErrorKind::ExpectedOpeningBrace, pos: 6 }
    );
    assert_eq!(
        rejected("if a b = 1;"),
        ParseError { kind: ParseErrorKind::ExpectedOpeningBrace, pos: 4 }
    );
    assert_eq!(
        rejected("while a"),
        ParseError { kind: ParseErrorKind::ExpectedOpeningBrace, pos: 7 }
    );
    assert_eq!(
        rejected("if a { } else b"),
        ParseError { kind: ParseErrorKind::ExpectedOpeningBrace, pos: 13 }
    );
}

#[test]
fn rejects_an_unclosed_body() {
    assert_eq!(
        rejected("fn f() { a = 1;"),
        ParseError { kind: ParseErrorKind::ExpectedClosingBrace, pos: 15 }
    );
    assert_eq!(
        rejected("while a { b = }"),
        ParseError { kind: ParseErrorKind::ExpectedClosingBrace, pos: 9 }
    );
}

#[test]
fn rejects_a_missing_condition() {
    assert_eq!(
        rejected("if { }"),
        ParseError { kind: ParseErrorKind::ExpectedCondition, pos: 2 }
    );
    assert_eq!(
        rejected("while { }"),
        ParseError { kind: ParseErrorKind::ExpectedCondition, pos: 5 }
    );
    assert_eq!(
        rejected("if a { } elif { }"),
        ParseError { kind: ParseErrorKind::ExpectedCondition, pos: 13 }
    );
}

#[test]
fn rejects_a_missing_operand() {
    assert_eq!(
        rejected("a = 1 + ;"),
        ParseError { kind: ParseErrorKind::ExpectedOperand, pos: 7 }
    );
    assert_eq!(
        rejected("a = 2 * * 3;"),
        ParseError { kind: ParseErrorKind::ExpectedOperand, pos: 7 }
    );
}

#[test]
fn rejects_an_unclosed_parenthesis() {
    assert_eq!(
        rejected("a = (1 + 2;"),
        ParseError { kind: ParseErrorKind::ExpectedClosingParen, pos: 10 }
    );
}

#[test]
fn rejects_trailing_input() {
    assert_eq!(
        rejected("a = 1; @"),
        ParseError { kind: ParseErrorKind::TrailingInput, pos: 6 }
    );
    assert_eq!(
        rejected("a = 1; b"),
        ParseError { kind: ParseErrorKind::TrailingInput, pos: 6 }
    );
    assert_eq!(rejected("}").kind, ParseErrorKind::TrailingInput);
    assert_eq!(rejected("return;").kind, ParseErrorKind::TrailingInput);
}

#[test]
fn copies_are_equal_to_what_they_copy() {
    let text = "fn f(a, b){ return a; } x = f(1, 2.5); while x { x = x - 1; } if x { } elif 1 { y = 2; } else { print(x); }";
    let program = parse(text, 0).unwrap();
    let copy = program.clone();
    assert_eq!(program, copy);
    assert_eq!(copy.0.len(), 4);
    for (s, c) in program.0.iter().zip(copy.0.iter()) {
        assert_eq!(s.clone(), *c);
    }
    let (v, _) = expression("g(1, h(2), 3.25) * (k + 1)", 0).unwrap().unwrap();
    assert_eq!(v.clone(), v);
    let (found, _) = if_stmt("if a { b = 1; } else { }", 0).unwrap().unwrap();
    let twin = found.clone();
    assert_eq!(twin, found);
    assert_eq!(twin.cond.len(), 2);
    assert_eq!(twin.branches.len(), 2);
}

fn check_branches(b: &Block) {
    for s in b.0.iter() {
        match s {
            Statement::IF(x) => {
                assert_eq!(x.cond.len(), x.branches.len());
                for inner in x.branches.iter() {
                    check_branches(inner);
                }
            }
            Statement::WHILE(w) => check_branches(&w.body),
            Statement::FUNC_DECL(d) => check_branches(&d.body),
            _ => {}
        }
    }
}

#[test]
fn every_if_of_a_parsed_program_has_a_branch_for_each_condition() {
    let program = parse(
        "fn f() { if a { while b { if c { } elif d { } else { if e { } } } } } if g { } else { }",
        0,
    )
    .unwrap();
    check_branches(&program);
    assert_eq!(program.0.len(), 2);
}

#[test]
fn word_that_starts_like_a_keyword_is_an_identifier() {
    assert_eq!(
        parse("iffy = 1;", 0),
        Ok(Block(vec![assign("iffy", Value::INT(1))]))
    );
    assert_eq!(
        parse("returned = format;", 0),
        Ok(Block(vec![assign("returned", var("format"))]))
    );
    assert_eq!(try_eat_keyword("iffy", 0, Keyword::If), None);
    assert_eq!(identifier("iffy", 0), Some((id("iffy"), 4)));
}
