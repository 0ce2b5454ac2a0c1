use crate::ast::{
    blocks_model, lemma_blocks_push, lemma_empty_models, lemma_values_push, params_model,
    statements_model, tidy_blocks, tidy_statement, tidy_statements, values_model, StatementModel,
    ValueModel,
};
pub use crate::ast::{
    ArgDecl, Assign, Block, FuncCall, FuncDecl, If, Return, Statement, Value, While,
};
use crate::grammar::{
    eat_keyword, eat_operator, eat_semicolon, in_level, level_operator, level_rank,
    spec_args_rest, spec_assignment, spec_block, spec_body, spec_chain, spec_expression,
    spec_func_call, spec_func_decl, spec_identifier, spec_if, spec_if_arms, spec_level,
    spec_params, spec_params_rest, spec_program_outcome, spec_return, spec_statement,
    spec_value,
    spec_while, ParseError, ParseErrorKind, Parsed, Precedence,
};
use crate::lexer::{next_token, operator_identifier, Identifier, Keyword, Operator, Token};
use vstd::prelude::*;
use vstd::string::StringSliceAdditionalSpecFns;

verus! {

/// An offset that a token rule returns, as the grammar states it.
pub open spec fn offset_model(r: Option<usize>) -> Option<int> {
    match r {
        Some(p) => Some(p as int),
        None => None,
    }
}

/// What a rule that cannot reject the text returns, as the grammar states it.
pub open spec fn found_model<T: View>(r: Option<(T, usize)>) -> Parsed<T::V> {
    match r {
        Some((node, end)) => Parsed::Match(node@, end as int),
        None => Parsed::NoMatch,
    }
}

/// What a rule returns, as the grammar states it.
pub open spec fn parsed_model<T: View>(r: Result<Option<(T, usize)>, ParseError>) -> Parsed<T::V> {
    match r {
        Ok(found) => found_model(found),
        Err(e) => Parsed::Fatal(e.kind, e.pos as int),
    }
}

/// What a rule that always matches or rejects returns, as the grammar states it.
pub open spec fn block_model<T: View>(r: Result<(T, usize), ParseError>) -> Parsed<T::V> {
    match r {
        Ok((node, end)) => Parsed::Match(node@, end as int),
        Err(e) => Parsed::Fatal(e.kind, e.pos as int),
    }
}

/// Whether a rule's match, if it is one, ends after `pos` and inside the text.
pub open spec fn advances<T>(r: Result<Option<(T, usize)>, ParseError>, pos: usize, len: nat) -> bool {
    r matches Ok(Some((_, end))) ==> pos < end <= len
}

/// The offset after `keyword`, if it is the next token from `pos`.
pub fn try_eat_keyword(input: &str, pos: usize, keyword: Keyword) -> (r: Option<usize>)
    ensures
        offset_model(r) == eat_keyword(input.spec_bytes(), pos as int, keyword),
        r matches Some(end) ==> pos < end <= input.spec_bytes().len(),
{
    let (tk, end) = next_token(input, pos);
    if let Token::KEYWORD(k) = tk {
        if k == keyword {
            return Some(end);
        }
    }
    None
}

/// The offset after `operator`, if it is the next token from `pos`.
pub fn try_eat_operator(input: &str, pos: usize, operator: Operator) -> (r: Option<usize>)
    ensures
        offset_model(r) == eat_operator(input.spec_bytes(), pos as int, operator),
        r matches Some(end) ==> pos < end <= input.spec_bytes().len(),
{
    let (tk, end) = next_token(input, pos);
    if let Token::OPERATOR(op) = tk {
        if op == operator {
            return Some(end);
        }
    }
    None
}

/// The offset after the statement terminator, if it is the next token from `pos`.
pub fn try_eat_semicolon(input: &str, pos: usize) -> (r: Option<usize>)
    ensures
        offset_model(r) == eat_semicolon(input.spec_bytes(), pos as int),
        r matches Some(end) ==> pos < end <= input.spec_bytes().len(),
{
    let (tk, end) = next_token(input, pos);
    if let Token::SEMICOLON = tk {
        return Some(end);
    }
    None
}

/// The identifier that is the next token from `pos`, and the offset after it.
pub fn identifier(input: &str, pos: usize) -> (r: Option<(Identifier, usize)>)
    ensures
        found_model(r) == spec_identifier(input.spec_bytes(), pos as int),
        r matches Some((_, end)) ==> pos < end <= input.spec_bytes().len(),
{
    let (tk, end) = next_token(input, pos);
    if let Token::IDENTIFIER(id) = tk {
        return Some((id, end));
    }
    None
}

/// The rejection of the text for `kind` at `pos`.
fn fatal<T>(kind: ParseErrorKind, pos: usize) -> (r: Result<T, ParseError>)
    ensures
        r == Err::<T, ParseError>(ParseError { kind, pos }),
{
    Err(ParseError { kind, pos })
}

/// Whether `op` is an operator of `level`.
fn level_has(level: Precedence, op: Operator) -> (r: bool)
    ensures
        r == in_level(level, op),
{
    match level {
        Precedence::Additive => op == Operator::Plus || op == Operator::Minus,
        Precedence::Multiplicative => op == Operator::Star || op == Operator::Slash,
    }
}

/// The operator of `level` that is the next token, and the offset after it.
fn try_eat_level(input: &str, pos: usize, level: Precedence) -> (r: Option<(Operator, usize)>)
    ensures
        match r {
            Some((op, end)) => level_operator(input.spec_bytes(), pos as int, level) == Some(
                (op, end as int),
            ) && pos < end <= input.spec_bytes().len(),
            None => level_operator(input.spec_bytes(), pos as int, level) is None,
        },
{
    let (tk, end) = next_token(input, pos);
    if let Token::OPERATOR(op) = tk {
        if level_has(level, op) {
            return Some((op, end));
        }
    }
    None
}

/// `expression := addition`
pub fn expression(input: &str, pos: usize) -> (r: Result<Option<(Value, usize)>, ParseError>)
    ensures
        parsed_model(r) == spec_expression(input.spec_bytes(), pos as int),
        advances(r, pos, input.spec_bytes().len()),
    decreases input.spec_bytes().len() - pos, 12int,
{
    addition_expr(input, pos)
}

/// `addition := multiplication (('+'|'-') multiplication)*`
fn addition_expr(input: &str, pos: usize) -> (r: Result<Option<(Value, usize)>, ParseError>)
    ensures
        parsed_model(r) == spec_level(input.spec_bytes(), pos as int, Precedence::Additive),
        advances(r, pos, input.spec_bytes().len()),
    decreases input.spec_bytes().len() - pos, 11int,
{
    expr_implementation(input, pos, Precedence::Additive)
}

/// `multiplication := value (('*'|'/') value)*`
fn multiplication_expr(input: &str, pos: usize) -> (r: Result<Option<(Value, usize)>, ParseError>)
    ensures
        parsed_model(r) == spec_level(input.spec_bytes(), pos as int, Precedence::Multiplicative),
        advances(r, pos, input.spec_bytes().len()),
    decreases input.spec_bytes().len() - pos, 8int,
{
    expr_implementation(input, pos, Precedence::Multiplicative)
}

/// An operand of the level next tighter than `level`.
fn operand(input: &str, pos: usize, level: Precedence) -> (r: Result<
    Option<(Value, usize)>,
    ParseError,
>)
    ensures
        parsed_model(r) == (match level {
            Precedence::Additive => spec_level(
                input.spec_bytes(),
                pos as int,
                Precedence::Multiplicative,
            ),
            Precedence::Multiplicative => spec_value(input.spec_bytes(), pos as int),
        }),
        advances(r, pos, input.spec_bytes().len()),
    decreases input.spec_bytes().len() - pos, 3 * level_rank(level),
{
    match level {
        Precedence::Additive => multiplication_expr(input, pos),
        Precedence::Multiplicative => value(input, pos),
    }
}

/// One level of left-associative binary operators.
fn expr_implementation(input: &str, pos: usize, level: Precedence) -> (r: Result<
    Option<(Value, usize)>,
    ParseError,
>)
    ensures
        parsed_model(r) == spec_level(input.spec_bytes(), pos as int, level),
        advances(r, pos, input.spec_bytes().len()),
    decreases input.spec_bytes().len() - pos, 3 * level_rank(level) + 1,
{
    let ghost text = input.spec_bytes();
    let first = operand(input, pos, level);
    let (mut left, mut at) = match first {
        Err(e) => {
            return Err(e);
        },
        Ok(None) => {
            return Ok(None);
        },
        Ok(Some(found)) => found,
    };
    loop
        invariant
            text == input.spec_bytes(),
            pos < at <= text.len(),
            spec_level(text, pos as int, level) == spec_chain(text, at as int, left@, level),
        decreases text.len() - at,
    {
        let (op, after) = match try_eat_level(input, at, level) {
            None => {
                return Ok(Some((left, at)));
            },
            Some(found) => found,
        };
        let (right, end) = match operand(input, after, level) {
            Err(e) => {
                return Err(e);
            },
            Ok(None) => {
                return fatal(ParseErrorKind::ExpectedOperand, after);
            },
            Ok(Some(found)) => found,
        };
        let ghost left_model = left@;
        let mut arg_list: Vec<Value> = Vec::new();
        arg_list.push(left);
        arg_list.push(right);
        left = Value::FUNC_CALL(FuncCall { func_name: operator_identifier(op), arg_list });
        proof {
            assert(values_model(arg_list@) =~= seq![left_model, right@]);
        }
        at = end;
    }
}

/// `func_call := IDENT '(' (expression (',' expression)*)? ')'`
pub fn func_call(input: &str, pos: usize) -> (r: Result<Option<(FuncCall, usize)>, ParseError>)
    ensures
        parsed_model(r) == spec_func_call(input.spec_bytes(), pos as int),
        advances(r, pos, input.spec_bytes().len()),
    decreases input.spec_bytes().len() - pos, 0int,
{
    let ghost text = input.spec_bytes();
    let (func_name, open) = match identifier(input, pos) {
        None => {
            return Ok(None);
        },
        Some(found) => found,
    };
    let first = match try_eat_operator(input, open, Operator::LeftParen) {
        None => {
            return Ok(None);
        },
        Some(found) => found,
    };
    let mut arg_list: Vec<Value> = Vec::new();
    let mut at: usize = first;
    match expression(input, first) {
        Err(e) => {
            return Err(e);
        },
        Ok(None) => {
            proof {
                assert(values_model(arg_list@) =~= Seq::<ValueModel>::empty());
            }
            return match try_eat_operator(input, first, Operator::RightParen) {
                Some(after) => Ok(Some((FuncCall { func_name, arg_list }, after))),
                None => fatal(ParseErrorKind::ExpectedCommaOrParen, first),
            };
        },
        Ok(Some((v, end))) => {
            proof {
                assert(values_model(arg_list@.push(v)) =~= seq![v@]);
            }
            arg_list.push(v);
            at = end;
        },
    }
    loop
        invariant
            text == input.spec_bytes(),
            pos < at <= text.len(),
            spec_func_call(text, pos as int) == spec_args_rest(
                text,
                at as int,
                func_name@,
                values_model(arg_list@),
            ),
        decreases text.len() - at,
    {
        match try_eat_operator(input, at, Operator::Comma) {
            Some(next) => {
                match expression(input, next) {
                    Err(e) => {
                        return Err(e);
                    },
                    Ok(None) => {
                        return fatal(ParseErrorKind::ExpectedArgument, next);
                    },
                    Ok(Some((v, end))) => {
                        proof {
                            assert(values_model(arg_list@.push(v)) =~= values_model(
                                arg_list@,
                            ).push(v@));
                        }
                        arg_list.push(v);
                        at = end;
                    },
                }
            },
            None => {
                return match try_eat_operator(input, at, Operator::RightParen) {
                    Some(after) => Ok(Some((FuncCall { func_name, arg_list }, after))),
                    None => fatal(ParseErrorKind::ExpectedCommaOrParen, at),
                };
            },
        }
    }
}

/// `value := func_call | '(' expression ')' | FLOAT | INT | IDENT`
pub fn value(input: &str, pos: usize) -> (r: Result<Option<(Value, usize)>, ParseError>)
    ensures
        parsed_model(r) == spec_value(input.spec_bytes(), pos as int),
        advances(r, pos, input.spec_bytes().len()),
    decreases input.spec_bytes().len() - pos, 2int,
{
    match func_call(input, pos) {
        Err(e) => {
            return Err(e);
        },
        Ok(Some((call, end))) => {
            return Ok(Some((Value::FUNC_CALL(call), end)));
        },
        Ok(None) => {},
    }
    let (tk, end) = next_token(input, pos);
    match tk {
        Token::OPERATOR(Operator::LeftParen) => match expression(input, end) {
            Err(e) => Err(e),
            Ok(None) => Ok(None),
            Ok(Some((v, close))) => match try_eat_operator(input, close, Operator::RightParen) {
                Some(after) => Ok(Some((v, after))),
                None => fatal(ParseErrorKind::ExpectedClosingParen, close),
            },
        },
        Token::FLOAT(f) => Ok(Some((Value::FLOAT(f), end))),
        Token::INTEGER(i) => Ok(Some((Value::INT(i), end))),
        Token::IDENTIFIER(id) => Ok(Some((Value::VAR(id), end))),
        _ => Ok(None),
    }
}

/// `assignment := IDENT '=' expression`
pub fn assignment_stmt(input: &str, pos: usize) -> (r: Result<Option<(Assign, usize)>, ParseError>)
    ensures
        parsed_model(r) == spec_assignment(input.spec_bytes(), pos as int),
        advances(r, pos, input.spec_bytes().len()),
{
    let (id, after) = match identifier(input, pos) {
        None => {
            return Ok(None);
        },
        Some(found) => found,
    };
    let start = match try_eat_operator(input, after, Operator::Assign) {
        None => {
            return Ok(None);
        },
        Some(found) => found,
    };
    match expression(input, start) {
        Err(e) => Err(e),
        Ok(None) => Ok(None),
        Ok(Some((val, end))) => Ok(Some((Assign { id, val }, end))),
    }
}

/// `return := 'return' expression`
pub fn return_stmt(input: &str, pos: usize) -> (r: Result<Option<(Return, usize)>, ParseError>)
    ensures
        parsed_model(r) == spec_return(input.spec_bytes(), pos as int),
        advances(r, pos, input.spec_bytes().len()),
{
    let start = match try_eat_keyword(input, pos, Keyword::Return) {
        None => {
            return Ok(None);
        },
        Some(found) => found,
    };
    match expression(input, start) {
        Err(e) => Err(e),
        Ok(None) => Ok(None),
        Ok(Some((v, end))) => Ok(Some((Return(v), end))),
    }
}

/// The parameters of a declaration, from right after `(` to right after `)`.
fn parameters(input: &str, pos: usize) -> (r: Result<(Vec<ArgDecl>, usize), ParseError>)
    ensures
        match r {
            Ok((params, end)) => spec_params(input.spec_bytes(), pos as int) == Parsed::Match(
                params_model(params@),
                end as int,
            ) && pos < end <= input.spec_bytes().len(),
            Err(e) => spec_params(input.spec_bytes(), pos as int) == Parsed::<
                Seq<Seq<char>>,
            >::Fatal(e.kind, e.pos as int),
        },
{
    let ghost text = input.spec_bytes();
    let mut arg_list: Vec<ArgDecl> = Vec::new();
    let mut at: usize = pos;
    match identifier(input, pos) {
        Some((name, end)) => {
            proof {
                assert(params_model(arg_list@.push(ArgDecl(name))) =~= seq![name@]);
            }
            arg_list.push(ArgDecl(name));
            at = end;
        },
        None => {
            proof {
                assert(params_model(arg_list@) =~= Seq::<Seq<char>>::empty());
            }
            return match try_eat_operator(input, pos, Operator::RightParen) {
                Some(after) => Ok((arg_list, after)),
                None => fatal(ParseErrorKind::ExpectedCommaOrParen, pos),
            };
        },
    }
    loop
        invariant
            text == input.spec_bytes(),
            pos < at <= text.len(),
            spec_params(text, pos as int) == spec_params_rest(
                text,
                at as int,
                params_model(arg_list@),
            ),
        decreases text.len() - at,
    {
        match try_eat_operator(input, at, Operator::Comma) {
            Some(next) => match identifier(input, next) {
                Some((name, end)) => {
                    proof {
                        assert(params_model(arg_list@.push(ArgDecl(name))) =~= params_model(
                            arg_list@,
                        ).push(name@));
                    }
                    arg_list.push(ArgDecl(name));
                    at = end;
                },
                None => {
                    return fatal(ParseErrorKind::ExpectedParameter, next);
                },
            },
            None => {
                return match try_eat_operator(input, at, Operator::RightParen) {
                    Some(after) => Ok((arg_list, after)),
                    None => fatal(ParseErrorKind::ExpectedCommaOrParen, at),
                };
            },
        }
    }
}

/// A block in braces.
fn body(input: &str, pos: usize) -> (r: Result<(Block, usize), ParseError>)
    ensures
        block_model(r) == spec_body(input.spec_bytes(), pos as int),
        r matches Ok((_, end)) ==> pos < end <= input.spec_bytes().len(),
        r matches Ok((found, _)) ==> found.well_formed(),
    decreases input.spec_bytes().len() - pos, 4int,
{
    let inner = match try_eat_operator(input, pos, Operator::LeftBrace) {
        None => {
            return fatal(ParseErrorKind::ExpectedOpeningBrace, pos);
        },
        Some(found) => found,
    };
    let (b, end) = match block(input, inner) {
        Err(e) => {
            return Err(e);
        },
        Ok(found) => found,
    };
    match try_eat_operator(input, end, Operator::RightBrace) {
        Some(after) => Ok((b, after)),
        None => fatal(ParseErrorKind::ExpectedClosingBrace, end),
    }
}

/// `func_decl := 'fn' IDENT '(' (IDENT (',' IDENT)*)? ')' '{' block '}'`
pub fn func_decl(input: &str, pos: usize) -> (r: Result<Option<(FuncDecl, usize)>, ParseError>)
    ensures
        parsed_model(r) == spec_func_decl(input.spec_bytes(), pos as int),
        advances(r, pos, input.spec_bytes().len()),
        r matches Ok(Some((found, _))) ==> found.body.well_formed(),
    decreases input.spec_bytes().len() - pos, 1int,
{
    let at_name = match try_eat_keyword(input, pos, Keyword::Fn) {
        None => {
            return Ok(None);
        },
        Some(found) => found,
    };
    let (func_name, at_paren) = match identifier(input, at_name) {
        None => {
            return fatal(ParseErrorKind::ExpectedFunctionName, at_name);
        },
        Some(found) => found,
    };
    let at_params = match try_eat_operator(input, at_paren, Operator::LeftParen) {
        None => {
            return fatal(ParseErrorKind::ExpectedParameterList, at_paren);
        },
        Some(found) => found,
    };
    let (arg_list, at_body) = match parameters(input, at_params) {
        Err(e) => {
            return Err(e);
        },
        Ok(found) => found,
    };
    match body(input, at_body) {
        Err(e) => Err(e),
        Ok((body, end)) => Ok(Some((FuncDecl { func_name, arg_list, body }, end))),
    }
}

/// `if_stmt := 'if' expression '{' block '}' ('elif' expression '{' block '}')*
///            ('else' '{' block '}')?`
///
/// An `else` branch is stored with the literal `true` as its condition.
pub fn if_stmt(input: &str, pos: usize) -> (r: Result<Option<(If, usize)>, ParseError>)
    ensures
        parsed_model(r) == spec_if(input.spec_bytes(), pos as int),
        advances(r, pos, input.spec_bytes().len()),
        r matches Ok(Some((found, _))) ==> found.well_formed() && tidy_blocks(found.branches@),
    decreases input.spec_bytes().len() - pos, 1int,
{
    let ghost text = input.spec_bytes();
    let mut at = match try_eat_keyword(input, pos, Keyword::If) {
        None => {
            return Ok(None);
        },
        Some(found) => found,
    };
    let mut cond: Vec<Value> = Vec::new();
    let mut branches: Vec<Block> = Vec::new();
    proof {
        lemma_empty_models();
    }
    loop
        invariant
            text == input.spec_bytes(),
            pos < at <= text.len(),
            cond@.len() == branches@.len(),
            tidy_blocks(branches@),
            spec_if(text, pos as int) == spec_if_arms(
                text,
                at as int,
                values_model(cond@),
                blocks_model(branches@),
            ),
        decreases text.len() - at,
    {
        let (c, at_body) = match expression(input, at) {
            Err(e) => {
                return Err(e);
            },
            Ok(None) => {
                return fatal(ParseErrorKind::ExpectedCondition, at);
            },
            Ok(Some(found)) => found,
        };
        let (b, end) = match body(input, at_body) {
            Err(e) => {
                return Err(e);
            },
            Ok(found) => found,
        };
        proof {
            lemma_values_push(cond@, c);
            lemma_blocks_push(branches@, b);
        }
        cond.push(c);
        branches.push(b);
        match try_eat_keyword(input, end, Keyword::Elif) {
            Some(next) => {
                at = next;
            },
            None => {
                match try_eat_keyword(input, end, Keyword::Else) {
                    Some(at_else) => {
                        let (last, after) = match body(input, at_else) {
                            Err(e) => {
                                return Err(e);
                            },
                            Ok(found) => found,
                        };
                        let otherwise = Value::BOOL(true);
                        proof {
                            lemma_values_push(cond@, otherwise);
                            lemma_blocks_push(branches@, last);
                        }
                        cond.push(otherwise);
                        branches.push(last);
                        return Ok(Some((If { cond, branches }, after)));
                    },
                    None => {
                        return Ok(Some((If { cond, branches }, end)));
                    },
                }
            },
        }
    }
}

/// `while_stmt := 'while' expression '{' block '}'`
pub fn while_stmt(input: &str, pos: usize) -> (r: Result<Option<(While, usize)>, ParseError>)
    ensures
        parsed_model(r) == spec_while(input.spec_bytes(), pos as int),
        advances(r, pos, input.spec_bytes().len()),
        r matches Ok(Some((found, _))) ==> found.body.well_formed(),
    decreases input.spec_bytes().len() - pos, 1int,
{
    let at_cond = match try_eat_keyword(input, pos, Keyword::While) {
        None => {
            return Ok(None);
        },
        Some(found) => found,
    };
    let (cond, at_body) = match expression(input, at_cond) {
        Err(e) => {
            return Err(e);
        },
        Ok(None) => {
            return fatal(ParseErrorKind::ExpectedCondition, at_cond);
        },
        Ok(Some(found)) => found,
    };
    match body(input, at_body) {
        Err(e) => Err(e),
        Ok((body, end)) => Ok(Some((While { cond, body }, end))),
    }
}

/// `statement := assignment ';' | return ';' | expression ';' | func_decl
///             | if_stmt | while_stmt | ';'`, tried in this order.
pub fn statement(input: &str, pos: usize) -> (r: Result<Option<(Statement, usize)>, ParseError>)
    ensures
        parsed_model(r) == spec_statement(input.spec_bytes(), pos as int),
        advances(r, pos, input.spec_bytes().len()),
        r matches Ok(Some((found, _))) ==> tidy_statement(found),
    decreases input.spec_bytes().len() - pos, 2int,
{
    match assignment_stmt(input, pos) {
        Err(e) => {
            return Err(e);
        },
        Ok(Some((assignment, end))) => {
            if let Some(after) = try_eat_semicolon(input, end) {
                return Ok(Some((Statement::ASSIGNMENT(assignment), after)));
            }
        },
        Ok(None) => {},
    }
    match return_stmt(input, pos) {
        Err(e) => {
            return Err(e);
        },
        Ok(Some((returned, end))) => {
            if let Some(after) = try_eat_semicolon(input, end) {
                return Ok(Some((Statement::RETURN(returned), after)));
            }
        },
        Ok(None) => {},
    }
    match expression(input, pos) {
        Err(e) => {
            return Err(e);
        },
        Ok(Some((v, end))) => {
            if let Some(after) = try_eat_semicolon(input, end) {
                return Ok(Some((Statement::EXPRESSION(v), after)));
            }
        },
        Ok(None) => {},
    }
    match func_decl(input, pos) {
        Err(e) => {
            return Err(e);
        },
        Ok(Some((decl, end))) => {
            return Ok(Some((Statement::FUNC_DECL(decl), end)));
        },
        Ok(None) => {},
    }
    match if_stmt(input, pos) {
        Err(e) => {
            return Err(e);
        },
        Ok(Some((found, end))) => {
            return Ok(Some((Statement::IF(found), end)));
        },
        Ok(None) => {},
    }
    match while_stmt(input, pos) {
        Err(e) => {
            return Err(e);
        },
        Ok(Some((found, end))) => {
            return Ok(Some((Statement::WHILE(found), end)));
        },
        Ok(None) => {},
    }
    match try_eat_semicolon(input, pos) {
        Some(after) => Ok(Some((Statement::NOTHING, after))),
        None => Ok(None),
    }
}

/// Parses statements from `pos` for as long as one matches, and returns them
/// with the offset at which none matched. A bare terminator is dropped.
pub fn block(input: &str, pos: usize) -> (r: Result<(Block, usize), ParseError>)
    ensures
        block_model(r) == spec_block(
            input.spec_bytes(),
            pos as int,
            Seq::<StatementModel>::empty(),
        ),
        r matches Ok((_, end)) ==> pos <= end && (end == pos || end <= input.spec_bytes().len()),
        r matches Ok((found, _)) ==> found.well_formed(),
    decreases input.spec_bytes().len() - pos, 3int,
{
    let ghost text = input.spec_bytes();
    let mut statements: Vec<Statement> = Vec::new();
    let mut at: usize = pos;
    proof {
        assert(statements_model(statements@) =~= Seq::<StatementModel>::empty());
    }
    loop
        invariant
            text == input.spec_bytes(),
            pos <= at,
            at == pos || at <= text.len(),
            tidy_statements(statements@),
            spec_block(text, pos as int, Seq::<StatementModel>::empty()) == spec_block(
                text,
                at as int,
                statements_model(statements@),
            ),
        decreases text.len() - at,
    {
        match statement(input, at) {
            Err(e) => {
                return Err(e);
            },
            Ok(None) => {
                return Ok((Block(statements), at));
            },
            Ok(Some((node, end))) => {
                match node {
                    Statement::NOTHING => {},
                    _ => {
                        proof {
                            assert(statements_model(statements@.push(node))
                                =~= statements_model(statements@).push(node@));
                        }
                        statements.push(node);
                    },
                }
                at = end;
            },
        }
    }
}

/// Parses the program that `input` holds from `pos` on.
///
/// The text is rejected where a construct that has begun cannot be completed,
/// and where anything but whitespace is left after the last statement.
pub fn parse(input: &str, pos: usize) -> (r: Result<Block, ParseError>)
    ensures
        parse_result_model(r) == spec_program_outcome(input.spec_bytes(), pos as int),
        r matches Ok(found) ==> found.well_formed(),
{
    let (b, end) = match block(input, pos) {
        Err(e) => {
            return Err(e);
        },
        Ok(found) => found,
    };
    let (tk, _) = next_token(input, end);
    match tk {
        Token::EOF => Ok(b),
        _ => fatal(ParseErrorKind::TrailingInput, end),
    }
}

/// Parsing depends on the text and the offset alone: whatever two runs on the
/// same text return, they are the same program or the same rejection.
pub proof fn lemma_parse_is_a_function(
    text: Seq<u8>,
    pos: int,
    first: Result<Block, ParseError>,
    second: Result<Block, ParseError>,
)
    requires
        parse_result_model(first) == spec_program_outcome(text, pos),
        parse_result_model(second) == spec_program_outcome(text, pos),
    ensures
        parse_result_model(first) == parse_result_model(second),
        first is Ok <==> second is Ok,
        first is Ok ==> first.unwrap()@ == second.unwrap()@,
        first is Err ==> first.unwrap_err() == second.unwrap_err(),
{
}

/// What `parse` returns, as the grammar states it.
pub open spec fn parse_result_model(r: Result<Block, ParseError>) -> Result<
    Seq<StatementModel>,
    (ParseErrorKind, int),
> {
    match r {
        Ok(b) => Ok(b@),
        Err(e) => Err((e.kind, e.pos as int)),
    }
}

} // verus!
