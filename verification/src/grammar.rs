use crate::ast::{StatementModel, ValueModel};
use crate::lexer::{lemma_token_advances, operator_name, token_at, Keyword, Operator, TokenModel};
use vstd::prelude::*;

verus! {

/// Why a program text is rejected.
#[derive(PartialEq, Eq, Structural, Clone, Copy, Debug)]
pub enum ParseErrorKind {
    /// `fn` is not followed by a name.
    ExpectedFunctionName,
    /// A function's name is not followed by `(`.
    ExpectedParameterList,
    /// A `,` in a parameter list is not followed by a name.
    ExpectedParameter,
    /// A parameter or an argument is followed by neither `,` nor `)`.
    ExpectedCommaOrParen,
    /// A `,` in an argument list is not followed by an expression.
    ExpectedArgument,
    /// A body does not open with `{`.
    ExpectedOpeningBrace,
    /// A body is not closed by `}`.
    ExpectedClosingBrace,
    /// `if`, `elif` or `while` is not followed by an expression.
    ExpectedCondition,
    /// A binary operator is not followed by an operand.
    ExpectedOperand,
    /// A parenthesized expression is not closed by `)`.
    ExpectedClosingParen,
    /// Text other than whitespace is left after the last statement.
    TrailingInput,
}

/// A rejection, with the byte offset at which the missing piece was looked for.
#[derive(PartialEq, Eq, Structural, Clone, Copy, Debug)]
pub struct ParseError {
    pub kind: ParseErrorKind,
    pub pos: usize,
}

/// What a rule of the grammar finds at an offset.
pub enum Parsed<T> {
    /// The rule matches: what it built, and the offset right after it.
    Match(T, int),
    /// The rule does not apply here; another may.
    NoMatch,
    /// The rule began and cannot be completed: the text is rejected.
    Fatal(ParseErrorKind, int),
}

/// The two levels of binary operators, loosest first.
#[derive(PartialEq, Eq, Structural, Clone, Copy, Debug)]
pub enum Precedence {
    /// `+` and `-`.
    Additive,
    /// `*` and `/`.
    Multiplicative,
}

/// Whether `op` is an operator of `level`.
pub open spec fn in_level(level: Precedence, op: Operator) -> bool {
    match level {
        Precedence::Additive => op == Operator::Plus || op == Operator::Minus,
        Precedence::Multiplicative => op == Operator::Star || op == Operator::Slash,
    }
}

/// How loosely a level binds: a looser level has the greater rank.
pub open spec fn level_rank(level: Precedence) -> int {
    match level {
        Precedence::Additive => 3,
        Precedence::Multiplicative => 2,
    }
}

/// `r`, unless it is a match that fails to end after `pos` and inside the text.
pub open spec fn within<T>(r: Parsed<T>, pos: int, len: int) -> Parsed<T> {
    match r {
        Parsed::Match(_, end) => if pos < end <= len {
            r
        } else {
            Parsed::NoMatch
        },
        _ => r,
    }
}

/// The offset after the keyword `k`, if that is the next token.
pub open spec fn eat_keyword(text: Seq<u8>, pos: int, k: Keyword) -> Option<int> {
    if token_at(text, pos).0 == TokenModel::Keyword(k) {
        Some(token_at(text, pos).1)
    } else {
        None
    }
}

/// The offset after the operator `op`, if that is the next token.
pub open spec fn eat_operator(text: Seq<u8>, pos: int, op: Operator) -> Option<int> {
    if token_at(text, pos).0 == TokenModel::Operator(op) {
        Some(token_at(text, pos).1)
    } else {
        None
    }
}

/// The offset after the statement terminator, if that is the next token.
pub open spec fn eat_semicolon(text: Seq<u8>, pos: int) -> Option<int> {
    if token_at(text, pos).0 == TokenModel::Semicolon {
        Some(token_at(text, pos).1)
    } else {
        None
    }
}

/// `identifier := IDENT`
pub open spec fn spec_identifier(text: Seq<u8>, pos: int) -> Parsed<Seq<char>> {
    match token_at(text, pos) {
        (TokenModel::Identifier(name), end) => Parsed::Match(name, end),
        _ => Parsed::NoMatch,
    }
}

/// The operator of `level` that is the next token, and the offset after it.
pub open spec fn level_operator(text: Seq<u8>, pos: int, level: Precedence) -> Option<
    (Operator, int),
> {
    match token_at(text, pos) {
        (TokenModel::Operator(op), end) => if in_level(level, op) {
            Some((op, end))
        } else {
            None
        },
        _ => None,
    }
}

/// One level of binary operators: an operand of the next tighter level, then
/// any number of operators of this level, each with its operand.
pub open spec fn spec_level(text: Seq<u8>, pos: int, level: Precedence) -> Parsed<ValueModel>
    decreases text.len() - pos, level_rank(level),
{
    let first = match level {
        Precedence::Additive => spec_level(text, pos, Precedence::Multiplicative),
        Precedence::Multiplicative => spec_value(text, pos),
    };
    match within(first, pos, text.len() as int) {
        Parsed::Match(left, end) => spec_chain(text, end, left, level),
        other => other,
    }
}

/// The rest of a level after the operand `left`: operators associate to the
/// left, and each becomes a call of the operator's name on two arguments.
pub open spec fn spec_chain(text: Seq<u8>, pos: int, left: ValueModel, level: Precedence) -> Parsed<
    ValueModel,
>
    decreases text.len() - pos, 0int,
{
    match level_operator(text, pos, level) {
        None => Parsed::Match(left, pos),
        Some((op, after)) => {
            proof {
                lemma_token_advances(text, pos);
            }
            let operand = match level {
                Precedence::Additive => spec_level(text, after, Precedence::Multiplicative),
                Precedence::Multiplicative => spec_value(text, after),
            };
            match within(operand, after, text.len() as int) {
                Parsed::Match(right, end) => spec_chain(
                    text,
                    end,
                    ValueModel::Call(operator_name(op), seq![left, right]),
                    level,
                ),
                Parsed::NoMatch => Parsed::Fatal(ParseErrorKind::ExpectedOperand, after),
                Parsed::Fatal(k, at) => Parsed::Fatal(k, at),
            }
        },
    }
}

/// `value := func_call | '(' expression ')' | FLOAT | INT | IDENT`
pub open spec fn spec_value(text: Seq<u8>, pos: int) -> Parsed<ValueModel>
    decreases text.len() - pos, 1int,
{
    match spec_func_call(text, pos) {
        Parsed::Match(call, end) => Parsed::Match(call, end),
        Parsed::Fatal(k, at) => Parsed::Fatal(k, at),
        Parsed::NoMatch => match token_at(text, pos) {
            (TokenModel::Operator(Operator::LeftParen), inner) => {
                proof {
                    lemma_token_advances(text, pos);
                }
                match within(
                    spec_level(text, inner, Precedence::Additive),
                    inner,
                    text.len() as int,
                ) {
                    Parsed::Match(v, end) => match eat_operator(text, end, Operator::RightParen) {
                        Some(after) => Parsed::Match(v, after),
                        None => Parsed::Fatal(ParseErrorKind::ExpectedClosingParen, end),
                    },
                    Parsed::NoMatch => Parsed::NoMatch,
                    Parsed::Fatal(k, at) => Parsed::Fatal(k, at),
                }
            },
            (TokenModel::Float(whole, fraction), end) => Parsed::Match(
                ValueModel::Float(whole, fraction),
                end,
            ),
            (TokenModel::Integer(i), end) => Parsed::Match(ValueModel::Int(i), end),
            (TokenModel::Identifier(name), end) => Parsed::Match(ValueModel::Var(name), end),
            _ => Parsed::NoMatch,
        },
    }
}

/// `func_call := IDENT '(' (expression (',' expression)*)? ')'`
pub open spec fn spec_func_call(text: Seq<u8>, pos: int) -> Parsed<ValueModel>
    decreases text.len() - pos, 0int,
{
    match token_at(text, pos) {
        (TokenModel::Identifier(name), open) => match eat_operator(
            text,
            open,
            Operator::LeftParen,
        ) {
            None => Parsed::NoMatch,
            Some(first) => {
                proof {
                    lemma_token_advances(text, pos);
                    lemma_token_advances(text, open);
                }
                match within(
                    spec_level(text, first, Precedence::Additive),
                    first,
                    text.len() as int,
                ) {
                    Parsed::Match(v, end) => spec_args_rest(text, end, name, seq![v]),
                    Parsed::NoMatch => match eat_operator(text, first, Operator::RightParen) {
                        Some(after) => Parsed::Match(
                            ValueModel::Call(name, Seq::<ValueModel>::empty()),
                            after,
                        ),
                        None => Parsed::Fatal(ParseErrorKind::ExpectedCommaOrParen, first),
                    },
                    Parsed::Fatal(k, at) => Parsed::Fatal(k, at),
                }
            },
        },
        _ => Parsed::NoMatch,
    }
}

/// The rest of an argument list after the arguments `args`.
pub open spec fn spec_args_rest(
    text: Seq<u8>,
    pos: int,
    name: Seq<char>,
    args: Seq<ValueModel>,
) -> Parsed<ValueModel>
    decreases text.len() - pos, 0int,
{
    match eat_operator(text, pos, Operator::Comma) {
        Some(next) => {
            proof {
                lemma_token_advances(text, pos);
            }
            match within(spec_level(text, next, Precedence::Additive), next, text.len() as int) {
                Parsed::Match(v, end) => spec_args_rest(text, end, name, args.push(v)),
                Parsed::NoMatch => Parsed::Fatal(ParseErrorKind::ExpectedArgument, next),
                Parsed::Fatal(k, at) => Parsed::Fatal(k, at),
            }
        },
        None => match eat_operator(text, pos, Operator::RightParen) {
            Some(after) => Parsed::Match(ValueModel::Call(name, args), after),
            None => Parsed::Fatal(ParseErrorKind::ExpectedCommaOrParen, pos),
        },
    }
}

/// `expression := addition`
pub open spec fn spec_expression(text: Seq<u8>, pos: int) -> Parsed<ValueModel> {
    spec_level(text, pos, Precedence::Additive)
}

/// `assignment := IDENT '=' expression`
pub open spec fn spec_assignment(text: Seq<u8>, pos: int) -> Parsed<(Seq<char>, ValueModel)> {
    match token_at(text, pos) {
        (TokenModel::Identifier(name), after) => match eat_operator(
            text,
            after,
            Operator::Assign,
        ) {
            Some(start) => match spec_expression(text, start) {
                Parsed::Match(v, end) => Parsed::Match((name, v), end),
                Parsed::NoMatch => Parsed::NoMatch,
                Parsed::Fatal(k, at) => Parsed::Fatal(k, at),
            },
            None => Parsed::NoMatch,
        },
        _ => Parsed::NoMatch,
    }
}

/// `return := 'return' expression`
pub open spec fn spec_return(text: Seq<u8>, pos: int) -> Parsed<ValueModel> {
    match eat_keyword(text, pos, Keyword::Return) {
        Some(start) => spec_expression(text, start),
        None => Parsed::NoMatch,
    }
}

/// The parameters of a declaration after `(`: `(IDENT (',' IDENT)*)? ')'`.
pub open spec fn spec_params(text: Seq<u8>, pos: int) -> Parsed<Seq<Seq<char>>> {
    match token_at(text, pos) {
        (TokenModel::Identifier(name), end) => spec_params_rest(text, end, seq![name]),
        _ => match eat_operator(text, pos, Operator::RightParen) {
            Some(after) => Parsed::Match(Seq::<Seq<char>>::empty(), after),
            None => Parsed::Fatal(ParseErrorKind::ExpectedCommaOrParen, pos),
        },
    }
}

/// The rest of a parameter list after the parameters `params`.
pub open spec fn spec_params_rest(text: Seq<u8>, pos: int, params: Seq<Seq<char>>) -> Parsed<
    Seq<Seq<char>>,
>
    decreases text.len() - pos,
{
    match eat_operator(text, pos, Operator::Comma) {
        Some(next) => match token_at(text, next) {
            (TokenModel::Identifier(name), end) => {
                proof {
                    lemma_token_advances(text, pos);
                    lemma_token_advances(text, next);
                }
                spec_params_rest(text, end, params.push(name))
            },
            _ => Parsed::Fatal(ParseErrorKind::ExpectedParameter, next),
        },
        None => match eat_operator(text, pos, Operator::RightParen) {
            Some(after) => Parsed::Match(params, after),
            None => Parsed::Fatal(ParseErrorKind::ExpectedCommaOrParen, pos),
        },
    }
}

/// `statement := assignment ';' | return ';' | expression ';' | func_decl
///             | if_stmt | while_stmt | ';'`, tried in this order.
pub open spec fn spec_statement(text: Seq<u8>, pos: int) -> Parsed<StatementModel>
    decreases text.len() - pos, 2int,
{
    let assignment = spec_assignment(text, pos);
    let returned = spec_return(text, pos);
    let expression = spec_expression(text, pos);
    if assignment is Fatal {
        Parsed::Fatal(assignment->Fatal_0, assignment->Fatal_1)
    } else if assignment is Match && eat_semicolon(text, assignment->Match_1) is Some {
        Parsed::Match(
            StatementModel::Assignment(assignment->Match_0.0, assignment->Match_0.1),
            eat_semicolon(text, assignment->Match_1).unwrap(),
        )
    } else if returned is Fatal {
        Parsed::Fatal(returned->Fatal_0, returned->Fatal_1)
    } else if returned is Match && eat_semicolon(text, returned->Match_1) is Some {
        Parsed::Match(
            StatementModel::Return(returned->Match_0),
            eat_semicolon(text, returned->Match_1).unwrap(),
        )
    } else if expression is Fatal {
        Parsed::Fatal(expression->Fatal_0, expression->Fatal_1)
    } else if expression is Match && eat_semicolon(text, expression->Match_1) is Some {
        Parsed::Match(
            StatementModel::Expression(expression->Match_0),
            eat_semicolon(text, expression->Match_1).unwrap(),
        )
    } else {
        match spec_func_decl(text, pos) {
            Parsed::NoMatch => match spec_if(text, pos) {
                Parsed::NoMatch => match spec_while(text, pos) {
                    Parsed::NoMatch => match eat_semicolon(text, pos) {
                        Some(after) => Parsed::Match(StatementModel::Nothing, after),
                        None => Parsed::NoMatch,
                    },
                    found => found,
                },
                found => found,
            },
            found => found,
        }
    }
}

/// `block := statement*`: statements as long as one matches; a bare
/// terminator is dropped. After the statements `done`.
pub open spec fn spec_block(text: Seq<u8>, pos: int, done: Seq<StatementModel>) -> Parsed<
    Seq<StatementModel>,
>
    decreases text.len() - pos, 3int,
{
    match within(spec_statement(text, pos), pos, text.len() as int) {
        Parsed::Match(s, end) => spec_block(
            text,
            end,
            if s is Nothing {
                done
            } else {
                done.push(s)
            },
        ),
        Parsed::NoMatch => Parsed::Match(done, pos),
        Parsed::Fatal(k, at) => Parsed::Fatal(k, at),
    }
}

/// `'{' block '}'`
pub open spec fn spec_body(text: Seq<u8>, pos: int) -> Parsed<Seq<StatementModel>>
    decreases text.len() - pos, 4int,
{
    match eat_operator(text, pos, Operator::LeftBrace) {
        None => Parsed::Fatal(ParseErrorKind::ExpectedOpeningBrace, pos),
        Some(inner) => {
            proof {
                lemma_token_advances(text, pos);
            }
            match spec_block(text, inner, Seq::<StatementModel>::empty()) {
                Parsed::Match(b, end) => match eat_operator(text, end, Operator::RightBrace) {
                    Some(after) => Parsed::Match(b, after),
                    None => Parsed::Fatal(ParseErrorKind::ExpectedClosingBrace, end),
                },
                Parsed::NoMatch => Parsed::NoMatch,
                Parsed::Fatal(k, at) => Parsed::Fatal(k, at),
            }
        },
    }
}

/// `func_decl := 'fn' IDENT '(' (IDENT (',' IDENT)*)? ')' '{' block '}'`
pub open spec fn spec_func_decl(text: Seq<u8>, pos: int) -> Parsed<StatementModel>
    decreases text.len() - pos, 1int,
{
    match eat_keyword(text, pos, Keyword::Fn) {
        None => Parsed::NoMatch,
        Some(at_name) => match spec_identifier(text, at_name) {
            Parsed::Match(name, at_paren) => match eat_operator(
                text,
                at_paren,
                Operator::LeftParen,
            ) {
                None => Parsed::Fatal(ParseErrorKind::ExpectedParameterList, at_paren),
                Some(at_params) => match within(
                    spec_params(text, at_params),
                    pos,
                    text.len() as int,
                ) {
                    Parsed::Match(params, at_body) => match spec_body(text, at_body) {
                        Parsed::Match(body, end) => Parsed::Match(
                            StatementModel::FuncDecl(name, params, body),
                            end,
                        ),
                        Parsed::NoMatch => Parsed::NoMatch,
                        Parsed::Fatal(k, at) => Parsed::Fatal(k, at),
                    },
                    Parsed::NoMatch => Parsed::NoMatch,
                    Parsed::Fatal(k, at) => Parsed::Fatal(k, at),
                },
            },
            _ => Parsed::Fatal(ParseErrorKind::ExpectedFunctionName, at_name),
        },
    }
}

/// `if_stmt := 'if' expression '{' block '}' ('elif' expression '{' block '}')*
///            ('else' '{' block '}')?`
pub open spec fn spec_if(text: Seq<u8>, pos: int) -> Parsed<StatementModel>
    decreases text.len() - pos, 1int,
{
    match eat_keyword(text, pos, Keyword::If) {
        None => Parsed::NoMatch,
        Some(at_cond) => {
            proof {
                lemma_token_advances(text, pos);
            }
            spec_if_arms(
                text,
                at_cond,
                Seq::<ValueModel>::empty(),
                Seq::<Seq<StatementModel>>::empty(),
            )
        },
    }
}

/// A condition and its branch, after the arms `conds` and `branches`; then
/// `elif` with another arm, or `else` with the last branch, whose condition is
/// the literal `true`, or nothing more.
pub open spec fn spec_if_arms(
    text: Seq<u8>,
    pos: int,
    conds: Seq<ValueModel>,
    branches: Seq<Seq<StatementModel>>,
) -> Parsed<StatementModel>
    decreases text.len() - pos, 0int,
{
    match within(spec_expression(text, pos), pos, text.len() as int) {
        Parsed::Match(c, at_body) => match within(
            spec_body(text, at_body),
            at_body,
            text.len() as int,
        ) {
            Parsed::Match(b, end) => match eat_keyword(text, end, Keyword::Elif) {
                Some(next) => {
                    proof {
                        lemma_token_advances(text, end);
                    }
                    spec_if_arms(text, next, conds.push(c), branches.push(b))
                },
                None => match eat_keyword(text, end, Keyword::Else) {
                    Some(at_else) => {
                        proof {
                            lemma_token_advances(text, end);
                        }
                        match spec_body(text, at_else) {
                            Parsed::Match(last, after) => Parsed::Match(
                                StatementModel::If(
                                    conds.push(c).push(ValueModel::Bool(true)),
                                    branches.push(b).push(last),
                                ),
                                after,
                            ),
                            Parsed::NoMatch => Parsed::NoMatch,
                            Parsed::Fatal(k, at) => Parsed::Fatal(k, at),
                        }
                    },
                    None => Parsed::Match(
                        StatementModel::If(conds.push(c), branches.push(b)),
                        end,
                    ),
                },
            },
            Parsed::NoMatch => Parsed::NoMatch,
            Parsed::Fatal(k, at) => Parsed::Fatal(k, at),
        },
        Parsed::NoMatch => Parsed::Fatal(ParseErrorKind::ExpectedCondition, pos),
        Parsed::Fatal(k, at) => Parsed::Fatal(k, at),
    }
}

/// `while_stmt := 'while' expression '{' block '}'`
pub open spec fn spec_while(text: Seq<u8>, pos: int) -> Parsed<StatementModel>
    decreases text.len() - pos, 1int,
{
    match eat_keyword(text, pos, Keyword::While) {
        None => Parsed::NoMatch,
        Some(at_cond) => match within(spec_expression(text, at_cond), pos, text.len() as int) {
            Parsed::Match(c, at_body) => match spec_body(text, at_body) {
                Parsed::Match(b, end) => Parsed::Match(StatementModel::While(c, b), end),
                Parsed::NoMatch => Parsed::NoMatch,
                Parsed::Fatal(k, at) => Parsed::Fatal(k, at),
            },
            Parsed::NoMatch => Parsed::Fatal(ParseErrorKind::ExpectedCondition, at_cond),
            Parsed::Fatal(k, at) => Parsed::Fatal(k, at),
        },
    }
}

/// A whole program from `pos` on: the block that the text holds, after which
/// nothing but whitespace may be left, or why the text is rejected.
pub open spec fn spec_program_outcome(text: Seq<u8>, pos: int) -> Result<
    Seq<StatementModel>,
    (ParseErrorKind, int),
> {
    match spec_block(text, pos, Seq::<StatementModel>::empty()) {
        Parsed::Fatal(k, at) => Err((k, at)),
        Parsed::Match(b, end) => if token_at(text, end).0 is Eof {
            Ok(b)
        } else {
            Err((ParseErrorKind::TrailingInput, end))
        },
        // A block matches or rejects.
        Parsed::NoMatch => Err((ParseErrorKind::TrailingInput, pos)),
    }
}

} // verus!
