use crate::ast::{StatementModel, ValueModel};
use crate::grammar::{
    eat_keyword, eat_operator, level_operator, spec_args_rest, spec_assignment, spec_block,
    spec_body, spec_chain, spec_expression, spec_func_call, spec_func_decl, spec_identifier,
    spec_if, spec_if_arms, spec_level, spec_params, spec_params_rest, spec_return,
    spec_statement, spec_value, spec_while, ParseErrorKind, Parsed, Precedence,
};
use crate::lexer::{
    lemma_token_advances, lemma_token_ignores_leading_whitespace, operator_name, run_len,
    token_at, ByteClass, Keyword, Operator, TokenModel,
};
use crate::grammar::spec_program_outcome;
use vstd::prelude::*;

verus! {

/// Whether the text `a` from `p` on and the text `b` from `q` on hold the
/// same tokens, one after the other, up to the end or an error token. The
/// whitespace between the tokens, and so their offsets, may differ.
pub open spec fn same_tokens(a: Seq<u8>, p: int, b: Seq<u8>, q: int) -> bool
    decreases a.len() - p,
{
    if token_at(a, p).0 != token_at(b, q).0 {
        false
    } else if token_at(a, p).0 is Eof || token_at(a, p).0 is Error {
        true
    } else {
        proof {
            lemma_token_advances(a, p);
        }
        same_tokens(a, token_at(a, p).1, b, token_at(b, q).1)
    }
}

/// Whether a rule finds the same in two texts: the same tree, with the same
/// tokens left after it; or no match in both; or a rejection of the same kind.
pub open spec fn same_parse<T>(ra: Parsed<T>, a: Seq<u8>, rb: Parsed<T>, b: Seq<u8>) -> bool {
    match (ra, rb) {
        (Parsed::Match(va, ea), Parsed::Match(vb, eb)) => va == vb && same_tokens(a, ea, b, eb),
        (Parsed::NoMatch, Parsed::NoMatch) => true,
        (Parsed::Fatal(ka, _), Parsed::Fatal(kb, _)) => ka == kb,
        _ => false,
    }
}

/// Whether a match, if `r` is one, ends in the text and not before `pos`.
pub open spec fn ends_within<T>(r: Parsed<T>, pos: int, len: int) -> bool {
    r matches Parsed::Match(_, end) ==> pos <= end <= len
}

/// Whether a match, if `r` is one, ends in the text and after `pos`.
pub open spec fn ends_after<T>(r: Parsed<T>, pos: int, len: int) -> bool {
    r matches Parsed::Match(_, end) ==> pos < end <= len
}

/// The token after a token that both texts hold starts a run of the same
/// tokens again.
proof fn lemma_same_tokens_next(a: Seq<u8>, p: int, b: Seq<u8>, q: int)
    requires
        same_tokens(a, p, b, q),
    ensures
        token_at(a, p).0 == token_at(b, q).0,
        !(token_at(a, p).0 is Eof || token_at(a, p).0 is Error) ==> same_tokens(
            a,
            token_at(a, p).1,
            b,
            token_at(b, q).1,
        ) && p < token_at(a, p).1 <= a.len() && q < token_at(b, q).1 <= b.len(),
{
    lemma_token_advances(a, p);
    lemma_token_advances(b, q);
}

/// A level of binary operators is read alike from two texts that hold the
/// same tokens.
pub proof fn lemma_level_layout(a: Seq<u8>, p: int, b: Seq<u8>, q: int, level: Precedence)
    requires
        same_tokens(a, p, b, q),
    ensures
        same_parse(spec_level(a, p, level), a, spec_level(b, q, level), b),
        ends_after(spec_level(a, p, level), p, a.len() as int),
        ends_after(spec_level(b, q, level), q, b.len() as int),
    decreases a.len() - p, crate::grammar::level_rank(level),
{
    match level {
        Precedence::Additive => {
            lemma_level_layout(a, p, b, q, Precedence::Multiplicative);
        },
        Precedence::Multiplicative => {
            lemma_value_layout(a, p, b, q);
        },
    }
    let first_a = match level {
        Precedence::Additive => spec_level(a, p, Precedence::Multiplicative),
        Precedence::Multiplicative => spec_value(a, p),
    };
    let first_b = match level {
        Precedence::Additive => spec_level(b, q, Precedence::Multiplicative),
        Precedence::Multiplicative => spec_value(b, q),
    };
    if let Parsed::Match(left, ea) = first_a {
        let eb = first_b->Match_1;
        lemma_chain_layout(a, ea, b, eb, left, level);
    }
}

/// The rest of a level is read alike from two texts that hold the same tokens.
pub proof fn lemma_chain_layout(
    a: Seq<u8>,
    p: int,
    b: Seq<u8>,
    q: int,
    left: ValueModel,
    level: Precedence,
)
    requires
        same_tokens(a, p, b, q),
        p <= a.len(),
        q <= b.len(),
    ensures
        same_parse(spec_chain(a, p, left, level), a, spec_chain(b, q, left, level), b),
        ends_within(spec_chain(a, p, left, level), p, a.len() as int),
        ends_within(spec_chain(b, q, left, level), q, b.len() as int),
    decreases a.len() - p, 0int,
{
    lemma_same_tokens_next(a, p, b, q);
    if let Some((op, after_a)) = level_operator(a, p, level) {
        let after_b = token_at(b, q).1;
        match level {
            Precedence::Additive => {
                lemma_level_layout(a, after_a, b, after_b, Precedence::Multiplicative);
            },
            Precedence::Multiplicative => {
                lemma_value_layout(a, after_a, b, after_b);
            },
        }
        let operand_a = match level {
            Precedence::Additive => spec_level(a, after_a, Precedence::Multiplicative),
            Precedence::Multiplicative => spec_value(a, after_a),
        };
        let operand_b = match level {
            Precedence::Additive => spec_level(b, after_b, Precedence::Multiplicative),
            Precedence::Multiplicative => spec_value(b, after_b),
        };
        if let Parsed::Match(right, ea) = operand_a {
            let eb = operand_b->Match_1;
            lemma_chain_layout(
                a,
                ea,
                b,
                eb,
                ValueModel::Call(operator_name(op), seq![left, right]),
                level,
            );
        }
    }
}

/// A value is read alike from two texts that hold the same tokens.
pub proof fn lemma_value_layout(a: Seq<u8>, p: int, b: Seq<u8>, q: int)
    requires
        same_tokens(a, p, b, q),
    ensures
        same_parse(spec_value(a, p), a, spec_value(b, q), b),
        ends_after(spec_value(a, p), p, a.len() as int),
        ends_after(spec_value(b, q), q, b.len() as int),
    decreases a.len() - p, 1int,
{
    lemma_func_call_layout(a, p, b, q);
    lemma_same_tokens_next(a, p, b, q);
    if spec_func_call(a, p) is NoMatch {
        if token_at(a, p).0 == TokenModel::Operator(Operator::LeftParen) {
            let inner_a = token_at(a, p).1;
            let inner_b = token_at(b, q).1;
            lemma_level_layout(a, inner_a, b, inner_b, Precedence::Additive);
            if let Parsed::Match(v, ea) = spec_level(a, inner_a, Precedence::Additive) {
                let eb = spec_level(b, inner_b, Precedence::Additive)->Match_1;
                lemma_same_tokens_next(a, ea, b, eb);
            }
        }
    }
}

/// A call is read alike from two texts that hold the same tokens.
pub proof fn lemma_func_call_layout(a: Seq<u8>, p: int, b: Seq<u8>, q: int)
    requires
        same_tokens(a, p, b, q),
    ensures
        same_parse(spec_func_call(a, p), a, spec_func_call(b, q), b),
        ends_after(spec_func_call(a, p), p, a.len() as int),
        ends_after(spec_func_call(b, q), q, b.len() as int),
    decreases a.len() - p, 0int,
{
    lemma_same_tokens_next(a, p, b, q);
    if let TokenModel::Identifier(name) = token_at(a, p).0 {
        let open_a = token_at(a, p).1;
        let open_b = token_at(b, q).1;
        lemma_same_tokens_next(a, open_a, b, open_b);
        if let Some(first_a) = eat_operator(a, open_a, Operator::LeftParen) {
            let first_b = token_at(b, open_b).1;
            lemma_level_layout(a, first_a, b, first_b, Precedence::Additive);
            lemma_same_tokens_next(a, first_a, b, first_b);
            if let Parsed::Match(v, ea) = spec_level(a, first_a, Precedence::Additive) {
                let eb = spec_level(b, first_b, Precedence::Additive)->Match_1;
                lemma_args_rest_layout(a, ea, b, eb, name, seq![v]);
            }
        }
    }
}

/// The rest of an argument list is read alike from two texts that hold the
/// same tokens.
pub proof fn lemma_args_rest_layout(
    a: Seq<u8>,
    p: int,
    b: Seq<u8>,
    q: int,
    name: Seq<char>,
    args: Seq<ValueModel>,
)
    requires
        same_tokens(a, p, b, q),
    ensures
        same_parse(spec_args_rest(a, p, name, args), a, spec_args_rest(b, q, name, args), b),
        ends_after(spec_args_rest(a, p, name, args), p, a.len() as int),
        ends_after(spec_args_rest(b, q, name, args), q, b.len() as int),
    decreases a.len() - p, 0int,
{
    lemma_same_tokens_next(a, p, b, q);
    if let Some(next_a) = eat_operator(a, p, Operator::Comma) {
        let next_b = token_at(b, q).1;
        lemma_level_layout(a, next_a, b, next_b, Precedence::Additive);
        if let Parsed::Match(v, ea) = spec_level(a, next_a, Precedence::Additive) {
            let eb = spec_level(b, next_b, Precedence::Additive)->Match_1;
            lemma_args_rest_layout(a, ea, b, eb, name, args.push(v));
        }
    }
}

/// The tree of an expression does not depend on the whitespace around its
/// tokens: two texts that hold the same tokens give the same expression, or
/// are rejected for the same reason.
pub proof fn lemma_expression_layout(a: Seq<u8>, p: int, b: Seq<u8>, q: int)
    requires
        same_tokens(a, p, b, q),
    ensures
        same_parse(spec_expression(a, p), a, spec_expression(b, q), b),
{
    lemma_level_layout(a, p, b, q, Precedence::Additive);
}


/// An assignment is read alike from two texts that hold the same tokens.
pub proof fn lemma_assignment_layout(a: Seq<u8>, p: int, b: Seq<u8>, q: int)
    requires
        same_tokens(a, p, b, q),
    ensures
        same_parse(spec_assignment(a, p), a, spec_assignment(b, q), b),
        ends_after(spec_assignment(a, p), p, a.len() as int),
        ends_after(spec_assignment(b, q), q, b.len() as int),
{
    lemma_same_tokens_next(a, p, b, q);
    if token_at(a, p).0 is Identifier {
        let after_a = token_at(a, p).1;
        let after_b = token_at(b, q).1;
        lemma_same_tokens_next(a, after_a, b, after_b);
        if let Some(start_a) = eat_operator(a, after_a, Operator::Assign) {
            lemma_level_layout(a, start_a, b, token_at(b, after_b).1, Precedence::Additive);
        }
    }
}

/// A `return` is read alike from two texts that hold the same tokens.
pub proof fn lemma_return_layout(a: Seq<u8>, p: int, b: Seq<u8>, q: int)
    requires
        same_tokens(a, p, b, q),
    ensures
        same_parse(spec_return(a, p), a, spec_return(b, q), b),
        ends_after(spec_return(a, p), p, a.len() as int),
        ends_after(spec_return(b, q), q, b.len() as int),
{
    lemma_same_tokens_next(a, p, b, q);
    if let Some(start_a) = eat_keyword(a, p, Keyword::Return) {
        lemma_level_layout(a, start_a, b, token_at(b, q).1, Precedence::Additive);
    }
}

/// The rest of a parameter list is read alike from two texts that hold the
/// same tokens.
pub proof fn lemma_params_rest_layout(
    a: Seq<u8>,
    p: int,
    b: Seq<u8>,
    q: int,
    params: Seq<Seq<char>>,
)
    requires
        same_tokens(a, p, b, q),
    ensures
        same_parse(spec_params_rest(a, p, params), a, spec_params_rest(b, q, params), b),
        ends_after(spec_params_rest(a, p, params), p, a.len() as int),
        ends_after(spec_params_rest(b, q, params), q, b.len() as int),
    decreases a.len() - p,
{
    lemma_same_tokens_next(a, p, b, q);
    if let Some(next_a) = eat_operator(a, p, Operator::Comma) {
        let next_b = token_at(b, q).1;
        lemma_same_tokens_next(a, next_a, b, next_b);
        if let TokenModel::Identifier(name) = token_at(a, next_a).0 {
            lemma_params_rest_layout(
                a,
                token_at(a, next_a).1,
                b,
                token_at(b, next_b).1,
                params.push(name),
            );
        }
    }
}

/// A parameter list is read alike from two texts that hold the same tokens.
pub proof fn lemma_params_layout(a: Seq<u8>, p: int, b: Seq<u8>, q: int)
    requires
        same_tokens(a, p, b, q),
    ensures
        same_parse(spec_params(a, p), a, spec_params(b, q), b),
        ends_after(spec_params(a, p), p, a.len() as int),
        ends_after(spec_params(b, q), q, b.len() as int),
{
    lemma_same_tokens_next(a, p, b, q);
    if let TokenModel::Identifier(name) = token_at(a, p).0 {
        lemma_params_rest_layout(a, token_at(a, p).1, b, token_at(b, q).1, seq![name]);
    }
}

/// A statement is read alike from two texts that hold the same tokens.
pub proof fn lemma_statement_layout(a: Seq<u8>, p: int, b: Seq<u8>, q: int)
    requires
        same_tokens(a, p, b, q),
    ensures
        same_parse(spec_statement(a, p), a, spec_statement(b, q), b),
        ends_after(spec_statement(a, p), p, a.len() as int),
        ends_after(spec_statement(b, q), q, b.len() as int),
    decreases a.len() - p, 2int,
{
    lemma_same_tokens_next(a, p, b, q);
    lemma_assignment_layout(a, p, b, q);
    if let Parsed::Match(_, ea) = spec_assignment(a, p) {
        lemma_same_tokens_next(a, ea, b, spec_assignment(b, q)->Match_1);
    }
    lemma_return_layout(a, p, b, q);
    if let Parsed::Match(_, ea) = spec_return(a, p) {
        lemma_same_tokens_next(a, ea, b, spec_return(b, q)->Match_1);
    }
    lemma_level_layout(a, p, b, q, Precedence::Additive);
    if let Parsed::Match(_, ea) = spec_expression(a, p) {
        lemma_same_tokens_next(a, ea, b, spec_expression(b, q)->Match_1);
    }
    lemma_func_decl_layout(a, p, b, q);
    lemma_if_layout(a, p, b, q);
    lemma_while_layout(a, p, b, q);
}

/// A block is read alike from two texts that hold the same tokens.
pub proof fn lemma_block_layout(
    a: Seq<u8>,
    p: int,
    b: Seq<u8>,
    q: int,
    done: Seq<StatementModel>,
)
    requires
        same_tokens(a, p, b, q),
    ensures
        same_parse(spec_block(a, p, done), a, spec_block(b, q, done), b),
        p <= a.len() ==> ends_within(spec_block(a, p, done), p, a.len() as int),
        q <= b.len() ==> ends_within(spec_block(b, q, done), q, b.len() as int),
    decreases a.len() - p, 3int,
{
    lemma_statement_layout(a, p, b, q);
    if let Parsed::Match(s, ea) = spec_statement(a, p) {
        let eb = spec_statement(b, q)->Match_1;
        lemma_block_layout(
            a,
            ea,
            b,
            eb,
            if s is Nothing {
                done
            } else {
                done.push(s)
            },
        );
    }
}

/// A body in braces is read alike from two texts that hold the same tokens.
pub proof fn lemma_body_layout(a: Seq<u8>, p: int, b: Seq<u8>, q: int)
    requires
        same_tokens(a, p, b, q),
    ensures
        same_parse(spec_body(a, p), a, spec_body(b, q), b),
        ends_after(spec_body(a, p), p, a.len() as int),
        ends_after(spec_body(b, q), q, b.len() as int),
    decreases a.len() - p, 4int,
{
    lemma_same_tokens_next(a, p, b, q);
    if let Some(inner_a) = eat_operator(a, p, Operator::LeftBrace) {
        let inner_b = token_at(b, q).1;
        lemma_block_layout(a, inner_a, b, inner_b, Seq::<StatementModel>::empty());
        if let Parsed::Match(_, ea) = spec_block(a, inner_a, Seq::<StatementModel>::empty()) {
            let eb = spec_block(b, inner_b, Seq::<StatementModel>::empty())->Match_1;
            lemma_same_tokens_next(a, ea, b, eb);
        }
    }
}

/// A function declaration is read alike from two texts that hold the same
/// tokens.
pub proof fn lemma_func_decl_layout(a: Seq<u8>, p: int, b: Seq<u8>, q: int)
    requires
        same_tokens(a, p, b, q),
    ensures
        same_parse(spec_func_decl(a, p), a, spec_func_decl(b, q), b),
        ends_after(spec_func_decl(a, p), p, a.len() as int),
        ends_after(spec_func_decl(b, q), q, b.len() as int),
    decreases a.len() - p, 1int,
{
    lemma_same_tokens_next(a, p, b, q);
    if let Some(at_name_a) = eat_keyword(a, p, Keyword::Fn) {
        let at_name_b = token_at(b, q).1;
        lemma_same_tokens_next(a, at_name_a, b, at_name_b);
        if let Parsed::Match(_, at_paren_a) = spec_identifier(a, at_name_a) {
            let at_paren_b = token_at(b, at_name_b).1;
            lemma_same_tokens_next(a, at_paren_a, b, at_paren_b);
            if let Some(at_params_a) = eat_operator(a, at_paren_a, Operator::LeftParen) {
                let at_params_b = token_at(b, at_paren_b).1;
                lemma_params_layout(a, at_params_a, b, at_params_b);
                if let Parsed::Match(_, at_body_a) = spec_params(a, at_params_a) {
                    let at_body_b = spec_params(b, at_params_b)->Match_1;
                    lemma_body_layout(a, at_body_a, b, at_body_b);
                }
            }
        }
    }
}

/// The arms of an `if` are read alike from two texts that hold the same tokens.
pub proof fn lemma_if_arms_layout(
    a: Seq<u8>,
    p: int,
    b: Seq<u8>,
    q: int,
    conds: Seq<ValueModel>,
    branches: Seq<Seq<StatementModel>>,
)
    requires
        same_tokens(a, p, b, q),
    ensures
        same_parse(
            spec_if_arms(a, p, conds, branches),
            a,
            spec_if_arms(b, q, conds, branches),
            b,
        ),
        ends_after(spec_if_arms(a, p, conds, branches), p, a.len() as int),
        ends_after(spec_if_arms(b, q, conds, branches), q, b.len() as int),
    decreases a.len() - p, 0int,
{
    lemma_level_layout(a, p, b, q, Precedence::Additive);
    if let Parsed::Match(c, at_body_a) = spec_expression(a, p) {
        let at_body_b = spec_expression(b, q)->Match_1;
        lemma_body_layout(a, at_body_a, b, at_body_b);
        if let Parsed::Match(blk, ea) = spec_body(a, at_body_a) {
            let eb = spec_body(b, at_body_b)->Match_1;
            lemma_same_tokens_next(a, ea, b, eb);
            if let Some(next_a) = eat_keyword(a, ea, Keyword::Elif) {
                lemma_if_arms_layout(
                    a,
                    next_a,
                    b,
                    token_at(b, eb).1,
                    conds.push(c),
                    branches.push(blk),
                );
            } else if let Some(at_else_a) = eat_keyword(a, ea, Keyword::Else) {
                lemma_body_layout(a, at_else_a, b, token_at(b, eb).1);
            }
        }
    }
}

/// An `if` is read alike from two texts that hold the same tokens.
pub proof fn lemma_if_layout(a: Seq<u8>, p: int, b: Seq<u8>, q: int)
    requires
        same_tokens(a, p, b, q),
    ensures
        same_parse(spec_if(a, p), a, spec_if(b, q), b),
        ends_after(spec_if(a, p), p, a.len() as int),
        ends_after(spec_if(b, q), q, b.len() as int),
    decreases a.len() - p, 1int,
{
    lemma_same_tokens_next(a, p, b, q);
    if let Some(at_cond_a) = eat_keyword(a, p, Keyword::If) {
        lemma_if_arms_layout(
            a,
            at_cond_a,
            b,
            token_at(b, q).1,
            Seq::<ValueModel>::empty(),
            Seq::<Seq<StatementModel>>::empty(),
        );
    }
}

/// A `while` is read alike from two texts that hold the same tokens.
pub proof fn lemma_while_layout(a: Seq<u8>, p: int, b: Seq<u8>, q: int)
    requires
        same_tokens(a, p, b, q),
    ensures
        same_parse(spec_while(a, p), a, spec_while(b, q), b),
        ends_after(spec_while(a, p), p, a.len() as int),
        ends_after(spec_while(b, q), q, b.len() as int),
    decreases a.len() - p, 1int,
{
    lemma_same_tokens_next(a, p, b, q);
    if let Some(at_cond_a) = eat_keyword(a, p, Keyword::While) {
        let at_cond_b = token_at(b, q).1;
        lemma_level_layout(a, at_cond_a, b, at_cond_b, Precedence::Additive);
        if let Parsed::Match(_, at_body_a) = spec_expression(a, at_cond_a) {
            let at_body_b = spec_expression(b, at_cond_b)->Match_1;
            lemma_body_layout(a, at_body_a, b, at_body_b);
        }
    }
}

/// Whether two texts are read as the same program, or are rejected for the
/// same reason. The offset of a rejection may differ.
pub open spec fn same_outcome(
    x: Result<Seq<StatementModel>, (ParseErrorKind, int)>,
    y: Result<Seq<StatementModel>, (ParseErrorKind, int)>,
) -> bool {
    match (x, y) {
        (Ok(u), Ok(v)) => u == v,
        (Err(e), Err(f)) => e.0 == f.0,
        _ => false,
    }
}

/// The program that a text holds does not depend on the whitespace around
/// its tokens: two texts that hold the same tokens are read as the same
/// program, or are rejected for the same reason.
pub proof fn lemma_program_layout(a: Seq<u8>, p: int, b: Seq<u8>, q: int)
    requires
        same_tokens(a, p, b, q),
    ensures
        same_outcome(spec_program_outcome(a, p), spec_program_outcome(b, q)),
{
    lemma_block_layout(a, p, b, q, Seq::<StatementModel>::empty());
    if let Parsed::Match(_, ea) = spec_block(a, p, Seq::<StatementModel>::empty()) {
        let eb = spec_block(b, q, Seq::<StatementModel>::empty())->Match_1;
        lemma_same_tokens_next(a, ea, b, eb);
    }
}

/// A text holds the same tokens as itself.
pub proof fn lemma_same_tokens_reflexive(a: Seq<u8>, p: int)
    ensures
        same_tokens(a, p, a, p),
    decreases a.len() - p,
{
    lemma_token_advances(a, p);
    if !(token_at(a, p).0 is Eof || token_at(a, p).0 is Error) {
        lemma_same_tokens_reflexive(a, token_at(a, p).1);
    }
}

/// Whitespace before the first token changes nothing: the text holds the
/// same tokens from `pos` as from the end of the whitespace that starts there.
pub proof fn lemma_leading_whitespace_same_tokens(a: Seq<u8>, p: int)
    ensures
        same_tokens(a, p, a, p + run_len(a, p, ByteClass::Space)),
{
    lemma_token_ignores_leading_whitespace(a, p);
    lemma_token_advances(a, p);
    if !(token_at(a, p).0 is Eof || token_at(a, p).0 is Error) {
        lemma_same_tokens_reflexive(a, token_at(a, p).1);
    }
}

} // verus!
