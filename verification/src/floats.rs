use crate::ast::{Block, Value};
use crate::runtime::{
    builtin_name, builtin_value, initial_model, lookup_model, resume_model, step_model, Action,
    Frame, MachineModel,
};
use crate::scope::{NativeOp, PrimitiveType, ScopeModel};
use vstd::prelude::*;

verus! {

/// The host's part in a run: the float that it makes of a literal's digits,
/// and the float that it computes from two floats. Both are functions: the
/// same question has the same answer.
pub struct Host {
    pub literal: spec_fn(Seq<u8>, Seq<u8>) -> u64,
    pub compute: spec_fn(NativeOp, u64, u64) -> u64,
}

/// One step, and the host's answer where the step asks for a float.
pub open spec fn hosted_step<'a>(m: MachineModel<'a>, host: Host) -> MachineModel<'a> {
    match step_model(m).1 {
        Action::FloatLiteral(lit) => resume_model(
            step_model(m).0,
            (host.literal)(lit.whole@, lit.fraction@),
        ),
        Action::FloatOp(op, x, y) => resume_model(step_model(m).0, (host.compute)(op, x, y)),
        _ => step_model(m).0,
    }
}

/// The machine after `n` steps with the host's answers.
pub open spec fn hosted_run<'a>(m: MachineModel<'a>, host: Host, n: nat) -> MachineModel<'a>
    decreases n,
{
    if n == 0 {
        m
    } else {
        hosted_run(hosted_step(m, host), host, (n - 1) as nat)
    }
}

/// Whether `n` steps from `m` write nothing, end nothing and stop nothing:
/// each of them asks the host for a float or for nothing.
pub open spec fn quiet_run<'a>(m: MachineModel<'a>, host: Host, n: nat) -> bool
    decreases n,
{
    n == 0 || ((step_model(m).1 is Continue || step_model(m).1 is FloatLiteral || step_model(
        m,
    ).1 is FloatOp) && quiet_run(hosted_step(m, host), host, (n - 1) as nat))
}

/// The arithmetic built-in that is bound to `name` in the root scope.
pub open spec fn arith_named(name: Seq<char>) -> Option<NativeOp> {
    if name == builtin_name(NativeOp::Add) {
        Some(NativeOp::Add)
    } else if name == builtin_name(NativeOp::Sub) {
        Some(NativeOp::Sub)
    } else if name == builtin_name(NativeOp::Mul) {
        Some(NativeOp::Mul)
    } else if name == builtin_name(NativeOp::Div) {
        Some(NativeOp::Div)
    } else {
        None
    }
}

/// Whether an expression is built from float literals and the four binary
/// operators alone.
pub open spec fn is_float_tree(e: Value) -> bool
    decreases e,
{
    match e {
        Value::FLOAT(_) => true,
        Value::FUNC_CALL(fc) => if arith_named(fc.func_name@) is Some && fc.arg_list@.len() == 2 {
            is_float_tree(fc.arg_list@[0]) && is_float_tree(fc.arg_list@[1])
        } else {
            false
        },
        _ => false,
    }
}

/// The float that such an expression stands for: the host's float for a
/// literal; for an operator, what the host computes from the value of the left
/// operand and the value of the right one.
pub open spec fn float_value(e: Value, host: Host) -> u64
    decreases e,
{
    match e {
        Value::FLOAT(lit) => (host.literal)(lit.whole@, lit.fraction@),
        Value::FUNC_CALL(fc) => if arith_named(fc.func_name@) is Some && fc.arg_list@.len() == 2 {
            (host.compute)(
                arith_named(fc.func_name@).unwrap(),
                float_value(fc.arg_list@[0], host),
                float_value(fc.arg_list@[1], host),
            )
        } else {
            0
        },
        _ => 0,
    }
}

/// The number of steps that the evaluation of such an expression takes.
pub open spec fn steps_of(e: Value) -> nat
    decreases e,
{
    match e {
        Value::FUNC_CALL(fc) => if fc.arg_list@.len() == 2 {
            5 + steps_of(fc.arg_list@[0]) + steps_of(fc.arg_list@[1])
        } else {
            1
        },
        _ => 1,
    }
}

/// Whether the four operators' names have their built-ins as values, as seen
/// from the current scope.
pub open spec fn arithmetic_bound<'a>(scopes: Seq<ScopeModel<'a>>) -> bool {
    forall|name: Seq<char>| #[trigger]
        arith_named(name) matches Some(op) ==> lookup_model(scopes, name) == Some(
            builtin_value::<'a>(op),
        )
}

/// A run of `a + b` steps is a run of `a` steps and then one of `b` steps.
pub proof fn lemma_run_split<'a>(m: MachineModel<'a>, host: Host, a: nat, b: nat)
    ensures
        hosted_run(m, host, a + b) == hosted_run(hosted_run(m, host, a), host, b),
        quiet_run(m, host, a + b) == (quiet_run(m, host, a) && quiet_run(
            hosted_run(m, host, a),
            host,
            b,
        )),
    decreases a,
{
    if a > 0 {
        lemma_run_split(hosted_step(m, host), host, (a - 1) as nat, b);
        assert((a + b - 1) as nat == (a - 1) as nat + b);
    }
}

/// A run of one step is that step.
pub proof fn lemma_run_one<'a>(m: MachineModel<'a>, host: Host)
    ensures
        hosted_run(m, host, 1) == hosted_step(m, host),
        quiet_run(m, host, 1) == (step_model(m).1 is Continue || step_model(m).1 is FloatLiteral
            || step_model(m).1 is FloatOp),
{
    assert(hosted_run(hosted_step(m, host), host, 0) == hosted_step(m, host));
    assert(quiet_run(hosted_step(m, host), host, 0));
}


/// The evaluation of an expression of float literals and binary operators,
/// where the operators' names have their built-ins as values. It takes
/// `steps_of` steps, in which nothing is written and the program is neither
/// ended nor stopped. After them the expression's frame is gone, the value
/// that has come is the float of `float_value` (the left operand is evaluated
/// first), and the scopes and the frames below are as they were. What comes
/// out depends on the expression and on the host's answers alone.
pub proof fn lemma_float_tree_evaluates<'a>(m: MachineModel<'a>, e: &'a Value, host: Host)
    requires
        m.scopes.len() > 0,
        m.frames.len() > 0,
        m.value is None,
        m.frames.last() == Frame::Eval(e),
        is_float_tree(*e),
        arithmetic_bound(m.scopes),
    ensures
        hosted_run(m, host, steps_of(*e)).frames == m.frames.drop_last(),
        hosted_run(m, host, steps_of(*e)).value == Some(
            PrimitiveType::F64(float_value(*e, host)),
        ),
        hosted_run(m, host, steps_of(*e)).scopes == m.scopes,
        quiet_run(m, host, steps_of(*e)),
    decreases *e,
{
    let rest = m.frames.drop_last();
    match *e {
        Value::FLOAT(lit) => {
            lemma_run_one(m, host);
            assert(step_model(m).0.frames == rest.push(Frame::Literal(&lit)));
            assert(hosted_step(m, host).frames =~= rest);
        },
        Value::FUNC_CALL(fc) => {
            let op = arith_named(fc.func_name@).unwrap();
            assert(arith_named(fc.func_name@) == Some(op));
            assert(lookup_model(m.scopes, fc.func_name@) == Some(builtin_value::<'a>(op)));
            assert(op != NativeOp::Print);
            let a0 = &fc.arg_list@[0];
            let a1 = &fc.arg_list@[1];
            let s0 = steps_of(*a0);
            let s1 = steps_of(*a1);
            let x = float_value(*a0, host);
            let y = float_value(*a1, host);
            let waiting = Frame::Apply { op, call: &fc, index: 0, first: PrimitiveType::VOID };
            let halfway = Frame::Apply { op, call: &fc, index: 1, first: PrimitiveType::F64(x) };

            let m1 = hosted_step(m, host);
            assert(step_model(m).1 is Continue);
            assert(m1.frames == rest.push(waiting));
            assert(m1.value is None && m1.scopes == m.scopes);

            let m2 = hosted_step(m1, host);
            assert(step_model(m1).1 is Continue);
            assert(m2.frames == rest.push(waiting).push(Frame::Eval(a0)));
            assert(m2.value is None && m2.scopes == m.scopes);

            lemma_float_tree_evaluates(m2, a0, host);
            let m3 = hosted_run(m2, host, s0);
            assert(m3.frames =~= rest.push(waiting));
            assert(m3.value == Some(PrimitiveType::F64(x)));

            let m4 = hosted_step(m3, host);
            assert(step_model(m3).1 is Continue);
            assert(m4.frames =~= rest.push(halfway));
            assert(m4.value is None && m4.scopes == m.scopes);

            let m5 = hosted_step(m4, host);
            assert(step_model(m4).1 is Continue);
            assert(m5.frames == rest.push(halfway).push(Frame::Eval(a1)));
            assert(m5.value is None && m5.scopes == m.scopes);

            lemma_float_tree_evaluates(m5, a1, host);
            let m6 = hosted_run(m5, host, s1);
            assert(m6.frames =~= rest.push(halfway));
            assert(m6.value == Some(PrimitiveType::F64(y)));

            let m7 = hosted_step(m6, host);
            assert(step_model(m6).1 == Action::FloatOp(op, x, y));
            assert(step_model(m6).0.frames =~= rest.push(Frame::Arith(op, x, y)));
            assert(m7.frames =~= rest);
            assert(m7.value == Some(PrimitiveType::F64((host.compute)(op, x, y))));
            assert(m7.scopes == m.scopes);

            lemma_run_one(m, host);
            lemma_run_one(m1, host);
            lemma_run_one(m3, host);
            lemma_run_one(m4, host);
            lemma_run_one(m6, host);
            lemma_run_split(m, host, 1, 4 + s0 + s1);
            lemma_run_split(m1, host, 1, 3 + s0 + s1);
            lemma_run_split(m2, host, s0, 3 + s1);
            lemma_run_split(m3, host, 1, 2 + s1);
            lemma_run_split(m4, host, 1, 1 + s1);
            lemma_run_split(m5, host, s1, 1);
            assert(steps_of(*e) == 1 + (4 + s0 + s1));
            assert(4 + s0 + s1 == 1 + (3 + s0 + s1));
            assert(3 + s0 + s1 == s0 + (3 + s1));
            assert(3 + s1 == 1 + (2 + s1));
            assert(2 + s1 == 1 + (1 + s1));
            assert(1 + s1 == s1 + 1);
            assert(hosted_run(m, host, steps_of(*e)) == m7);
        },
        _ => {},
    }
}

/// The same expression, evaluated twice from machines with the same scopes,
/// gives the same float, whatever else the machines hold.
pub proof fn lemma_float_tree_is_deterministic<'a>(
    m: MachineModel<'a>,
    n: MachineModel<'a>,
    e: &'a Value,
    host: Host,
)
    requires
        m.scopes.len() > 0,
        m.frames.len() > 0,
        m.value is None,
        m.frames.last() == Frame::Eval(e),
        n.scopes.len() > 0,
        n.frames.len() > 0,
        n.value is None,
        n.frames.last() == Frame::Eval(e),
        is_float_tree(*e),
        arithmetic_bound(m.scopes),
        arithmetic_bound(n.scopes),
    ensures
        hosted_run(m, host, steps_of(*e)).value == hosted_run(n, host, steps_of(*e)).value,
{
    lemma_float_tree_evaluates(m, e, host);
    lemma_float_tree_evaluates(n, e, host);
}


/// The names of the built-ins differ from one another.
pub proof fn lemma_builtin_names_differ()
    ensures
        forall|a: NativeOp, b: NativeOp|
            a != b ==> #[trigger] builtin_name(a) != #[trigger] builtin_name(b),
{
    assert forall|a: NativeOp, b: NativeOp| a != b implies #[trigger] builtin_name(a)
        != #[trigger] builtin_name(b) by {
        let x = builtin_name(a);
        let y = builtin_name(b);
        assert(builtin_name(NativeOp::Print).len() == 5);
        assert(a != NativeOp::Print ==> x.len() == 1);
        assert(b != NativeOp::Print ==> y.len() == 1);
        if a != NativeOp::Print && b != NativeOp::Print {
            assert(x[0] != y[0]);
        }
    }
}

/// In the machine that `run_code` makes, the four operators' names have
/// their built-ins as values.
pub proof fn lemma_root_scope_binds_arithmetic<'a>(root: &'a Block)
    ensures
        arithmetic_bound(initial_model(root).scopes),
{
    lemma_builtin_names_differ();
    let scopes = initial_model(root).scopes;
    assert forall|name: Seq<char>| (#[trigger] arith_named(name)) is Some implies lookup_model(
        scopes,
        name,
    ) == Some(builtin_value::<'a>(arith_named(name).unwrap())) by {
        let op = arith_named(name).unwrap();
        assert(name == builtin_name(op));
        assert(scopes[0].local.contains_key(name));
    }
}

} // verus!
