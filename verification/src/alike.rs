use crate::ast::{
    blocks_model, statements_model, values_model, Block, Statement, StatementModel, Value,
};
use crate::grammar::{spec_program_outcome, ParseErrorKind};
use crate::layout::{lemma_program_layout, same_tokens};
use crate::runtime::{
    initial_model, lookup_from, lookup_model, resume_model, step_model, Action, Frame,
    MachineModel, RuntimeError,
};
use crate::scope::{PrimitiveType, ScopeModel};
use vstd::prelude::*;

verus! {

/// Whether two values are the same but for where their functions are held:
/// functions are alike if their declarations have the same model.
pub open spec fn values_alike(x: PrimitiveType, y: PrimitiveType) -> bool {
    match (x, y) {
        (PrimitiveType::FUNCTION(d), PrimitiveType::FUNCTION(e)) => d@ == e@,
        (PrimitiveType::F64(a), PrimitiveType::F64(b)) => a == b,
        (PrimitiveType::I32(a), PrimitiveType::I32(b)) => a == b,
        (PrimitiveType::BUILTIN(a), PrimitiveType::BUILTIN(b)) => a == b,
        (PrimitiveType::VOID, PrimitiveType::VOID) => true,
        _ => false,
    }
}

/// Whether a value has come in both machines or in neither, and the two are alike.
pub open spec fn options_alike(x: Option<PrimitiveType>, y: Option<PrimitiveType>) -> bool {
    match (x, y) {
        (Some(a), Some(b)) => values_alike(a, b),
        (None, None) => true,
        _ => false,
    }
}

/// Whether two frames are the same work on parts of programs with the same model.
pub open spec fn frames_alike(f: Frame, g: Frame) -> bool {
    match (f, g) {
        (
            Frame::Run { block: b1, next: n1, kind: k1 },
            Frame::Run { block: b2, next: n2, kind: k2 },
        ) => b1@ == b2@ && n1 == n2 && k1 == k2,
        (Frame::Eval(e1), Frame::Eval(e2)) => e1@ == e2@,
        (
            Frame::Apply { op: o1, call: c1, index: i1, first: f1 },
            Frame::Apply { op: o2, call: c2, index: i2, first: f2 },
        ) => o1 == o2 && c1@ == c2@ && i1 == i2 && values_alike(f1, f2),
        (Frame::Bind(a), Frame::Bind(b)) => a@ == b@,
        (Frame::Discard, Frame::Discard) => true,
        (Frame::Leave, Frame::Leave) => true,
        (Frame::Choose { stmt: s1, index: i1 }, Frame::Choose { stmt: s2, index: i2 }) => s1@
            == s2@ && i1 == i2,
        (Frame::Repeat(w1), Frame::Repeat(w2)) => w1@ == w2@,
        (Frame::Literal(l1), Frame::Literal(l2)) => l1@ == l2@,
        (Frame::Arith(o1, a1, b1), Frame::Arith(o2, a2, b2)) => o1 == o2 && a1 == a2 && b1
            == b2,
        _ => false,
    }
}

/// Whether two scopes have the same parent and bind the same names to values
/// that are alike.
pub open spec fn scopes_alike(s: ScopeModel, t: ScopeModel) -> bool {
    &&& s.parent == t.parent
    &&& forall|name: Seq<char>| s.local.contains_key(name) == #[trigger] t.local.contains_key(name)
    &&& forall|name: Seq<char>|
        s.local.contains_key(name) ==> values_alike(s.local[name], #[trigger] t.local[name])
}

/// Whether two machines are in the same state of programs with the same model.
pub open spec fn machines_alike<'a, 'b>(m: MachineModel<'a>, n: MachineModel<'b>) -> bool {
    &&& m.scopes.len() == n.scopes.len()
    &&& forall|i: int|
        0 <= i < m.scopes.len() ==> scopes_alike(#[trigger] m.scopes[i], n.scopes[i])
    &&& m.frames.len() == n.frames.len()
    &&& forall|i: int|
        0 <= i < m.frames.len() ==> frames_alike(#[trigger] m.frames[i], n.frames[i])
    &&& options_alike(m.value, n.value)
}

/// Whether two errors are the same, about names with the same text.
pub open spec fn errors_alike(e: RuntimeError, f: RuntimeError) -> bool {
    match (e, f) {
        (RuntimeError::UndefinedName(a), RuntimeError::UndefinedName(b)) => a@ == b@,
        (RuntimeError::NotCallable(a), RuntimeError::NotCallable(b)) => a@ == b@,
        (RuntimeError::MissingOperand(a), RuntimeError::MissingOperand(b)) => a == b,
        (RuntimeError::OperandMismatch(a), RuntimeError::OperandMismatch(b)) => a == b,
        (RuntimeError::Overflow(a), RuntimeError::Overflow(b)) => a == b,
        (RuntimeError::DivisionByZero, RuntimeError::DivisionByZero) => true,
        (RuntimeError::NotPrintable, RuntimeError::NotPrintable) => true,
        (RuntimeError::MalformedIf, RuntimeError::MalformedIf) => true,
        (RuntimeError::Corrupt, RuntimeError::Corrupt) => true,
        _ => false,
    }
}

/// Whether two machines ask the same of the host.
pub open spec fn actions_alike(a: Action, b: Action) -> bool {
    match (a, b) {
        (Action::Continue, Action::Continue) => true,
        (Action::FloatLiteral(l1), Action::FloatLiteral(l2)) => l1@ == l2@,
        (Action::FloatOp(o1, a1, b1), Action::FloatOp(o2, a2, b2)) => o1 == o2 && a1 == a2
            && b1 == b2,
        (Action::Print(v1, m1), Action::Print(v2, m2)) => values_alike(v1, v2) && m1 == m2,
        (Action::PrintEnd, Action::PrintEnd) => true,
        (Action::Finished(v1), Action::Finished(v2)) => values_alike(v1, v2),
        (Action::Fatal(e1), Action::Fatal(e2)) => errors_alike(e1, e2),
        _ => false,
    }
}

/// Scopes that are alike give alike values to every name.
pub proof fn lemma_lookup_alike<'a, 'b>(
    s: Seq<ScopeModel<'a>>,
    t: Seq<ScopeModel<'b>>,
    handle: int,
    name: Seq<char>,
)
    requires
        s.len() == t.len(),
        forall|i: int| 0 <= i < s.len() ==> scopes_alike(#[trigger] s[i], t[i]),
    ensures
        options_alike(lookup_from(s, handle, name), lookup_from(t, handle, name)),
    decreases handle,
{
    if 0 <= handle < s.len() {
        assert(scopes_alike(s[handle], t[handle]));
        assert(s[handle].local.contains_key(name) == t[handle].local.contains_key(name));
        if !s[handle].local.contains_key(name) {
            match s[handle].parent {
                Some(p) => {
                    if p < handle {
                        lemma_lookup_alike(s, t, p as int, name);
                    }
                },
                None => {},
            }
        } else {
            assert(values_alike(s[handle].local[name], t[handle].local[name]));
        }
    }
}

/// The machines that `run_code` makes of two programs with the same model
/// are alike.
pub proof fn lemma_initial_machines_alike<'a, 'b>(p: &'a Block, q: &'b Block)
    requires
        p@ == q@,
    ensures
        machines_alike(initial_model(p), initial_model(q)),
{
}

/// An answer of the host keeps two machines alike.
pub proof fn lemma_resume_alike<'a, 'b>(m: MachineModel<'a>, n: MachineModel<'b>, bits: u64)
    requires
        machines_alike(m, n),
    ensures
        machines_alike(resume_model(m, bits), resume_model(n, bits)),
{
    if m.frames.len() > 0 {
        assert(frames_alike(m.frames[m.frames.len() - 1], n.frames[n.frames.len() - 1]));
    }
    let m2 = resume_model(m, bits);
    let n2 = resume_model(n, bits);
    assert forall|i: int| 0 <= i < m2.frames.len() implies frames_alike(
        #[trigger] m2.frames[i],
        n2.frames[i],
    ) by {
        assert(frames_alike(m.frames[i], n.frames[i]));
    }
}


/// What a machine does depends on the model of its program alone. Two
/// machines that are alike take steps that are alike: they ask the same of
/// the host and are alike again afterwards. So two texts that are read as the
/// same program run alike, whatever whitespace stands between their tokens.
pub proof fn lemma_step_alike<'a, 'b>(m: MachineModel<'a>, n: MachineModel<'b>)
    requires
        machines_alike(m, n),
    ensures
        machines_alike(step_model(m).0, step_model(n).0),
        actions_alike(step_model(m).1, step_model(n).1),
{
    if m.scopes.len() > 0 && m.frames.len() > 0 {
        let last = m.frames.len() - 1;
        let top = m.scopes.len() - 1;
        assert(frames_alike(m.frames[last], n.frames[last]));
        assert(scopes_alike(m.scopes[top], n.scopes[top]));
        if last > 0 {
            assert(frames_alike(m.frames[last - 1], n.frames[last - 1]));
        }
        match (m.frames[last], n.frames[last]) {
            (Frame::Run { block: b1, next, .. }, Frame::Run { block: b2, .. }) => {
                assert(statements_model(b1.0@).len() == statements_model(b2.0@).len());
                if next < b1.0@.len() {
                    assert(statements_model(b1.0@)[next as int] == statements_model(
                        b2.0@,
                    )[next as int]);
                    match (b1.0@[next as int], b2.0@[next as int]) {
                        (Statement::IF(x1), Statement::IF(x2)) => {
                            assert(values_model(x1.cond@).len() == values_model(x2.cond@).len());
                            if x1.cond@.len() > 0 {
                                assert(values_model(x1.cond@)[0] == values_model(x2.cond@)[0]);
                            }
                        },
                        _ => {},
                    }
                }
            },
            (Frame::Eval(e1), Frame::Eval(e2)) => {
                match (*e1, *e2) {
                    (Value::VAR(a), Value::VAR(b)) => {
                        lemma_lookup_alike(m.scopes, n.scopes, top, a@);
                    },
                    (Value::FUNC_CALL(f1), Value::FUNC_CALL(f2)) => {
                        lemma_lookup_alike(m.scopes, n.scopes, top, f1.func_name@);
                    },
                    _ => {},
                }
            },
            (Frame::Apply { call: c1, index, .. }, Frame::Apply { call: c2, .. }) => {
                assert(values_model(c1.arg_list@).len() == values_model(c2.arg_list@).len());
                if index < c1.arg_list@.len() {
                    assert(values_model(c1.arg_list@)[index as int] == values_model(
                        c2.arg_list@,
                    )[index as int]);
                }
            },
            (Frame::Choose { stmt: s1, index, .. }, Frame::Choose { stmt: s2, .. }) => {
                assert(values_model(s1.cond@).len() == values_model(s2.cond@).len());
                assert(blocks_model(s1.branches@).len() == blocks_model(s2.branches@).len());
                if index < s1.branches@.len() {
                    assert(blocks_model(s1.branches@)[index as int] == blocks_model(
                        s2.branches@,
                    )[index as int]);
                }
                if index + 1 < s1.cond@.len() {
                    assert(values_model(s1.cond@)[index + 1] == values_model(s2.cond@)[index
                        + 1]);
                }
            },
            _ => {},
        }
        let m2 = step_model(m).0;
        let n2 = step_model(n).0;
        assert(m2.frames.len() == n2.frames.len());
        assert forall|i: int| 0 <= i < m2.frames.len() implies frames_alike(
            #[trigger] m2.frames[i],
            n2.frames[i],
        ) by {
            if i < last {
                assert(frames_alike(m.frames[i], n.frames[i]));
            }
        }
        assert(m2.scopes.len() == n2.scopes.len());
        assert forall|i: int| 0 <= i < m2.scopes.len() implies scopes_alike(
            #[trigger] m2.scopes[i],
            n2.scopes[i],
        ) by {
            if i < m.scopes.len() {
                assert(scopes_alike(m.scopes[i], n.scopes[i]));
            }
        }
    }
}


/// Two texts that hold the same tokens and are accepted start machines that
/// are alike: with `lemma_step_alike` and `lemma_resume_alike`, their runs ask
/// the same of the host step by step.
pub proof fn lemma_same_tokens_start_alike<'a, 'b>(
    a: Seq<u8>,
    b: Seq<u8>,
    p: &'a Block,
    q: &'b Block,
)
    requires
        same_tokens(a, 0, b, 0),
        spec_program_outcome(a, 0) == Ok::<Seq<StatementModel>, (ParseErrorKind, int)>(p@),
        spec_program_outcome(b, 0) == Ok::<Seq<StatementModel>, (ParseErrorKind, int)>(q@),
    ensures
        machines_alike(initial_model(p), initial_model(q)),
{
    lemma_program_layout(a, 0, b, 0);
    lemma_initial_machines_alike(p, q);
}

} // verus!
