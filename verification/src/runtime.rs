use crate::ast::{tidy_blocks, tidy_statement, Block, FuncCall, If, Statement, Value, While};
use crate::lexer::{operator_identifier, operator_name, FloatLiteral, Identifier, Operator};
use crate::scope::ScopeModel;
pub use crate::scope::{BuiltInFunc, NativeOp, PrimitiveType, Scope};
use vstd::prelude::*;

verus! {

/// Why a running program is stopped.
#[derive(PartialEq, Clone, Copy, Debug)]
pub enum RuntimeError<'a> {
    /// No scope of the chain binds the name.
    UndefinedName(&'a Identifier),
    /// The callee is neither a function nor a built-in.
    NotCallable(&'a Identifier),
    /// An arithmetic built-in is called with fewer than two arguments.
    MissingOperand(NativeOp),
    /// The operands of an arithmetic built-in are not two integers or two floats.
    OperandMismatch(NativeOp),
    /// The integer result does not fit in 32 bits.
    Overflow(NativeOp),
    /// An integer is divided by zero.
    DivisionByZero,
    /// A function or a built-in is handed to `print`.
    NotPrintable,
    /// A condition of an `if` has no branch.
    MalformedIf,
    /// The machine is in a state that no program leads to.
    Corrupt,
}

/// Who has started a block, and in which scope it runs. Every block ends with
/// a value: that of the `return` that ends it, or void at its last statement.
#[derive(PartialEq, Eq, Structural, Clone, Copy, Debug)]
pub enum RunKind {
    /// Started by the host in the current scope: its value is handed to the
    /// host.
    Root,
    /// Started by the host in a scope of its own, which is closed at its end:
    /// its value is handed to the host.
    Scoped,
    /// A function's body: it has a scope of its own, which is closed at its
    /// end, and its value is the value of the call.
    Call,
    /// The body of an `if` or a `while`: it runs in the scope around it; its
    /// value goes to the frame below, which drops it.
    Branch,
}

/// Whether a block of this kind runs in a scope of its own.
pub open spec fn has_own_scope(kind: RunKind) -> bool {
    kind == RunKind::Scoped || kind == RunKind::Call
}

/// Whether the value of a block of this kind is handed to the host.
pub open spec fn is_for_host(kind: RunKind) -> bool {
    kind == RunKind::Root || kind == RunKind::Scoped
}

/// One unit of pending work. The last frame of the machine is the one at work.
#[derive(Clone, Copy, Debug)]
pub enum Frame<'a> {
    /// Run `block` from statement `next` on.
    Run { block: &'a Block, next: usize, kind: RunKind },
    /// Evaluate an expression.
    Eval(&'a Value),
    /// Call a built-in: argument `index` is the next to evaluate; `first` is
    /// the first operand of an arithmetic built-in once it is known.
    Apply { op: NativeOp, call: &'a FuncCall, index: usize, first: PrimitiveType<'a> },
    /// Bind the coming value to a name in the current scope.
    Bind(&'a Identifier),
    /// Drop the coming value.
    Discard,
    /// End the block below with the coming value.
    Leave,
    /// Decide by the coming value whether branch `index` of `stmt` runs.
    Choose { stmt: &'a If, index: usize },
    /// Decide by the coming value whether the loop runs once more.
    Repeat(&'a While),
    /// Wait for the host to turn a literal into a float.
    Literal(&'a FloatLiteral),
    /// Wait for the host to compute on two floats.
    Arith(NativeOp, u64, u64),
}

/// What the host has to do after a step.
#[derive(PartialEq, Clone, Copy, Debug)]
pub enum Action<'a> {
    /// Nothing: step again.
    Continue,
    /// Turn the literal into a float and hand its bits to `resume`.
    FloatLiteral(&'a FloatLiteral),
    /// Apply the operation to the two floats and hand the result's bits to `resume`.
    FloatOp(NativeOp, u64, u64),
    /// Write the value; if the flag is set, another argument follows: write
    /// one space after it.
    Print(PrimitiveType<'a>, bool),
    /// Write the end of the line.
    PrintEnd,
    /// A block that the host has started has ended with this value; or no
    /// work is left, and this is the value of the last block.
    Finished(PrimitiveType<'a>),
    /// The program is stopped.
    Fatal(RuntimeError<'a>),
}

/// What an arithmetic built-in makes of two operands.
#[derive(PartialEq, Clone, Copy, Debug)]
pub enum Outcome<'a> {
    /// The result.
    Value(PrimitiveType<'a>),
    /// The host has to compute on two floats.
    Float(NativeOp, u64, u64),
    /// The program is stopped.
    Fatal(RuntimeError<'a>),
}

/// The evaluator's state: the scopes, the pending work, and the value that
/// the last finished piece of work has produced for the frame now on top.
///
/// The last scope is the current one.
#[derive(Debug)]
pub struct Machine<'a> {
    pub scopes: Vec<Scope<'a>>,
    pub frames: Vec<Frame<'a>>,
    pub value: Option<PrimitiveType<'a>>,
}

/// What a machine is, in mathematical terms.
pub struct MachineModel<'a> {
    pub scopes: Seq<ScopeModel<'a>>,
    pub frames: Seq<Frame<'a>>,
    pub value: Option<PrimitiveType<'a>>,
}

impl<'a> View for Machine<'a> {
    type V = MachineModel<'a>;

    open spec fn view(&self) -> MachineModel<'a> {
        MachineModel {
            scopes: self.scopes@.map_values(|s: Scope<'a>| s@),
            frames: self.frames@,
            value: self.value,
        }
    }
}

/// Void, integer zero and float zero (of either sign) count as false;
/// every other value counts as true.
pub open spec fn truthy(v: PrimitiveType) -> bool {
    match v {
        PrimitiveType::VOID => false,
        PrimitiveType::I32(i) => i != 0,
        PrimitiveType::F64(bits) => bits != 0 && bits != 0x8000_0000_0000_0000u64,
        _ => true,
    }
}

/// Whether a value counts as true.
pub fn to_boolean(v: &PrimitiveType) -> (r: bool)
    ensures
        r == truthy(*v),
{
    match v {
        PrimitiveType::VOID => false,
        PrimitiveType::I32(i) => *i != 0,
        PrimitiveType::F64(bits) => *bits != 0 && *bits != 0x8000_0000_0000_0000u64,
        _ => true,
    }
}

/// The value of `name` as seen from the scope `handle`: the innermost binding
/// on the chain of parents.
pub open spec fn lookup_from<'a>(scopes: Seq<ScopeModel<'a>>, handle: int, name: Seq<char>) -> Option<
    PrimitiveType<'a>,
>
    decreases handle,
{
    if handle < 0 || handle >= scopes.len() {
        None
    } else if scopes[handle].local.contains_key(name) {
        Some(scopes[handle].local[name])
    } else {
        match scopes[handle].parent {
            Some(p) => if p < handle {
                lookup_from(scopes, p as int, name)
            } else {
                None
            },
            None => None,
        }
    }
}

/// The value of `name` as seen from the current scope.
pub open spec fn lookup_model<'a>(scopes: Seq<ScopeModel<'a>>, name: Seq<char>) -> Option<
    PrimitiveType<'a>,
> {
    lookup_from(scopes, scopes.len() - 1, name)
}

/// The scopes after `name` is bound to `v` in the current scope.
pub open spec fn bind_model<'a>(scopes: Seq<ScopeModel<'a>>, name: Seq<char>, v: PrimitiveType<'a>) -> Seq<
    ScopeModel<'a>,
> {
    scopes.update(
        scopes.len() - 1,
        ScopeModel { parent: scopes.last().parent, local: scopes.last().local.insert(name, v) },
    )
}

/// The scopes after a scope is opened whose parent is the current scope.
pub open spec fn open_scope_model<'a>(scopes: Seq<ScopeModel<'a>>) -> Seq<ScopeModel<'a>> {
    scopes.push(
        ScopeModel {
            parent: if scopes.len() > 0 {
                Some((scopes.len() - 1) as usize)
            } else {
                None
            },
            local: Map::empty(),
        },
    )
}

/// The quotient of two integers, rounded toward zero.
pub open spec fn truncated_quotient(a: int, b: int) -> int {
    let q = (if a < 0 {
        -a
    } else {
        a
    }) / (if b < 0 {
        -b
    } else {
        b
    });
    if (a < 0) != (b < 0) {
        -q
    } else {
        q
    }
}

/// The exact result of an arithmetic built-in on two integers.
pub open spec fn exact_result(op: NativeOp, a: int, b: int) -> int {
    match op {
        NativeOp::Add => a + b,
        NativeOp::Sub => a - b,
        NativeOp::Mul => a * b,
        _ => truncated_quotient(a, b),
    }
}

/// What an arithmetic built-in makes of two integers: the exact result where
/// it fits in 32 bits.
pub open spec fn integer_model<'a>(op: NativeOp, a: i32, b: i32) -> Outcome<'a> {
    if op == NativeOp::Print {
        Outcome::Fatal(RuntimeError::Corrupt)
    } else if op == NativeOp::Div && b == 0 {
        Outcome::Fatal(RuntimeError::DivisionByZero)
    } else if i32::MIN <= exact_result(op, a as int, b as int) <= i32::MAX {
        Outcome::Value(PrimitiveType::I32(exact_result(op, a as int, b as int) as i32))
    } else {
        Outcome::Fatal(RuntimeError::Overflow(op))
    }
}

/// What an arithmetic built-in makes of two operands: both integers or both
/// floats, or the program is stopped.
pub open spec fn arithmetic_model<'a>(op: NativeOp, a: PrimitiveType<'a>, b: PrimitiveType<'a>) -> Outcome<
    'a,
> {
    match (a, b) {
        (PrimitiveType::I32(x), PrimitiveType::I32(y)) => integer_model(op, x, y),
        (PrimitiveType::F64(x), PrimitiveType::F64(y)) => if op == NativeOp::Print {
            Outcome::Fatal(RuntimeError::Corrupt)
        } else {
            Outcome::Float(op, x, y)
        },
        _ => Outcome::Fatal(RuntimeError::OperandMismatch(op)),
    }
}

/// An arithmetic built-in on two integers.
fn integer_arithmetic<'a>(op: NativeOp, a: i32, b: i32) -> (r: Outcome<'a>)
    ensures
        r == integer_model::<'a>(op, a, b),
{
    let exact: Option<i32> = match op {
        NativeOp::Add => a.checked_add(b),
        NativeOp::Sub => a.checked_sub(b),
        NativeOp::Mul => a.checked_mul(b),
        NativeOp::Div => {
            if b == 0 {
                return Outcome::Fatal(RuntimeError::DivisionByZero);
            }
            let wide_a: i64 = a as i64;
            let wide_b: i64 = b as i64;
            let size_a: u64 = if wide_a < 0 {
                (-wide_a) as u64
            } else {
                wide_a as u64
            };
            let size_b: u64 = if wide_b < 0 {
                (-wide_b) as u64
            } else {
                wide_b as u64
            };
            let q: u64 = size_a / size_b;
            if (a < 0) != (b < 0) {
                if q <= 2147483648 {
                    Some((-(q as i64)) as i32)
                } else {
                    None
                }
            } else {
                if q <= 2147483647 {
                    Some(q as i32)
                } else {
                    None
                }
            }
        },
        NativeOp::Print => {
            return Outcome::Fatal(RuntimeError::Corrupt);
        },
    };
    match exact {
        Some(r) => Outcome::Value(PrimitiveType::I32(r)),
        None => Outcome::Fatal(RuntimeError::Overflow(op)),
    }
}

/// An arithmetic built-in on two operands.
fn arithmetic<'a>(op: NativeOp, o1: PrimitiveType<'a>, o2: PrimitiveType<'a>) -> (r: Outcome<'a>)
    ensures
        r == arithmetic_model(op, o1, o2),
{
    if let PrimitiveType::F64(f1) = o1 {
        if let PrimitiveType::F64(f2) = o2 {
            return match op {
                NativeOp::Print => Outcome::Fatal(RuntimeError::Corrupt),
                _ => Outcome::Float(op, f1, f2),
            };
        }
    }
    if let PrimitiveType::I32(i1) = o1 {
        if let PrimitiveType::I32(i2) = o2 {
            return integer_arithmetic(op, i1, i2);
        }
    }
    Outcome::Fatal(RuntimeError::OperandMismatch(op))
}

/// The built-in `+` on two operands.
pub fn add_builtin<'a>(o1: PrimitiveType<'a>, o2: PrimitiveType<'a>) -> (r: Outcome<'a>)
    ensures
        r == arithmetic_model(NativeOp::Add, o1, o2),
{
    arithmetic(NativeOp::Add, o1, o2)
}

/// The built-in `-` on two operands.
pub fn sub_builtin<'a>(o1: PrimitiveType<'a>, o2: PrimitiveType<'a>) -> (r: Outcome<'a>)
    ensures
        r == arithmetic_model(NativeOp::Sub, o1, o2),
{
    arithmetic(NativeOp::Sub, o1, o2)
}

/// The built-in `*` on two operands.
pub fn multi_builtin<'a>(o1: PrimitiveType<'a>, o2: PrimitiveType<'a>) -> (r: Outcome<'a>)
    ensures
        r == arithmetic_model(NativeOp::Mul, o1, o2),
{
    arithmetic(NativeOp::Mul, o1, o2)
}

/// The built-in `/` on two operands.
pub fn div_builtin<'a>(o1: PrimitiveType<'a>, o2: PrimitiveType<'a>) -> (r: Outcome<'a>)
    ensures
        r == arithmetic_model(NativeOp::Div, o1, o2),
{
    arithmetic(NativeOp::Div, o1, o2)
}

/// The name under which a built-in is bound in the root scope.
pub open spec fn builtin_name(op: NativeOp) -> Seq<char> {
    match op {
        NativeOp::Add => operator_name(Operator::Plus),
        NativeOp::Sub => operator_name(Operator::Minus),
        NativeOp::Mul => operator_name(Operator::Star),
        NativeOp::Div => operator_name(Operator::Slash),
        NativeOp::Print => seq!['p', 'r', 'i', 'n', 't'],
    }
}

/// The value of a built-in.
pub open spec fn builtin_value<'a>(op: NativeOp) -> PrimitiveType<'a> {
    PrimitiveType::BUILTIN(BuiltInFunc { execute: op })
}

/// The bindings of the root scope: each built-in under its name.
pub open spec fn builtins_model<'a>() -> Map<Seq<char>, PrimitiveType<'a>> {
    Map::<Seq<char>, PrimitiveType<'a>>::empty().insert(
        builtin_name(NativeOp::Sub),
        builtin_value(NativeOp::Sub),
    ).insert(builtin_name(NativeOp::Add), builtin_value(NativeOp::Add)).insert(
        builtin_name(NativeOp::Mul),
        builtin_value(NativeOp::Mul),
    ).insert(builtin_name(NativeOp::Div), builtin_value(NativeOp::Div)).insert(
        builtin_name(NativeOp::Print),
        builtin_value(NativeOp::Print),
    )
}

/// The machine that is about to run `root`: one scope, which holds the
/// built-ins, and the program as the only pending work.
pub open spec fn initial_model<'a>(root: &'a Block) -> MachineModel<'a> {
    MachineModel {
        scopes: seq![ScopeModel { parent: None, local: builtins_model() }],
        frames: seq![Frame::Run { block: root, next: 0, kind: RunKind::Root }],
        value: None,
    }
}

/// The machine after the block on top has ended with `v`, whatever its kind:
/// the block is gone, and its scope if it had one of its own. A block that the
/// host has started hands `v` to the host; it stays as the value that has come
/// only if no work is left. Any other block leaves `v` for the frame below.
pub open spec fn finish_block_model<'a>(m: MachineModel<'a>, v: PrimitiveType<'a>) -> (
    MachineModel<'a>,
    Action<'a>,
) {
    if m.frames.len() == 0 {
        (m, Action::Fatal(RuntimeError::Corrupt))
    } else {
        match m.frames.last() {
            Frame::Run { kind, .. } => {
                let rest = m.frames.drop_last();
                let scopes = if has_own_scope(kind) && m.scopes.len() > 1 {
                    m.scopes.drop_last()
                } else {
                    m.scopes
                };
                if is_for_host(kind) {
                    (
                        MachineModel {
                            scopes,
                            frames: rest,
                            value: if rest.len() == 0 {
                                Some(v)
                            } else {
                                None
                            },
                        },
                        Action::Finished(v),
                    )
                } else {
                    (MachineModel { scopes, frames: rest, value: Some(v) }, Action::Continue)
                }
            },
            _ => (m, Action::Fatal(RuntimeError::Corrupt)),
        }
    }
}

/// One step of the block on top, which stands before statement `next`.
pub open spec fn run_model<'a>(m: MachineModel<'a>, block: &'a Block, next: usize, kind: RunKind) -> (
    MachineModel<'a>,
    Action<'a>,
) {
    if next >= block.0@.len() {
        finish_block_model(m, PrimitiveType::VOID)
    } else {
        let onward = m.frames.drop_last().push(
            Frame::Run { block, next: (next + 1) as usize, kind },
        );
        match block.0@[next as int] {
            Statement::ASSIGNMENT(a) => (
                MachineModel {
                    scopes: m.scopes,
                    frames: onward.push(Frame::Bind(&a.id)).push(Frame::Eval(&a.val)),
                    value: None,
                },
                Action::Continue,
            ),
            Statement::RETURN(r) => (
                MachineModel {
                    scopes: m.scopes,
                    frames: onward.push(Frame::Leave).push(Frame::Eval(&r.0)),
                    value: None,
                },
                Action::Continue,
            ),
            Statement::EXPRESSION(e) => (
                MachineModel {
                    scopes: m.scopes,
                    frames: onward.push(Frame::Discard).push(Frame::Eval(&e)),
                    value: None,
                },
                Action::Continue,
            ),
            Statement::FUNC_DECL(d) => (
                MachineModel {
                    scopes: bind_model(m.scopes, d.func_name@, PrimitiveType::FUNCTION(&d)),
                    frames: onward,
                    value: None,
                },
                Action::Continue,
            ),
            Statement::IF(x) => (
                MachineModel {
                    scopes: m.scopes,
                    frames: if x.cond@.len() == 0 {
                        onward
                    } else {
                        onward.push(Frame::Choose { stmt: &x, index: 0 }).push(
                            Frame::Eval(&x.cond@[0]),
                        )
                    },
                    value: None,
                },
                Action::Continue,
            ),
            Statement::WHILE(w) => (
                MachineModel {
                    scopes: m.scopes,
                    frames: onward.push(Frame::Repeat(&w)).push(Frame::Eval(&w.cond)),
                    value: None,
                },
                Action::Continue,
            ),
            Statement::NOTHING => (
                MachineModel { scopes: m.scopes, frames: onward, value: None },
                Action::Continue,
            ),
        }
    }
}

/// One step of the expression on top.
///
/// A variable is looked up along the chain of scopes. A call of a function
/// opens a scope whose parent is the current scope, the one of the call, and
/// runs the body there; the arguments are not evaluated. A call of a built-in
/// evaluates its arguments in the current scope.
pub open spec fn eval_model<'a>(m: MachineModel<'a>, e: &'a Value) -> (MachineModel<'a>, Action<'a>) {
    let rest = m.frames.drop_last();
    match *e {
        Value::VAR(id) => match lookup_model(m.scopes, id@) {
            Some(v) => (
                MachineModel { scopes: m.scopes, frames: rest, value: Some(v) },
                Action::Continue,
            ),
            None => (m, Action::Fatal(RuntimeError::UndefinedName(&id))),
        },
        Value::INT(i) => (
            MachineModel { scopes: m.scopes, frames: rest, value: Some(PrimitiveType::I32(i)) },
            Action::Continue,
        ),
        Value::BOOL(b) => (
            MachineModel {
                scopes: m.scopes,
                frames: rest,
                value: Some(
                    PrimitiveType::I32(
                        if b {
                            1
                        } else {
                            0
                        },
                    ),
                ),
            },
            Action::Continue,
        ),
        Value::FLOAT(lit) => (
            MachineModel {
                scopes: m.scopes,
                frames: rest.push(Frame::Literal(&lit)),
                value: None,
            },
            Action::FloatLiteral(&lit),
        ),
        Value::FUNC_CALL(fc) => match lookup_model(m.scopes, fc.func_name@) {
            None => (m, Action::Fatal(RuntimeError::UndefinedName(&fc.func_name))),
            Some(PrimitiveType::FUNCTION(d)) => (
                MachineModel {
                    scopes: open_scope_model(m.scopes),
                    frames: rest.push(Frame::Run { block: &d.body, next: 0, kind: RunKind::Call }),
                    value: None,
                },
                Action::Continue,
            ),
            Some(PrimitiveType::BUILTIN(b)) => (
                MachineModel {
                    scopes: m.scopes,
                    frames: rest.push(
                        Frame::Apply {
                            op: b.execute,
                            call: &fc,
                            index: 0,
                            first: PrimitiveType::VOID,
                        },
                    ),
                    value: None,
                },
                Action::Continue,
            ),
            Some(_) => (m, Action::Fatal(RuntimeError::NotCallable(&fc.func_name))),
        },
    }
}

/// One step of the built-in call on top when no value has come: the next
/// argument is evaluated; `print` with no argument left ends its line.
pub open spec fn apply_start_model<'a>(
    m: MachineModel<'a>,
    op: NativeOp,
    call: &'a FuncCall,
    index: usize,
) -> (MachineModel<'a>, Action<'a>) {
    if index < call.arg_list@.len() && (op == NativeOp::Print || index < 2) {
        (
            MachineModel {
                scopes: m.scopes,
                frames: m.frames.push(Frame::Eval(&call.arg_list@[index as int])),
                value: None,
            },
            Action::Continue,
        )
    } else if op == NativeOp::Print {
        (
            MachineModel {
                scopes: m.scopes,
                frames: m.frames.drop_last(),
                value: Some(PrimitiveType::VOID),
            },
            Action::PrintEnd,
        )
    } else if index < 2 {
        (m, Action::Fatal(RuntimeError::MissingOperand(op)))
    } else {
        (m, Action::Fatal(RuntimeError::Corrupt))
    }
}

/// One step of the built-in call on top when the value `v` of argument
/// `index` has come.
pub open spec fn apply_value_model<'a>(
    m: MachineModel<'a>,
    op: NativeOp,
    call: &'a FuncCall,
    index: usize,
    first: PrimitiveType<'a>,
    v: PrimitiveType<'a>,
) -> (MachineModel<'a>, Action<'a>) {
    let rest = m.frames.drop_last();
    if index >= call.arg_list@.len() {
        (m, Action::Fatal(RuntimeError::Corrupt))
    } else if op == NativeOp::Print {
        if v is FUNCTION || v is BUILTIN {
            (m, Action::Fatal(RuntimeError::NotPrintable))
        } else {
            (
                MachineModel {
                    scopes: m.scopes,
                    frames: rest.push(
                        Frame::Apply { op, call, index: (index + 1) as usize, first },
                    ),
                    value: None,
                },
                Action::Print(v, index + 1 < call.arg_list@.len()),
            )
        }
    } else if index == 0 {
        (
            MachineModel {
                scopes: m.scopes,
                frames: rest.push(Frame::Apply { op, call, index: 1, first: v }),
                value: None,
            },
            Action::Continue,
        )
    } else {
        match arithmetic_model(op, first, v) {
            Outcome::Value(r) => (
                MachineModel { scopes: m.scopes, frames: rest, value: Some(r) },
                Action::Continue,
            ),
            Outcome::Float(o, a, b) => (
                MachineModel {
                    scopes: m.scopes,
                    frames: rest.push(Frame::Arith(o, a, b)),
                    value: None,
                },
                Action::FloatOp(o, a, b),
            ),
            Outcome::Fatal(e) => (m, Action::Fatal(e)),
        }
    }
}

/// One step of an `if` when the value `v` of condition `index` has come: the
/// first condition that holds has its branch run, in the current scope, and
/// the branch's value is dropped.
pub open spec fn choose_model<'a>(m: MachineModel<'a>, stmt: &'a If, index: usize, v: PrimitiveType<'a>) -> (
    MachineModel<'a>,
    Action<'a>,
) {
    let rest = m.frames.drop_last();
    if truthy(v) {
        if index < stmt.branches@.len() {
            (
                MachineModel {
                    scopes: m.scopes,
                    frames: rest.push(Frame::Discard).push(
                        Frame::Run {
                            block: &stmt.branches@[index as int],
                            next: 0,
                            kind: RunKind::Branch,
                        },
                    ),
                    value: None,
                },
                Action::Continue,
            )
        } else {
            (m, Action::Fatal(RuntimeError::MalformedIf))
        }
    } else if index + 1 < stmt.cond@.len() {
        (
            MachineModel {
                scopes: m.scopes,
                frames: rest.push(Frame::Choose { stmt, index: (index + 1) as usize }).push(
                    Frame::Eval(&stmt.cond@[index + 1]),
                ),
                value: None,
            },
            Action::Continue,
        )
    } else {
        (MachineModel { scopes: m.scopes, frames: rest, value: None }, Action::Continue)
    }
}

/// One step of a `while` when the value `v` of its condition has come: if it
/// holds, the body runs in the current scope, its value is dropped, and the
/// condition is evaluated again after it.
pub open spec fn repeat_model<'a>(m: MachineModel<'a>, w: &'a While, v: PrimitiveType<'a>) -> (
    MachineModel<'a>,
    Action<'a>,
) {
    if truthy(v) {
        (
            MachineModel {
                scopes: m.scopes,
                frames: m.frames.push(Frame::Eval(&w.cond)).push(Frame::Discard).push(
                    Frame::Run { block: &w.body, next: 0, kind: RunKind::Branch },
                ),
                value: None,
            },
            Action::Continue,
        )
    } else {
        (
            MachineModel { scopes: m.scopes, frames: m.frames.drop_last(), value: None },
            Action::Continue,
        )
    }
}

/// One step of a `return` when its value `v` has come: the block below ends
/// with `v`.
pub open spec fn leave_model<'a>(m: MachineModel<'a>, v: PrimitiveType<'a>) -> (
    MachineModel<'a>,
    Action<'a>,
) {
    let below = MachineModel { scopes: m.scopes, frames: m.frames.drop_last(), value: None };
    if below.frames.len() > 0 && below.frames.last() is Run {
        finish_block_model(below, v)
    } else {
        (m, Action::Fatal(RuntimeError::Corrupt))
    }
}

/// One step of the machine: the state after it, and what the host has to do.
///
/// A stopped program leaves the state as it is. A machine with no work left
/// has finished, with the last value or void.
pub open spec fn step_model<'a>(m: MachineModel<'a>) -> (MachineModel<'a>, Action<'a>) {
    if m.scopes.len() == 0 {
        (m, Action::Fatal(RuntimeError::Corrupt))
    } else if m.frames.len() == 0 {
        (
            m,
            Action::Finished(
                match m.value {
                    Some(v) => v,
                    None => PrimitiveType::VOID,
                },
            ),
        )
    } else {
        match m.value {
            None => match m.frames.last() {
                Frame::Run { block, next, kind } => run_model(m, block, next, kind),
                Frame::Eval(e) => eval_model(m, e),
                Frame::Apply { op, call, index, first } => apply_start_model(m, op, call, index),
                Frame::Literal(lit) => (m, Action::FloatLiteral(lit)),
                Frame::Arith(op, a, b) => (m, Action::FloatOp(op, a, b)),
                _ => (m, Action::Fatal(RuntimeError::Corrupt)),
            },
            Some(v) => match m.frames.last() {
                Frame::Bind(id) => (
                    MachineModel {
                        scopes: bind_model(m.scopes, id@, v),
                        frames: m.frames.drop_last(),
                        value: None,
                    },
                    Action::Continue,
                ),
                Frame::Discard => (
                    MachineModel { scopes: m.scopes, frames: m.frames.drop_last(), value: None },
                    Action::Continue,
                ),
                Frame::Leave => leave_model(m, v),
                Frame::Choose { stmt, index } => choose_model(m, stmt, index, v),
                Frame::Repeat(w) => repeat_model(m, w, v),
                Frame::Apply { op, call, index, first } => apply_value_model(
                    m,
                    op,
                    call,
                    index,
                    first,
                    v,
                ),
                _ => (m, Action::Fatal(RuntimeError::Corrupt)),
            },
        }
    }
}

/// The machine after the host has answered with the float `bits`: the
/// waiting frame is gone and the float is the value that has come. A machine
/// that does not wait stays as it is.
pub open spec fn resume_model<'a>(m: MachineModel<'a>, bits: u64) -> MachineModel<'a> {
    if m.frames.len() > 0 && m.value is None && (m.frames.last() is Literal
        || m.frames.last() is Arith) {
        MachineModel {
            scopes: m.scopes,
            frames: m.frames.drop_last(),
            value: Some(PrimitiveType::F64(bits)),
        }
    } else {
        m
    }
}


impl<'a> Machine<'a> {
    /// The value of `name` as seen from the current scope, if any scope of
    /// the chain binds it.
    pub fn try_lookup(&self, name: &String) -> (r: Option<PrimitiveType<'a>>)
        ensures
            r == lookup_model(self@.scopes, name@),
    {
        if self.scopes.len() == 0 {
            return None;
        }
        let mut handle: usize = self.scopes.len() - 1;
        loop
            invariant
                handle < self.scopes@.len(),
                lookup_from(self@.scopes, handle as int, name@) == lookup_model(
                    self@.scopes,
                    name@,
                ),
            decreases handle,
        {
            if let Some(v) = self.scopes[handle].get(name) {
                return Some(v);
            }
            match self.scopes[handle].parent {
                Some(p) => {
                    if p < handle {
                        handle = p;
                    } else {
                        return None;
                    }
                },
                None => {
                    return None;
                },
            }
        }
    }

    /// The value of `name` as seen from the current scope; a name that no
    /// scope binds stops the program.
    pub fn lookup(&self, id: &'a Identifier) -> (r: Result<PrimitiveType<'a>, RuntimeError<'a>>)
        ensures
            r == (match lookup_model(self@.scopes, id@) {
                Some(v) => Ok::<PrimitiveType<'a>, RuntimeError<'a>>(v),
                None => Err(RuntimeError::UndefinedName(id)),
            }),
    {
        match self.try_lookup(&id.0) {
            Some(v) => Ok(v),
            None => Err(RuntimeError::UndefinedName(id)),
        }
    }

    /// Binds `name` to `v` in the current scope.
    fn bind(&mut self, name: String, v: PrimitiveType<'a>)
        requires
            old(self).scopes@.len() > 0,
        ensures
            final(self)@.scopes == bind_model(old(self)@.scopes, name@, v),
            final(self).frames == old(self).frames,
            final(self).value == old(self).value,
    {
        let mut scope = self.scopes.pop().unwrap();
        scope.set(name, v);
        self.scopes.push(scope);
        assert(self@.scopes =~= bind_model(old(self)@.scopes, name@, v));
    }

    /// Opens a scope whose parent is the current scope.
    fn open_scope(&mut self)
        ensures
            final(self)@.scopes == open_scope_model(old(self)@.scopes),
            final(self).frames == old(self).frames,
            final(self).value == old(self).value,
    {
        let parent = if self.scopes.len() > 0 {
            Some(self.scopes.len() - 1)
        } else {
            None
        };
        self.scopes.push(Scope::new(parent));
        assert(self@.scopes =~= open_scope_model(old(self)@.scopes));
    }

    /// Ends the block on top with `v`.
    fn finish_block(&mut self, v: PrimitiveType<'a>) -> (a: Action<'a>)
        ensures
            (final(self)@, a) == finish_block_model(old(self)@, v),
    {
        if self.frames.len() == 0 {
            return Action::Fatal(RuntimeError::Corrupt);
        }
        let top = self.frames[self.frames.len() - 1];
        match top {
            Frame::Run { block, next, kind } => {
                self.frames.pop();
                let own_scope = match kind {
                    RunKind::Scoped => true,
                    RunKind::Call => true,
                    _ => false,
                };
                let for_host = match kind {
                    RunKind::Root => true,
                    RunKind::Scoped => true,
                    _ => false,
                };
                if own_scope && self.scopes.len() > 1 {
                    self.scopes.pop();
                    assert(self@.scopes =~= old(self)@.scopes.drop_last());
                }
                if for_host {
                    self.value = if self.frames.len() == 0 {
                        Some(v)
                    } else {
                        None
                    };
                    Action::Finished(v)
                } else {
                    self.value = Some(v);
                    Action::Continue
                }
            },
            _ => Action::Fatal(RuntimeError::Corrupt),
        }
    }

    /// One step of the block on top.
    fn run_statement(&mut self, block: &'a Block, next: usize, kind: RunKind) -> (a: Action<'a>)
        requires
            old(self).scopes@.len() > 0,
            old(self).frames@.len() > 0,
            old(self).frames@.last() == (Frame::Run { block, next, kind }),
        ensures
            (final(self)@, a) == run_model(old(self)@, block, next, kind),
    {
        if next >= block.0.len() {
            return self.finish_block(PrimitiveType::VOID);
        }
        self.frames.pop();
        self.frames.push(Frame::Run { block, next: next + 1, kind });
        self.value = None;
        match &block.0[next] {
            Statement::ASSIGNMENT(a) => {
                self.frames.push(Frame::Bind(&a.id));
                self.frames.push(Frame::Eval(&a.val));
            },
            Statement::RETURN(r) => {
                self.frames.push(Frame::Leave);
                self.frames.push(Frame::Eval(&r.0));
            },
            Statement::EXPRESSION(e) => {
                self.frames.push(Frame::Discard);
                self.frames.push(Frame::Eval(e));
            },
            Statement::FUNC_DECL(d) => {
                self.bind(d.func_name.0.clone(), PrimitiveType::FUNCTION(d));
            },
            Statement::IF(x) => {
                if x.cond.len() > 0 {
                    self.frames.push(Frame::Choose { stmt: x, index: 0 });
                    self.frames.push(Frame::Eval(&x.cond[0]));
                }
            },
            Statement::WHILE(w) => {
                self.frames.push(Frame::Repeat(w));
                self.frames.push(Frame::Eval(&w.cond));
            },
            Statement::NOTHING => {},
        }
        Action::Continue
    }

    /// One step of the expression `v` on top.
    fn get_value(&mut self, v: &'a Value) -> (a: Action<'a>)
        requires
            old(self).frames@.len() > 0,
            old(self).frames@.last() == Frame::Eval(v),
            old(self).value is None,
        ensures
            (final(self)@, a) == eval_model(old(self)@, v),
    {
        match v {
            Value::VAR(id) => match self.try_lookup(&id.0) {
                Some(found) => {
                    self.frames.pop();
                    self.value = Some(found);
                    Action::Continue
                },
                None => Action::Fatal(RuntimeError::UndefinedName(id)),
            },
            Value::INT(i) => {
                self.frames.pop();
                self.value = Some(PrimitiveType::I32(*i));
                Action::Continue
            },
            Value::BOOL(b) => {
                self.frames.pop();
                self.value = Some(
                    PrimitiveType::I32(
                        if *b {
                            1
                        } else {
                            0
                        },
                    ),
                );
                Action::Continue
            },
            Value::FLOAT(lit) => {
                self.frames.pop();
                self.frames.push(Frame::Literal(lit));
                Action::FloatLiteral(lit)
            },
            Value::FUNC_CALL(fc) => match self.try_lookup(&fc.func_name.0) {
                None => Action::Fatal(RuntimeError::UndefinedName(&fc.func_name)),
                Some(PrimitiveType::FUNCTION(d)) => {
                    self.frames.pop();
                    self.open_scope();
                    self.frames.push(Frame::Run { block: &d.body, next: 0, kind: RunKind::Call });
                    Action::Continue
                },
                Some(PrimitiveType::BUILTIN(b)) => {
                    self.frames.pop();
                    self.frames.push(
                        Frame::Apply {
                            op: b.execute,
                            call: fc,
                            index: 0,
                            first: PrimitiveType::VOID,
                        },
                    );
                    Action::Continue
                },
                Some(_) => Action::Fatal(RuntimeError::NotCallable(&fc.func_name)),
            },
        }
    }

    /// One step of the built-in call on top when no value has come.
    fn apply_start(&mut self, op: NativeOp, call: &'a FuncCall, index: usize) -> (a: Action<'a>)
        requires
            old(self).frames@.len() > 0,
            old(self).value is None,
        ensures
            (final(self)@, a) == apply_start_model(old(self)@, op, call, index),
    {
        let printing = match op {
            NativeOp::Print => true,
            _ => false,
        };
        if index < call.arg_list.len() && (printing || index < 2) {
            self.frames.push(Frame::Eval(&call.arg_list[index]));
            Action::Continue
        } else if printing {
            self.frames.pop();
            self.value = Some(PrimitiveType::VOID);
            Action::PrintEnd
        } else if index < 2 {
            Action::Fatal(RuntimeError::MissingOperand(op))
        } else {
            Action::Fatal(RuntimeError::Corrupt)
        }
    }

    /// One step of `print` when the value of argument `index` has come.
    fn print(&mut self, call: &'a FuncCall, index: usize, first: PrimitiveType<'a>, v: PrimitiveType<'a>) -> (a:
        Action<'a>)
        requires
            old(self).frames@.len() > 0,
            index < call.arg_list@.len(),
        ensures
            (final(self)@, a) == apply_value_model(
                old(self)@,
                NativeOp::Print,
                call,
                index,
                first,
                v,
            ),
    {
        match v {
            PrimitiveType::FUNCTION(_) => Action::Fatal(RuntimeError::NotPrintable),
            PrimitiveType::BUILTIN(_) => Action::Fatal(RuntimeError::NotPrintable),
            _ => {
                let count = call.arg_list.len();
                assert(index < count);
                self.frames.pop();
                self.frames.push(
                    Frame::Apply { op: NativeOp::Print, call, index: index + 1, first },
                );
                self.value = None;
                Action::Print(v, index + 1 < count)
            },
        }
    }

    /// One step of the built-in call on top when the value of argument
    /// `index` has come.
    fn apply_value(
        &mut self,
        op: NativeOp,
        call: &'a FuncCall,
        index: usize,
        first: PrimitiveType<'a>,
        v: PrimitiveType<'a>,
    ) -> (a: Action<'a>)
        requires
            old(self).frames@.len() > 0,
        ensures
            (final(self)@, a) == apply_value_model(old(self)@, op, call, index, first, v),
    {
        if index >= call.arg_list.len() {
            return Action::Fatal(RuntimeError::Corrupt);
        }
        if let NativeOp::Print = op {
            return self.print(call, index, first, v);
        }
        if index == 0 {
            self.frames.pop();
            self.frames.push(Frame::Apply { op, call, index: 1, first: v });
            self.value = None;
            return Action::Continue;
        }
        let outcome = match op {
            NativeOp::Add => add_builtin(first, v),
            NativeOp::Sub => sub_builtin(first, v),
            NativeOp::Mul => multi_builtin(first, v),
            _ => div_builtin(first, v),
        };
        match outcome {
            Outcome::Value(r) => {
                self.frames.pop();
                self.value = Some(r);
                Action::Continue
            },
            Outcome::Float(o, x, y) => {
                self.frames.pop();
                self.frames.push(Frame::Arith(o, x, y));
                self.value = None;
                Action::FloatOp(o, x, y)
            },
            Outcome::Fatal(e) => Action::Fatal(e),
        }
    }

    /// One step of an `if` when the value of condition `index` has come.
    fn select_branch(&mut self, stmt: &'a If, index: usize, v: PrimitiveType<'a>) -> (a: Action<'a>)
        requires
            old(self).frames@.len() > 0,
        ensures
            (final(self)@, a) == choose_model(old(self)@, stmt, index, v),
    {
        if to_boolean(&v) {
            if index < stmt.branches.len() {
                self.frames.pop();
                self.frames.push(Frame::Discard);
                self.frames.push(
                    Frame::Run { block: &stmt.branches[index], next: 0, kind: RunKind::Branch },
                );
                self.value = None;
                Action::Continue
            } else {
                Action::Fatal(RuntimeError::MalformedIf)
            }
        } else if stmt.cond.len() > 0 && index < stmt.cond.len() - 1 {
            self.frames.pop();
            self.frames.push(Frame::Choose { stmt, index: index + 1 });
            self.frames.push(Frame::Eval(&stmt.cond[index + 1]));
            self.value = None;
            Action::Continue
        } else {
            self.frames.pop();
            self.value = None;
            Action::Continue
        }
    }

    /// One step of a `while` when the value of its condition has come.
    fn repeat(&mut self, w: &'a While, v: PrimitiveType<'a>) -> (a: Action<'a>)
        requires
            old(self).frames@.len() > 0,
        ensures
            (final(self)@, a) == repeat_model(old(self)@, w, v),
    {
        if to_boolean(&v) {
            self.frames.push(Frame::Eval(&w.cond));
            self.frames.push(Frame::Discard);
            self.frames.push(Frame::Run { block: &w.body, next: 0, kind: RunKind::Branch });
            self.value = None;
        } else {
            self.frames.pop();
            self.value = None;
        }
        Action::Continue
    }

    /// One step of a `return` when its value has come.
    fn leave(&mut self, v: PrimitiveType<'a>) -> (a: Action<'a>)
        requires
            old(self).frames@.len() > 0,
        ensures
            (final(self)@, a) == leave_model(old(self)@, v),
    {
        let n = self.frames.len();
        if n < 2 {
            return Action::Fatal(RuntimeError::Corrupt);
        }
        match self.frames[n - 2] {
            Frame::Run { .. } => {
                self.frames.pop();
                self.value = None;
                self.finish_block(v)
            },
            _ => Action::Fatal(RuntimeError::Corrupt),
        }
    }

    /// Takes one step and says what the host has to do before the next.
    ///
    /// After `Action::FloatLiteral` and `Action::FloatOp` the machine waits
    /// for `resume`; until then a step asks again. After `Action::Fatal` the
    /// machine is as it was before the step. The step that ends a block which
    /// the host has started, the program or a block of `run_block`, is
    /// `Action::Finished` with the block's value; so is every step when no
    /// work is left.
    pub fn step(&mut self) -> (a: Action<'a>)
        ensures
            (final(self)@, a) == step_model(old(self)@),
    {
        if self.scopes.len() == 0 {
            return Action::Fatal(RuntimeError::Corrupt);
        }
        let n = self.frames.len();
        if n == 0 {
            return Action::Finished(
                match self.value {
                    Some(v) => v,
                    None => PrimitiveType::VOID,
                },
            );
        }
        let top = self.frames[n - 1];
        match self.value {
            None => match top {
                Frame::Run { block, next, kind } => self.run_statement(block, next, kind),
                Frame::Eval(e) => self.get_value(e),
                Frame::Apply { op, call, index, first } => self.apply_start(op, call, index),
                Frame::Literal(lit) => Action::FloatLiteral(lit),
                Frame::Arith(op, x, y) => Action::FloatOp(op, x, y),
                _ => Action::Fatal(RuntimeError::Corrupt),
            },
            Some(v) => match top {
                Frame::Bind(id) => {
                    self.frames.pop();
                    self.value = None;
                    self.bind(id.0.clone(), v);
                    Action::Continue
                },
                Frame::Discard => {
                    self.frames.pop();
                    self.value = None;
                    Action::Continue
                },
                Frame::Leave => self.leave(v),
                Frame::Choose { stmt, index } => self.select_branch(stmt, index, v),
                Frame::Repeat(w) => self.repeat(w, v),
                Frame::Apply { op, call, index, first } => self.apply_value(
                    op,
                    call,
                    index,
                    first,
                    v,
                ),
                _ => Action::Fatal(RuntimeError::Corrupt),
            },
        }
    }

    /// Hands the machine the float that it waits for. Returns whether it
    /// waited for one; if not, nothing changes.
    pub fn resume(&mut self, bits: u64) -> (waited: bool)
        ensures
            final(self)@ == resume_model(old(self)@, bits),
            waited == (old(self)@.frames.len() > 0 && old(self)@.value is None && (old(
                self,
            )@.frames.last() is Literal || old(self)@.frames.last() is Arith)),
    {
        let n = self.frames.len();
        if n == 0 || self.value.is_some() {
            return false;
        }
        match self.frames[n - 1] {
            Frame::Literal(_) => {
                self.frames.pop();
                self.value = Some(PrimitiveType::F64(bits));
                true
            },
            Frame::Arith(_, _, _) => {
                self.frames.pop();
                self.value = Some(PrimitiveType::F64(bits));
                true
            },
            _ => false,
        }
    }
}

/// Starts the block `blk` on the machine `m`, on top of the work that is
/// pending: in a scope of its own, whose parent is the current scope, if
/// `new_scope` is set, else in the current scope. No value has come for it.
///
/// The step that ends the block, at a `return` or after its last statement,
/// is `Action::Finished` with the block's value: that of the `return`, else
/// void. A scope of its own is closed by that step.
pub fn run_block<'a>(m: &mut Machine<'a>, new_scope: bool, blk: &'a Block)
    ensures
        final(m)@.scopes == (if new_scope {
            open_scope_model(old(m)@.scopes)
        } else {
            old(m)@.scopes
        }),
        final(m)@.frames == old(m)@.frames.push(
            Frame::Run {
                block: blk,
                next: 0,
                kind: if new_scope {
                    RunKind::Scoped
                } else {
                    RunKind::Root
                },
            },
        ),
        final(m)@.value is None,
{
    if new_scope {
        m.open_scope();
        m.frames.push(Frame::Run { block: blk, next: 0, kind: RunKind::Scoped });
    } else {
        m.frames.push(Frame::Run { block: blk, next: 0, kind: RunKind::Root });
    }
    m.value = None;
}

/// The name of the built-in `print`.
fn print_name() -> (r: String)
    ensures
        r@ == builtin_name(NativeOp::Print),
{
    proof {
        reveal_strlit("print");
    }
    let r = "print".to_owned();
    assert(r@ =~= builtin_name(NativeOp::Print));
    r
}

/// The machine that is about to run the program `root`: the root scope holds
/// the built-ins, and the program is the only pending work.
pub fn run_code<'a>(root: &'a Block) -> (m: Machine<'a>)
    ensures
        m@ == initial_model(root),
{
    let mut scope: Scope<'a> = Scope::new(None);
    scope.set(
        operator_identifier(Operator::Minus).0,
        PrimitiveType::BUILTIN(BuiltInFunc { execute: NativeOp::Sub }),
    );
    scope.set(
        operator_identifier(Operator::Plus).0,
        PrimitiveType::BUILTIN(BuiltInFunc { execute: NativeOp::Add }),
    );
    scope.set(
        operator_identifier(Operator::Star).0,
        PrimitiveType::BUILTIN(BuiltInFunc { execute: NativeOp::Mul }),
    );
    scope.set(
        operator_identifier(Operator::Slash).0,
        PrimitiveType::BUILTIN(BuiltInFunc { execute: NativeOp::Div }),
    );
    scope.set(print_name(), PrimitiveType::BUILTIN(BuiltInFunc { execute: NativeOp::Print }));
    let mut scopes: Vec<Scope<'a>> = Vec::new();
    scopes.push(scope);
    let mut frames: Vec<Frame<'a>> = Vec::new();
    frames.push(Frame::Run { block: root, next: 0, kind: RunKind::Root });
    let m = Machine { scopes, frames, value: None };
    assert(m@.scopes =~= initial_model(root).scopes);
    assert(m@.frames =~= initial_model(root).frames);
    m
}


/// The scopes are a chain: the first has no parent, and each other one has
/// the one before it as its parent.
pub open spec fn scopes_chained<'a>(scopes: Seq<ScopeModel<'a>>) -> bool {
    &&& scopes.len() >= 1
    &&& forall|i: int|
        0 <= i < scopes.len() ==> (#[trigger] scopes[i]).parent == (if i == 0 {
            None::<usize>
        } else {
            Some((i - 1) as usize)
        })
}

/// The machine that `run_code` makes has its scopes chained.
pub proof fn lemma_initial_scopes_chained<'a>(root: &'a Block)
    ensures
        scopes_chained(initial_model(root).scopes),
{
}

/// A step keeps the scopes chained, whatever the state.
pub proof fn lemma_step_keeps_scopes_chained<'a>(m: MachineModel<'a>)
    requires
        scopes_chained(m.scopes),
        m.scopes.len() <= usize::MAX,
    ensures
        scopes_chained(step_model(m).0.scopes),
{
}

/// An answer of the host changes no scope.
pub proof fn lemma_resume_keeps_scopes<'a>(m: MachineModel<'a>, bits: u64)
    ensures
        resume_model(m, bits).scopes == m.scopes,
{
}

/// A stopped program leaves the machine as it was before the step: nothing
/// is bound, opened or dropped on the way to an error.
pub proof fn lemma_fatal_changes_nothing<'a>(m: MachineModel<'a>)
    requires
        step_model(m).1 is Fatal,
    ensures
        step_model(m).0 == m,
{
}

/// What a scope sees does not depend on the scopes opened after it.
pub proof fn lemma_lookup_ignores_later_scopes<'a>(
    scopes: Seq<ScopeModel<'a>>,
    later: ScopeModel<'a>,
    handle: int,
    name: Seq<char>,
)
    requires
        handle < scopes.len(),
    ensures
        lookup_from(scopes.push(later), handle, name) == lookup_from(scopes, handle, name),
    decreases handle,
{
    if 0 <= handle && !scopes[handle].local.contains_key(name) {
        match scopes[handle].parent {
            Some(p) => {
                if p < handle {
                    lemma_lookup_ignores_later_scopes(scopes, later, p as int, name);
                }
            },
            None => {},
        }
    }
}

/// Function calls are dynamically scoped. The step that calls a function
/// opens a scope whose parent is the scope of the call, and starts the body
/// there: right after it, every name has the value that it had at the call,
/// whether or not it was bound when the function was declared.
pub proof fn lemma_call_sees_the_callers_names<'a>(
    m: MachineModel<'a>,
    e: &'a Value,
    name: Seq<char>,
)
    requires
        0 < m.scopes.len() <= usize::MAX,
        m.frames.len() > 0,
        m.value is None,
        m.frames.last() == Frame::Eval(e),
        *e is FUNC_CALL,
        lookup_model(m.scopes, (*e)->FUNC_CALL_0.func_name@) is Some,
        lookup_model(m.scopes, (*e)->FUNC_CALL_0.func_name@)->Some_0 is FUNCTION,
    ensures
        step_model(m).1 == Action::Continue,
        step_model(m).0.frames == m.frames.drop_last().push(
            Frame::Run {
                block: &lookup_model(
                    m.scopes,
                    (*e)->FUNC_CALL_0.func_name@,
                )->Some_0->FUNCTION_0.body,
                next: 0,
                kind: RunKind::Call,
            },
        ),
        step_model(m).0.scopes.len() == m.scopes.len() + 1,
        step_model(m).0.scopes.last().parent == Some((m.scopes.len() - 1) as usize),
        lookup_model(step_model(m).0.scopes, name) == lookup_model(m.scopes, name),
{
    let later = ScopeModel {
        parent: Some((m.scopes.len() - 1) as usize),
        local: Map::<Seq<char>, PrimitiveType<'a>>::empty(),
    };
    assert(step_model(m).0.scopes == m.scopes.push(later));
    lemma_lookup_ignores_later_scopes(m.scopes, later, m.scopes.len() - 1, name);
}

/// A variable that no scope of the chain binds stops the program: the step
/// that evaluates it hands out no value.
pub proof fn lemma_undefined_variable_is_fatal<'a>(m: MachineModel<'a>, e: &'a Value)
    requires
        m.scopes.len() > 0,
        m.frames.len() > 0,
        m.value is None,
        m.frames.last() == Frame::Eval(e),
        *e is VAR,
        lookup_model(m.scopes, (*e)->VAR_0@) is None,
    ensures
        step_model(m) == (m, Action::Fatal(RuntimeError::UndefinedName(&(*e)->VAR_0))),
{
}

/// A binding made in the body of an `if` or a `while` is made in the scope
/// around it: these bodies open no scope.
pub proof fn lemma_branch_runs_in_the_current_scope<'a>(
    m: MachineModel<'a>,
    v: PrimitiveType<'a>,
)
    requires
        m.scopes.len() > 0,
        m.frames.len() > 0,
        m.value == Some(v),
        m.frames.last() is Choose || m.frames.last() is Repeat,
    ensures
        step_model(m).0.scopes == m.scopes,
{
}


/// A `return` ends the block that it stands in with its value, whatever the
/// kind of the block: the step hands the value to the host if the host has
/// started the block, and leaves it for the frame below if not. No later
/// statement of the block is run: the block's frame is gone.
pub proof fn lemma_return_yields_its_value<'a>(m: MachineModel<'a>, v: PrimitiveType<'a>)
    requires
        m.scopes.len() > 0,
        m.frames.len() >= 2,
        m.value == Some(v),
        m.frames.last() is Leave,
        m.frames[m.frames.len() - 2] is Run,
    ensures
        step_model(m).0.frames == m.frames.drop_last().drop_last(),
        m.frames[m.frames.len() - 2] matches Frame::Run { kind, .. } && (if is_for_host(kind) {
            step_model(m).1 == Action::Finished(v)
        } else {
            step_model(m).1 == Action::Continue && step_model(m).0.value == Some(v)
        }),
{
}

/// A block that comes to its end without a `return` ends with void, whatever
/// its kind.
pub proof fn lemma_block_end_yields_void<'a>(m: MachineModel<'a>)
    requires
        m.scopes.len() > 0,
        m.frames.len() > 0,
        m.value is None,
        m.frames.last() matches Frame::Run { block, next, .. } && next >= block.0@.len(),
    ensures
        step_model(m).0.frames == m.frames.drop_last(),
        m.frames.last() matches Frame::Run { kind, .. } && (if is_for_host(kind) {
            step_model(m).1 == Action::Finished(PrimitiveType::VOID)
        } else {
            step_model(m).1 == Action::Continue && step_model(m).0.value == Some(
                PrimitiveType::VOID,
            )
        }),
{
}

/// Whether a frame acts on its own when it is on top and no value has come.
pub open spec fn starts_alone(f: Frame) -> bool {
    match f {
        Frame::Run { .. } => true,
        Frame::Eval(_) => true,
        Frame::Literal(_) => true,
        Frame::Arith(_, _, _) => true,
        Frame::Apply { op, call, index, .. } => if op == NativeOp::Print {
            index <= call.arg_list@.len()
        } else {
            index < 2
        },
        _ => false,
    }
}

/// Whether a frame has a use for a value that has come when it is on top.
pub open spec fn takes_value(f: Frame) -> bool {
    match f {
        Frame::Bind(_) => true,
        Frame::Discard => true,
        Frame::Leave => true,
        Frame::Choose { .. } => true,
        Frame::Repeat(_) => true,
        Frame::Apply { op, call, index, .. } => index < call.arg_list@.len() && (op
            == NativeOp::Print || index < 2),
        _ => false,
    }
}

/// Whether a frame, when its work is done, hands a value to the frame below.
pub open spec fn gives_value(f: Frame) -> bool {
    match f {
        Frame::Eval(_) => true,
        Frame::Literal(_) => true,
        Frame::Arith(_, _, _) => true,
        Frame::Apply { .. } => true,
        Frame::Run { kind, .. } => !is_for_host(kind),
        _ => false,
    }
}

/// Whether `below` is ready for what `above` leaves behind: a `return` waits
/// on the block that it ends; a frame that gives a value stands on one that
/// takes it; any other stands on one that goes on alone.
pub open spec fn fits(below: Frame, above: Frame) -> bool {
    if above is Leave {
        below is Run
    } else if gives_value(above) {
        takes_value(below)
    } else {
        starts_alone(below)
    }
}

/// The states that a program can be in: there is a scope, the work at the
/// bottom is a block, each frame is ready for what the one above it leaves
/// behind, and the frame on top is ready for the value that has or has not come.
pub open spec fn settled<'a>(m: MachineModel<'a>) -> bool {
    &&& m.scopes.len() >= 1
    &&& (m.frames.len() > 0 ==> m.frames[0] is Run)
    &&& forall|i: int|
        0 <= i < m.frames.len() - 1 ==> fits(#[trigger] m.frames[i], m.frames[i + 1])
    &&& (m.frames.len() > 0 ==> if m.value is Some {
        takes_value(m.frames.last())
    } else {
        starts_alone(m.frames.last())
    })
}

/// The machine that `run_code` makes is settled.
pub proof fn lemma_initial_machine_is_settled<'a>(root: &'a Block)
    ensures
        settled(initial_model(root)),
{
}

/// A step from a settled state leads to a settled state, and never finds the
/// machine corrupt: every program, whatever it does, keeps the machine in order.
pub proof fn lemma_step_keeps_settled<'a>(m: MachineModel<'a>)
    requires
        settled(m),
    ensures
        settled(step_model(m).0),
        step_model(m).1 != Action::Fatal(RuntimeError::Corrupt),
{
    let after = step_model(m).0;
    if m.frames.len() > 0 {
        let n = m.frames.len() - 1;
        assert(n > 0 ==> fits(m.frames[n - 1], m.frames[n]));
        assert(n > 1 ==> fits(m.frames[n - 2], m.frames[n - 1]));
        assert forall|i: int| 0 <= i < after.frames.len() - 1 implies fits(
            #[trigger] after.frames[i],
            after.frames[i + 1],
        ) by {
            if i + 1 < n {
                assert(fits(m.frames[i], m.frames[i + 1]));
            }
        }
    }
}

/// An answer of the host leads from a settled state to a settled state.
pub proof fn lemma_resume_keeps_settled<'a>(m: MachineModel<'a>, bits: u64)
    requires
        settled(m),
    ensures
        settled(resume_model(m, bits)),
{
    let after = resume_model(m, bits);
    if m.frames.len() > 0 {
        let n = m.frames.len() - 1;
        assert(n > 0 ==> fits(m.frames[n - 1], m.frames[n]));
        assert forall|i: int| 0 <= i < after.frames.len() - 1 implies fits(
            #[trigger] after.frames[i],
            after.frames[i + 1],
        ) by {
            assert(fits(m.frames[i], m.frames[i + 1]));
        }
    }
}


/// Whether the blocks that a frame works on are well formed.
pub open spec fn frame_tidy(f: Frame) -> bool {
    match f {
        Frame::Run { block, .. } => block.well_formed(),
        Frame::Choose { stmt, index } => stmt.well_formed() && tidy_blocks(stmt.branches@)
            && index < stmt.cond@.len(),
        Frame::Repeat(w) => w.body.well_formed(),
        _ => true,
    }
}

/// Whether a value, if it is a function, has a well-formed body.
pub open spec fn value_tidy(v: PrimitiveType) -> bool {
    v matches PrimitiveType::FUNCTION(d) ==> d.body.well_formed()
}

/// Whether every function that a scope binds has a well-formed body.
pub open spec fn scope_tidy(s: ScopeModel) -> bool {
    forall|name: Seq<char>| s.local.contains_key(name) ==> value_tidy(#[trigger] s.local[name])
}

/// Whether all that the machine holds of the program is well formed: the
/// blocks of its frames, and the bodies of the functions in its scopes and in
/// the value that has come.
pub open spec fn tidy<'a>(m: MachineModel<'a>) -> bool {
    &&& forall|i: int| 0 <= i < m.frames.len() ==> frame_tidy(#[trigger] m.frames[i])
    &&& forall|i: int| 0 <= i < m.scopes.len() ==> scope_tidy(#[trigger] m.scopes[i])
    &&& (m.value matches Some(v) ==> value_tidy(v))
}

/// What a lookup finds in tidy scopes is tidy.
pub proof fn lemma_lookup_is_tidy<'a>(scopes: Seq<ScopeModel<'a>>, handle: int, name: Seq<char>)
    requires
        forall|i: int| 0 <= i < scopes.len() ==> scope_tidy(#[trigger] scopes[i]),
    ensures
        lookup_from(scopes, handle, name) matches Some(v) ==> value_tidy(v),
    decreases handle,
{
    if 0 <= handle < scopes.len() {
        assert(scope_tidy(scopes[handle]));
        if !scopes[handle].local.contains_key(name) {
            match scopes[handle].parent {
                Some(p) => {
                    if p < handle {
                        lemma_lookup_is_tidy(scopes, p as int, name);
                    }
                },
                None => {},
            }
        }
    }
}

/// The machine that `run_code` makes of a well-formed program is tidy.
pub proof fn lemma_initial_machine_is_tidy<'a>(root: &'a Block)
    requires
        root.well_formed(),
    ensures
        tidy(initial_model(root)),
{
}

/// A step from a tidy state leads to a tidy state, and never finds a
/// condition without a branch: a program in which every `if` has a branch
/// for every condition is never stopped for want of one.
pub proof fn lemma_step_keeps_tidy<'a>(m: MachineModel<'a>)
    requires
        tidy(m),
    ensures
        tidy(step_model(m).0),
        step_model(m).1 != Action::Fatal(RuntimeError::MalformedIf),
{
    let after = step_model(m).0;
    if m.scopes.len() > 0 && m.frames.len() > 0 {
        let top = m.frames.last();
        assert(frame_tidy(top));
        assert(scope_tidy(m.scopes.last()));
        match top {
            Frame::Eval(e) => {
                match *e {
                    Value::VAR(id) => {
                        lemma_lookup_is_tidy(m.scopes, m.scopes.len() - 1, id@);
                    },
                    Value::FUNC_CALL(fc) => {
                        lemma_lookup_is_tidy(m.scopes, m.scopes.len() - 1, fc.func_name@);
                    },
                    _ => {},
                }
            },
            Frame::Run { block, next, kind } => {
                if next < block.0@.len() {
                    assert(tidy_statement(block.0@[next as int]));
                }
            },
            Frame::Leave => {
                if m.frames.len() >= 2 {
                    assert(frame_tidy(m.frames[m.frames.len() - 2]));
                }
            },
            _ => {},
        }
        assert forall|i: int| 0 <= i < after.frames.len() implies frame_tidy(
            #[trigger] after.frames[i],
        ) by {
            if i < m.frames.len() - 1 {
                assert(frame_tidy(m.frames[i]));
            }
        }
        assert forall|i: int| 0 <= i < after.scopes.len() implies scope_tidy(
            #[trigger] after.scopes[i],
        ) by {
            if i < m.scopes.len() {
                assert(scope_tidy(m.scopes[i]));
            }
        }
    }
}

/// An answer of the host leads from a tidy state to a tidy state.
pub proof fn lemma_resume_keeps_tidy<'a>(m: MachineModel<'a>, bits: u64)
    requires
        tidy(m),
    ensures
        tidy(resume_model(m, bits)),
{
    let after = resume_model(m, bits);
    assert forall|i: int| 0 <= i < after.frames.len() implies frame_tidy(
        #[trigger] after.frames[i],
    ) by {
        assert(frame_tidy(m.frames[i]));
    }
}

} // verus!
