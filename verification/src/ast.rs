use crate::lexer::{FloatLiteral, Identifier};
use vstd::prelude::*;

verus! {

/// A call: the callee's name and the argument expressions, in order.
/// A binary operator is a call whose callee is the operator's symbol.
#[derive(PartialEq, Debug)]
pub struct FuncCall {
    pub func_name: Identifier,
    pub arg_list: Vec<Value>,
}

/// A parameter of a function declaration.
#[derive(PartialEq, Debug)]
pub struct ArgDecl(pub Identifier);

/// A function declaration: name, parameters and body.
#[derive(PartialEq, Debug)]
pub struct FuncDecl {
    pub func_name: Identifier,
    pub arg_list: Vec<ArgDecl>,
    pub body: Block,
}

/// An assignment: the name and the expression whose value it gets.
#[derive(PartialEq, Debug)]
pub struct Assign {
    pub id: Identifier,
    pub val: Value,
}

/// An expression.
#[allow(non_camel_case_types)]
#[derive(PartialEq, Debug)]
pub enum Value {
    VAR(Identifier),
    FLOAT(FloatLiteral),
    INT(i32),
    BOOL(bool),
    FUNC_CALL(FuncCall),
}

/// A conditional: `cond[i]` guards `branches[i]`; an `else` branch is guarded
/// by the literal `true`.
#[derive(PartialEq, Debug)]
pub struct If {
    pub cond: Vec<Value>,
    pub branches: Vec<Block>,
}

/// A loop: the condition, evaluated before every round, and the body.
#[derive(PartialEq, Debug)]
pub struct While {
    pub cond: Value,
    pub body: Block,
}

/// A `return` with the expression whose value the block yields.
#[derive(PartialEq, Debug)]
pub struct Return(pub Value);

/// A statement. `NOTHING` is a bare terminator; the parser drops it from blocks.
#[allow(non_camel_case_types)]
#[derive(PartialEq, Debug)]
pub enum Statement {
    ASSIGNMENT(Assign),
    RETURN(Return),
    EXPRESSION(Value),
    FUNC_DECL(FuncDecl),
    IF(If),
    WHILE(While),
    NOTHING,
}

/// Statements in the order in which they run.
#[derive(PartialEq, Debug)]
pub struct Block(pub Vec<Statement>);

/// What an expression is, in mathematical terms.
pub enum ValueModel {
    Var(Seq<char>),
    Float(Seq<u8>, Seq<u8>),
    Int(i32),
    Bool(bool),
    Call(Seq<char>, Seq<ValueModel>),
}

/// What a statement is, in mathematical terms.
pub enum StatementModel {
    Assignment(Seq<char>, ValueModel),
    Return(ValueModel),
    Expression(ValueModel),
    FuncDecl(Seq<char>, Seq<Seq<char>>, Seq<StatementModel>),
    If(Seq<ValueModel>, Seq<Seq<StatementModel>>),
    While(ValueModel, Seq<StatementModel>),
    Nothing,
}

/// The model of an expression.
pub open spec fn value_model(v: Value) -> ValueModel
    decreases v,
{
    match v {
        Value::VAR(id) => ValueModel::Var(id@),
        Value::FLOAT(f) => ValueModel::Float(f.whole@, f.fraction@),
        Value::INT(i) => ValueModel::Int(i),
        Value::BOOL(b) => ValueModel::Bool(b),
        Value::FUNC_CALL(fc) => ValueModel::Call(fc.func_name@, values_model(fc.arg_list@)),
    }
}

/// The models of a list of expressions.
pub open spec fn values_model(vs: Seq<Value>) -> Seq<ValueModel>
    decreases vs,
{
    Seq::new(
        vs.len(),
        |i: int|
            if 0 <= i < vs.len() {
                value_model(vs[i])
            } else {
                ValueModel::Bool(false)
            },
    )
}

/// The names of a list of parameters.
pub open spec fn params_model(ps: Seq<ArgDecl>) -> Seq<Seq<char>> {
    Seq::new(ps.len(), |i: int| ps[i].0@)
}

/// The model of a statement.
pub open spec fn statement_model(s: Statement) -> StatementModel
    decreases s,
{
    match s {
        Statement::ASSIGNMENT(a) => StatementModel::Assignment(a.id@, value_model(a.val)),
        Statement::RETURN(r) => StatementModel::Return(value_model(r.0)),
        Statement::EXPRESSION(v) => StatementModel::Expression(value_model(v)),
        Statement::FUNC_DECL(d) => StatementModel::FuncDecl(
            d.func_name@,
            params_model(d.arg_list@),
            statements_model(d.body.0@),
        ),
        Statement::IF(x) => StatementModel::If(values_model(x.cond@), blocks_model(x.branches@)),
        Statement::WHILE(w) => StatementModel::While(
            value_model(w.cond),
            statements_model(w.body.0@),
        ),
        Statement::NOTHING => StatementModel::Nothing,
    }
}

/// The models of a list of statements.
pub open spec fn statements_model(ss: Seq<Statement>) -> Seq<StatementModel>
    decreases ss,
{
    Seq::new(
        ss.len(),
        |i: int|
            if 0 <= i < ss.len() {
                statement_model(ss[i])
            } else {
                StatementModel::Nothing
            },
    )
}

/// The models of a list of blocks.
pub open spec fn blocks_model(bs: Seq<Block>) -> Seq<Seq<StatementModel>>
    decreases bs,
{
    Seq::new(
        bs.len(),
        |i: int|
            if 0 <= i < bs.len() {
                statements_model(bs[i].0@)
            } else {
                Seq::<StatementModel>::empty()
            },
    )
}

impl View for Value {
    type V = ValueModel;

    open spec fn view(&self) -> ValueModel {
        value_model(*self)
    }
}

impl View for FuncCall {
    type V = ValueModel;

    open spec fn view(&self) -> ValueModel {
        ValueModel::Call(self.func_name@, values_model(self.arg_list@))
    }
}

impl View for ArgDecl {
    type V = Seq<char>;

    open spec fn view(&self) -> Seq<char> {
        self.0@
    }
}

impl View for Assign {
    type V = (Seq<char>, ValueModel);

    open spec fn view(&self) -> (Seq<char>, ValueModel) {
        (self.id@, self.val@)
    }
}

impl View for Return {
    type V = ValueModel;

    open spec fn view(&self) -> ValueModel {
        self.0@
    }
}

impl View for Statement {
    type V = StatementModel;

    open spec fn view(&self) -> StatementModel {
        statement_model(*self)
    }
}

impl View for Block {
    type V = Seq<StatementModel>;

    open spec fn view(&self) -> Seq<StatementModel> {
        statements_model(self.0@)
    }
}

impl View for FuncDecl {
    type V = StatementModel;

    open spec fn view(&self) -> StatementModel {
        StatementModel::FuncDecl(self.func_name@, params_model(self.arg_list@), self.body@)
    }
}

impl View for If {
    type V = StatementModel;

    open spec fn view(&self) -> StatementModel {
        StatementModel::If(values_model(self.cond@), blocks_model(self.branches@))
    }
}

impl View for While {
    type V = StatementModel;

    open spec fn view(&self) -> StatementModel {
        StatementModel::While(self.cond@, self.body@)
    }
}

/// The model of a sequence that grew by one expression.
pub proof fn lemma_values_push(vs: Seq<Value>, v: Value)
    ensures
        values_model(vs.push(v)) == values_model(vs).push(v@),
{
    assert(values_model(vs.push(v)) =~= values_model(vs).push(v@));
}

/// The model of a sequence that grew by one statement.
pub proof fn lemma_statements_push(ss: Seq<Statement>, s: Statement)
    ensures
        statements_model(ss.push(s)) == statements_model(ss).push(s@),
{
    assert(statements_model(ss.push(s)) =~= statements_model(ss).push(s@));
}

/// The model of a sequence that grew by one block.
pub proof fn lemma_blocks_push(bs: Seq<Block>, b: Block)
    ensures
        blocks_model(bs.push(b)) == blocks_model(bs).push(b@),
{
    assert(blocks_model(bs.push(b)) =~= blocks_model(bs).push(b@));
}

/// The model of a sequence that grew by one parameter.
pub proof fn lemma_params_push(ps: Seq<ArgDecl>, p: ArgDecl)
    ensures
        params_model(ps.push(p)) == params_model(ps).push(p@),
{
    assert(params_model(ps.push(p)) =~= params_model(ps).push(p@));
}

/// The models of the empty sequences are empty.
pub proof fn lemma_empty_models()
    ensures
        values_model(Seq::<Value>::empty()) == Seq::<ValueModel>::empty(),
        statements_model(Seq::<Statement>::empty()) == Seq::<StatementModel>::empty(),
        blocks_model(Seq::<Block>::empty()) == Seq::<Seq<StatementModel>>::empty(),
        params_model(Seq::<ArgDecl>::empty()) == Seq::<Seq<char>>::empty(),
{
    assert(values_model(Seq::<Value>::empty()) =~= Seq::<ValueModel>::empty());
    assert(statements_model(Seq::<Statement>::empty()) =~= Seq::<StatementModel>::empty());
    assert(blocks_model(Seq::<Block>::empty()) =~= Seq::<Seq<StatementModel>>::empty());
    assert(params_model(Seq::<ArgDecl>::empty()) =~= Seq::<Seq<char>>::empty());
}

impl If {
    /// Every condition has its branch.
    pub open spec fn well_formed(&self) -> bool {
        self.cond@.len() == self.branches@.len()
    }
}

/// Whether every `if` in a statement, at any depth, has a branch for every
/// condition.
pub open spec fn tidy_statement(s: Statement) -> bool
    decreases s,
{
    match s {
        Statement::FUNC_DECL(d) => tidy_statements(d.body.0@),
        Statement::IF(x) => x.well_formed() && tidy_blocks(x.branches@),
        Statement::WHILE(w) => tidy_statements(w.body.0@),
        _ => true,
    }
}

/// Whether every statement of a list is tidy.
pub open spec fn tidy_statements(ss: Seq<Statement>) -> bool
    decreases ss,
{
    forall|i: int| 0 <= i < ss.len() ==> tidy_statement(#[trigger] ss[i])
}

/// Whether every statement of every block of a list is tidy.
pub open spec fn tidy_blocks(bs: Seq<Block>) -> bool
    decreases bs,
{
    forall|i: int| 0 <= i < bs.len() ==> tidy_statements((#[trigger] bs[i]).0@)
}

impl Block {
    /// Every `if` in the block, at any depth, has a branch for every
    /// condition.
    pub open spec fn well_formed(&self) -> bool {
        tidy_statements(self.0@)
    }
}


/// A copy of an expression.
pub fn clone_value(v: &Value) -> (r: Value)
    ensures
        r@ == v@,
    decreases v,
{
    match v {
        Value::VAR(id) => Value::VAR(id.clone()),
        Value::FLOAT(f) => Value::FLOAT(f.clone()),
        Value::INT(i) => Value::INT(*i),
        Value::BOOL(b) => Value::BOOL(*b),
        Value::FUNC_CALL(fc) => Value::FUNC_CALL(
            FuncCall { func_name: fc.func_name.clone(), arg_list: clone_values(&fc.arg_list) },
        ),
    }
}

/// A copy of a list of expressions.
pub fn clone_values(vs: &Vec<Value>) -> (r: Vec<Value>)
    ensures
        values_model(r@) == values_model(vs@),
    decreases vs,
{
    let mut out: Vec<Value> = Vec::with_capacity(vs.len());
    let mut i: usize = 0;
    proof {
        lemma_empty_models();
        assert(vs@.subrange(0, 0) =~= Seq::<Value>::empty());
    }
    while i < vs.len()
        invariant
            i <= vs@.len(),
            values_model(out@) == values_model(vs@.subrange(0, i as int)),
        decreases vs@.len() - i,
    {
        let c = clone_value(&vs[i]);
        proof {
            lemma_values_push(out@, c);
            lemma_values_push(vs@.subrange(0, i as int), vs@[i as int]);
            assert(vs@.subrange(0, i as int).push(vs@[i as int]) =~= vs@.subrange(0, i + 1));
        }
        out.push(c);
        i += 1;
    }
    assert(vs@.subrange(0, vs@.len() as int) =~= vs@);
    out
}

/// A copy of a parameter list.
pub fn clone_params(ps: &Vec<ArgDecl>) -> (r: Vec<ArgDecl>)
    ensures
        params_model(r@) == params_model(ps@),
{
    let mut out: Vec<ArgDecl> = Vec::with_capacity(ps.len());
    let mut i: usize = 0;
    proof {
        lemma_empty_models();
        assert(ps@.subrange(0, 0) =~= Seq::<ArgDecl>::empty());
    }
    while i < ps.len()
        invariant
            i <= ps@.len(),
            params_model(out@) == params_model(ps@.subrange(0, i as int)),
        decreases ps@.len() - i,
    {
        let c = ArgDecl(ps[i].0.clone());
        proof {
            lemma_params_push(out@, c);
            lemma_params_push(ps@.subrange(0, i as int), ps@[i as int]);
            assert(ps@.subrange(0, i as int).push(ps@[i as int]) =~= ps@.subrange(0, i + 1));
        }
        out.push(c);
        i += 1;
    }
    assert(ps@.subrange(0, ps@.len() as int) =~= ps@);
    out
}

/// A copy of a statement.
pub fn clone_statement(s: &Statement) -> (r: Statement)
    ensures
        r@ == s@,
    decreases s,
{
    match s {
        Statement::ASSIGNMENT(a) => Statement::ASSIGNMENT(
            Assign { id: a.id.clone(), val: clone_value(&a.val) },
        ),
        Statement::RETURN(x) => Statement::RETURN(Return(clone_value(&x.0))),
        Statement::EXPRESSION(v) => Statement::EXPRESSION(clone_value(v)),
        Statement::FUNC_DECL(d) => Statement::FUNC_DECL(
            FuncDecl {
                func_name: d.func_name.clone(),
                arg_list: clone_params(&d.arg_list),
                body: Block(clone_statements(&d.body.0)),
            },
        ),
        Statement::IF(x) => Statement::IF(
            If { cond: clone_values(&x.cond), branches: clone_blocks(&x.branches) },
        ),
        Statement::WHILE(w) => Statement::WHILE(
            While { cond: clone_value(&w.cond), body: Block(clone_statements(&w.body.0)) },
        ),
        Statement::NOTHING => Statement::NOTHING,
    }
}

/// A copy of a list of statements.
pub fn clone_statements(ss: &Vec<Statement>) -> (r: Vec<Statement>)
    ensures
        statements_model(r@) == statements_model(ss@),
    decreases ss,
{
    let mut out: Vec<Statement> = Vec::with_capacity(ss.len());
    let mut i: usize = 0;
    proof {
        lemma_empty_models();
        assert(ss@.subrange(0, 0) =~= Seq::<Statement>::empty());
    }
    while i < ss.len()
        invariant
            i <= ss@.len(),
            statements_model(out@) == statements_model(ss@.subrange(0, i as int)),
        decreases ss@.len() - i,
    {
        let c = clone_statement(&ss[i]);
        proof {
            lemma_statements_push(out@, c);
            lemma_statements_push(ss@.subrange(0, i as int), ss@[i as int]);
            assert(ss@.subrange(0, i as int).push(ss@[i as int]) =~= ss@.subrange(0, i + 1));
        }
        out.push(c);
        i += 1;
    }
    assert(ss@.subrange(0, ss@.len() as int) =~= ss@);
    out
}

/// A copy of a list of blocks.
pub fn clone_blocks(bs: &Vec<Block>) -> (r: Vec<Block>)
    ensures
        blocks_model(r@) == blocks_model(bs@),
        r@.len() == bs@.len(),
    decreases bs,
{
    let mut out: Vec<Block> = Vec::with_capacity(bs.len());
    let mut i: usize = 0;
    proof {
        lemma_empty_models();
        assert(bs@.subrange(0, 0) =~= Seq::<Block>::empty());
    }
    while i < bs.len()
        invariant
            i <= bs@.len(),
            out@.len() == i,
            blocks_model(out@) == blocks_model(bs@.subrange(0, i as int)),
        decreases bs@.len() - i,
    {
        let c = Block(clone_statements(&bs[i].0));
        proof {
            lemma_blocks_push(out@, c);
            lemma_blocks_push(bs@.subrange(0, i as int), bs@[i as int]);
            assert(bs@.subrange(0, i as int).push(bs@[i as int]) =~= bs@.subrange(0, i + 1));
        }
        out.push(c);
        i += 1;
    }
    assert(bs@.subrange(0, bs@.len() as int) =~= bs@);
    out
}

impl Clone for Value {
    fn clone(&self) -> (r: Self)
        ensures
            r@ == self@,
    {
        clone_value(self)
    }
}

impl Clone for FuncCall {
    fn clone(&self) -> (r: Self)
        ensures
            r@ == self@,
    {
        FuncCall { func_name: self.func_name.clone(), arg_list: clone_values(&self.arg_list) }
    }
}

impl Clone for ArgDecl {
    fn clone(&self) -> (r: Self)
        ensures
            r@ == self@,
    {
        ArgDecl(self.0.clone())
    }
}

impl Clone for Assign {
    fn clone(&self) -> (r: Self)
        ensures
            r@ == self@,
    {
        Assign { id: self.id.clone(), val: clone_value(&self.val) }
    }
}

impl Clone for Return {
    fn clone(&self) -> (r: Self)
        ensures
            r@ == self@,
    {
        Return(clone_value(&self.0))
    }
}

impl Clone for Statement {
    fn clone(&self) -> (r: Self)
        ensures
            r@ == self@,
    {
        clone_statement(self)
    }
}

impl Clone for Block {
    fn clone(&self) -> (r: Self)
        ensures
            r@ == self@,
    {
        Block(clone_statements(&self.0))
    }
}

impl Clone for FuncDecl {
    fn clone(&self) -> (r: Self)
        ensures
            r@ == self@,
    {
        FuncDecl {
            func_name: self.func_name.clone(),
            arg_list: clone_params(&self.arg_list),
            body: Block(clone_statements(&self.body.0)),
        }
    }
}

impl Clone for If {
    fn clone(&self) -> (r: Self)
        ensures
            r@ == self@,
            self.well_formed() ==> r.well_formed(),
    {
        let cond = clone_values(&self.cond);
        let branches = clone_blocks(&self.branches);
        assert(cond@.len() == values_model(cond@).len());
        assert(self.cond@.len() == values_model(self.cond@).len());
        If { cond, branches }
    }
}

impl Clone for While {
    fn clone(&self) -> (r: Self)
        ensures
            r@ == self@,
    {
        While { cond: clone_value(&self.cond), body: Block(clone_statements(&self.body.0)) }
    }
}

} // verus!
