use crate::ast::FuncDecl;
use vstd::prelude::*;

verus! {

/// The operations that the language has built in.
#[derive(PartialEq, Eq, Structural, Clone, Copy, Debug)]
pub enum NativeOp {
    Add,
    Sub,
    Mul,
    Div,
    Print,
}

/// A built-in function value.
#[derive(PartialEq, Eq, Structural, Clone, Copy, Debug)]
pub struct BuiltInFunc {
    pub execute: NativeOp,
}

/// A value at run time.
///
/// A float is held as the 64 bits of its IEEE 754 binary64 form. A function
/// value is its declaration and nothing else: no scope is captured.
#[derive(PartialEq, Clone, Copy, Debug)]
pub enum PrimitiveType<'a> {
    F64(u64),
    I32(i32),
    FUNCTION(&'a FuncDecl),
    BUILTIN(BuiltInFunc),
    VOID,
}

/// One name and the value bound to it.
#[derive(Debug)]
pub struct Binding<'a> {
    pub name: String,
    pub value: PrimitiveType<'a>,
}

/// A table of bindings and the handle of the scope that encloses it.
///
/// Of two bindings of one name in `local`, the later one counts.
#[derive(Debug)]
pub struct Scope<'a> {
    pub parent: Option<usize>,
    pub local: Vec<Binding<'a>>,
}

/// What a scope is, in mathematical terms.
pub struct ScopeModel<'a> {
    pub parent: Option<usize>,
    pub local: Map<Seq<char>, PrimitiveType<'a>>,
}

/// The map that a list of bindings stands for: a later binding of a name
/// replaces an earlier one.
pub open spec fn bindings_map<'a>(s: Seq<Binding<'a>>) -> Map<Seq<char>, PrimitiveType<'a>>
    decreases s.len(),
{
    if s.len() == 0 {
        Map::empty()
    } else {
        bindings_map(s.drop_last()).insert(s.last().name@, s.last().value)
    }
}

impl<'a> View for Scope<'a> {
    type V = ScopeModel<'a>;

    open spec fn view(&self) -> ScopeModel<'a> {
        ScopeModel { parent: self.parent, local: bindings_map(self.local@) }
    }
}

/// The last binding of a name is the one that the map holds.
pub proof fn lemma_last_binding_counts<'a>(s: Seq<Binding<'a>>, k: int, name: Seq<char>)
    requires
        0 <= k < s.len(),
        s[k].name@ == name,
        forall|j: int| k < j < s.len() ==> (#[trigger] s[j]).name@ != name,
    ensures
        bindings_map(s).contains_key(name),
        bindings_map(s)[name] == s[k].value,
    decreases s.len(),
{
    if k < s.len() - 1 {
        lemma_last_binding_counts(s.drop_last(), k, name);
    }
}

/// A name that no binding has is not in the map.
pub proof fn lemma_unbound_is_absent<'a>(s: Seq<Binding<'a>>, name: Seq<char>)
    requires
        forall|j: int| 0 <= j < s.len() ==> (#[trigger] s[j]).name@ != name,
    ensures
        !bindings_map(s).contains_key(name),
    decreases s.len(),
{
    if s.len() > 0 {
        lemma_unbound_is_absent(s.drop_last(), name);
    }
}

/// Replacing the last binding of a name is an insertion into the map.
pub proof fn lemma_replace_last_binding<'a>(s: Seq<Binding<'a>>, k: int, b: Binding<'a>)
    requires
        0 <= k < s.len(),
        s[k].name@ == b.name@,
        forall|j: int| k < j < s.len() ==> (#[trigger] s[j]).name@ != b.name@,
    ensures
        bindings_map(s.update(k, b)) == bindings_map(s).insert(b.name@, b.value),
    decreases s.len(),
{
    let t = s.update(k, b);
    if k == s.len() - 1 {
        assert(t.drop_last() =~= s.drop_last());
        assert(bindings_map(t) =~= bindings_map(s).insert(b.name@, b.value));
    } else {
        lemma_replace_last_binding(s.drop_last(), k, b);
        assert(t.drop_last() =~= s.drop_last().update(k, b));
        assert(t.last() == s.last());
        assert(bindings_map(t) =~= bindings_map(s).insert(b.name@, b.value));
    }
}

impl<'a> Scope<'a> {
    /// No name is bound twice.
    pub open spec fn well_formed(&self) -> bool {
        forall|i: int, j: int|
            0 <= i < j < self.local@.len() ==> (#[trigger] self.local@[i]).name@
                != (#[trigger] self.local@[j]).name@
    }

    /// A scope without bindings.
    pub fn new(parent: Option<usize>) -> (r: Scope<'a>)
        ensures
            r@.parent == parent,
            r@.local == Map::<Seq<char>, PrimitiveType<'a>>::empty(),
            r.well_formed(),
    {
        Scope { parent, local: Vec::new() }
    }

    /// The place of the last binding of `name`, if it has one.
    fn find(&self, name: &String) -> (r: Option<usize>)
        ensures
            match r {
                Some(k) => k < self.local@.len() && self.local@[k as int].name@ == name@
                    && forall|j: int|
                    k < j < self.local@.len() ==> (#[trigger] self.local@[j]).name@ != name@,
                None => forall|j: int|
                    0 <= j < self.local@.len() ==> (#[trigger] self.local@[j]).name@ != name@,
            },
    {
        let mut i: usize = self.local.len();
        while i > 0
            invariant
                i <= self.local@.len(),
                forall|j: int|
                    i <= j < self.local@.len() ==> (#[trigger] self.local@[j]).name@ != name@,
            decreases i,
        {
            i -= 1;
            if self.local[i].name == *name {
                return Some(i);
            }
        }
        None
    }

    /// The value bound to `name` in this scope itself.
    pub fn get(&self, name: &String) -> (r: Option<PrimitiveType<'a>>)
        ensures
            r == (if self@.local.contains_key(name@) {
                Some(self@.local[name@])
            } else {
                None
            }),
    {
        match self.find(name) {
            Some(k) => {
                proof {
                    lemma_last_binding_counts(self.local@, k as int, name@);
                }
                Some(self.local[k].value)
            },
            None => {
                proof {
                    lemma_unbound_is_absent(self.local@, name@);
                }
                None
            },
        }
    }

    /// Binds `name` to `value` in this scope; an earlier binding of the name is
    /// replaced.
    pub fn set(&mut self, name: String, value: PrimitiveType<'a>)
        ensures
            final(self)@.parent == old(self)@.parent,
            final(self)@.local == old(self)@.local.insert(name@, value),
            old(self).well_formed() ==> final(self).well_formed(),
    {
        match self.find(&name) {
            Some(k) => {
                let b = Binding { name, value };
                proof {
                    lemma_replace_last_binding(self.local@, k as int, b);
                }
                self.local.set(k, b);
            },
            None => {
                let b = Binding { name, value };
                proof {
                    assert(self.local@.push(b).drop_last() =~= self.local@);
                }
                self.local.push(b);
            },
        }
    }
}

} // verus!
