//! A scope: the variables and parameters visible in one block being generated.

use vstd::prelude::*;

use crate::compiler::bindings::{has_name, lemma_bindings, Bindings};
use crate::compiler::rules::{release_variable, variable_release, Operand, Runtime, RuntimeCall};
use crate::compiler::value::Value;
use crate::compiler::variable::Variable;

verus! {

/// The calls that release what the variables of `es` hold, in order.
pub open spec fn variable_releases(es: Seq<(Seq<char>, Variable)>) -> Seq<RuntimeCall>
    decreases es.len(),
{
    if es.len() == 0 {
        Seq::empty()
    } else {
        match variable_release(es.last().1) {
            Some(c) => variable_releases(es.drop_last()).push(c),
            None => variable_releases(es.drop_last()),
        }
    }
}

/// The call that releases a parameter: a string or a vector loses the reference
/// the function took.
pub open spec fn param_release(v: Value) -> Option<RuntimeCall> {
    match v {
        Value::String(s) => Some(
            RuntimeCall { function: Runtime::ReleaseString, operand: Operand::Value(s) },
        ),
        Value::Vec(s) => Some(
            RuntimeCall { function: Runtime::ReleaseVec, operand: Operand::Value(s) },
        ),
        _ => None,
    }
}

/// The calls that release the parameters of `es`, in order.
pub open spec fn param_releases(es: Seq<(Seq<char>, Value)>) -> Seq<RuntimeCall>
    decreases es.len(),
{
    if es.len() == 0 {
        Seq::empty()
    } else {
        match param_release(es.last().1) {
            Some(c) => param_releases(es.drop_last()).push(c),
            None => param_releases(es.drop_last()),
        }
    }
}

/// Whether a parameter's value is one a scope can release: neither nothing, a
/// loop exit nor a C string.
pub open spec fn releasable(v: Value) -> bool {
    !(v is Void || v is Break || v is CString)
}

/// The variables and parameters of one block being generated.
pub struct Scope {
    env: Bindings<Variable>,
    params: Bindings<Value>,
}

impl Scope {
    /// The variables by name.
    pub closed spec fn variables(&self) -> Map<Seq<char>, Variable> {
        self.env@
    }

    /// The parameters by name.
    pub closed spec fn parameters(&self) -> Map<Seq<char>, Value> {
        self.params@
    }

    /// The variables, in the order they were first bound.
    pub closed spec fn variable_entries(&self) -> Seq<(Seq<char>, Variable)> {
        self.env.entries()
    }

    /// The parameters, in the order they were first bound.
    pub closed spec fn parameter_entries(&self) -> Seq<(Seq<char>, Value)> {
        self.params.entries()
    }

    /// No name is bound twice.
    pub closed spec fn wf(&self) -> bool {
        self.env.wf() && self.params.wf()
    }

    /// An empty scope.
    pub fn new() -> (s: Self)
        ensures
            s.wf(),
            s.variables() == Map::<Seq<char>, Variable>::empty(),
            s.parameters() == Map::<Seq<char>, Value>::empty(),
            s.variable_entries() == Seq::<(Seq<char>, Variable)>::empty(),
            s.parameter_entries() == Seq::<(Seq<char>, Value)>::empty(),
    {
        Scope { params: Bindings::new(), env: Bindings::new() }
    }

    /// The variable `literal` is bound to.
    pub fn get(&self, literal: &str) -> (r: Option<&Variable>)
        requires
            self.wf(),
        ensures
            match r {
                Some(v) => self.variables().contains_key(literal@) && *v == self.variables()[literal@],
                None => !self.variables().contains_key(literal@),
            },
    {
        self.env.get(literal)
    }

    /// Binds a new variable `literal` to `val`.
    pub fn set(&mut self, literal: &str, val: Variable)
        requires
            old(self).wf(),
            !old(self).variables().contains_key(literal@),
        ensures
            final(self).wf(),
            final(self).variables() == old(self).variables().insert(literal@, val),
            final(self).variable_entries() == old(self).variable_entries().push((literal@, val)),
            final(self).parameters() == old(self).parameters(),
            final(self).parameter_entries() == old(self).parameter_entries(),
    {
        proof {
            crate::compiler::bindings::lemma_bindings(self.env.entries());
        }
        self.env.set(literal, val);
    }

    /// Binds the parameter `name` to `val`; no variable may have the name.
    pub fn set_param(&mut self, name: &str, val: Value)
        requires
            old(self).wf(),
            !old(self).variables().contains_key(name@),
        ensures
            final(self).wf(),
            final(self).parameters() == old(self).parameters().insert(name@, val),
            final(self).parameter_entries() == crate::compiler::bindings::rebound(
                old(self).parameter_entries(),
                name@,
                val,
            ),
            final(self).variables() == old(self).variables(),
            final(self).variable_entries() == old(self).variable_entries(),
    {
        self.params.set(name, val);
    }

    /// The parameter `name` is bound to.
    pub fn get_param(&self, name: &str) -> (r: Option<&Value>)
        requires
            self.wf(),
        ensures
            match r {
                Some(v) => self.parameters().contains_key(name@) && *v == self.parameters()[name@],
                None => !self.parameters().contains_key(name@),
            },
    {
        self.params.get(name)
    }

    /// The calls the generated code makes when the scope ends: those releasing
    /// what its variables hold, then those releasing its parameters.
    pub fn release_references(&self) -> (r: Vec<RuntimeCall>)
        requires
            forall|i: int|
                0 <= i < self.parameter_entries().len() ==> releasable(
                    #[trigger] self.parameter_entries()[i].1,
                ),
        ensures
            r@ == variable_releases(self.variable_entries()) + param_releases(
                self.parameter_entries(),
            ),
    {
        let mut r: Vec<RuntimeCall> = Vec::new();
        let n = self.env.len();
        let mut i: usize = 0;
        while i < n
            invariant
                n == self.variable_entries().len(),
                i <= n,
                r@ == variable_releases(self.variable_entries().take(i as int)),
            decreases n - i,
        {
            let ghost es = self.variable_entries();
            assert(es.take(i + 1).drop_last() =~= es.take(i as int));
            if let Some(c) = release_variable(self.env.value_at(i)) {
                r.push(c);
            }
            i = i + 1;
        }
        assert(self.variable_entries().take(n as int) =~= self.variable_entries());
        let ghost vars = r@;
        let m = self.params.len();
        let mut j: usize = 0;
        while j < m
            invariant
                m == self.parameter_entries().len(),
                j <= m,
                vars == variable_releases(self.variable_entries()),
                r@ == vars + param_releases(self.parameter_entries().take(j as int)),
            decreases m - j,
        {
            let ghost es = self.parameter_entries();
            assert(es.take(j + 1).drop_last() =~= es.take(j as int));
            let ghost before = r@;
            match self.params.value_at(j) {
                Value::String(s) => {
                    r.push(RuntimeCall { function: Runtime::ReleaseString, operand: Operand::Value(s) });
                },
                Value::Vec(s) => {
                    r.push(RuntimeCall { function: Runtime::ReleaseVec, operand: Operand::Value(s) });
                },
                _ => {},
            }
            assert(r@ =~= vars + param_releases(es.take(j + 1)));
            j = j + 1;
        }
        assert(self.parameter_entries().take(m as int) =~= self.parameter_entries());
        r
    }
}

/// `variable_releases(es)` holds a call exactly where an entry of `es` is released by it.
proof fn lemma_variable_releases_contains(es: Seq<(Seq<char>, Variable)>, c: RuntimeCall)
    ensures
        variable_releases(es).contains(c) <==> exists|i: int|
            0 <= i < es.len() && #[trigger] variable_release(es[i].1) == Some(c),
    decreases es.len(),
{
    if es.len() > 0 {
        let init = es.drop_last();
        let last = es.len() - 1;
        lemma_variable_releases_contains(init, c);
        let before = variable_releases(init);
        if variable_releases(es).contains(c) {
            if before.contains(c) {
                let i = choose|i: int| 0 <= i < init.len() && #[trigger] variable_release(init[i].1) == Some(c);
                assert(es[i] == init[i]);
            } else {
                let k = choose|k: int| 0 <= k < variable_releases(es).len() && variable_releases(es)[k] == c;
                match variable_release(es.last().1) {
                    Some(v) => {
                        assert(variable_releases(es) == before.push(v));
                        assert(before[k] == c || v == c);
                        assert(variable_release(es[last].1) == Some(c));
                    },
                    None => {
                        assert(variable_releases(es) == before);
                    },
                }
            }
        }
        if exists|i: int| 0 <= i < es.len() && #[trigger] variable_release(es[i].1) == Some(c) {
            let i = choose|i: int| 0 <= i < es.len() && #[trigger] variable_release(es[i].1) == Some(c);
            if i < last {
                assert(init[i] == es[i]);
                let k = choose|k: int| 0 <= k < before.len() && before[k] == c;
                match variable_release(es.last().1) {
                    Some(v) => {
                        assert(variable_releases(es)[k] == c);
                    },
                    None => {},
                }
            } else {
                assert(variable_releases(es) == before.push(c));
                assert(variable_releases(es)[before.len() as int] == c);
            }
        }
    }
}

/// `param_releases(es)` holds a call exactly where an entry of `es` is released by it.
proof fn lemma_param_releases_contains(es: Seq<(Seq<char>, Value)>, c: RuntimeCall)
    ensures
        param_releases(es).contains(c) <==> exists|i: int|
            0 <= i < es.len() && #[trigger] param_release(es[i].1) == Some(c),
    decreases es.len(),
{
    if es.len() > 0 {
        let init = es.drop_last();
        let last = es.len() - 1;
        lemma_param_releases_contains(init, c);
        let before = param_releases(init);
        if param_releases(es).contains(c) {
            if before.contains(c) {
                let i = choose|i: int| 0 <= i < init.len() && #[trigger] param_release(init[i].1) == Some(c);
                assert(es[i] == init[i]);
            } else {
                let k = choose|k: int| 0 <= k < param_releases(es).len() && param_releases(es)[k] == c;
                match param_release(es.last().1) {
                    Some(v) => {
                        assert(param_releases(es) == before.push(v));
                        assert(before[k] == c || v == c);
                        assert(param_release(es[last].1) == Some(c));
                    },
                    None => {
                        assert(param_releases(es) == before);
                    },
                }
            }
        }
        if exists|i: int| 0 <= i < es.len() && #[trigger] param_release(es[i].1) == Some(c) {
            let i = choose|i: int| 0 <= i < es.len() && #[trigger] param_release(es[i].1) == Some(c);
            if i < last {
                assert(init[i] == es[i]);
                let k = choose|k: int| 0 <= k < before.len() && before[k] == c;
                match param_release(es.last().1) {
                    Some(v) => {
                        assert(param_releases(es)[k] == c);
                    },
                    None => {},
                }
            } else {
                assert(param_releases(es) == before.push(c));
                assert(param_releases(es)[before.len() as int] == c);
            }
        }
    }
}

/// A well-formed scope's maps are the ones its entries describe: a name is
/// bound exactly where it has an entry, and to that entry's variable or value.
pub proof fn lemma_scope_entries(s: Scope)
    requires
        s.wf(),
    ensures
        forall|name: Seq<char>| #[trigger]
            s.variables().contains_key(name) <==> has_name(s.variable_entries(), name),
        forall|i: int|
            0 <= i < s.variable_entries().len() ==> s.variables()[#[trigger] s.variable_entries()[i].0]
                == s.variable_entries()[i].1,
        forall|name: Seq<char>| #[trigger]
            s.parameters().contains_key(name) <==> has_name(s.parameter_entries(), name),
        forall|i: int|
            0 <= i < s.parameter_entries().len() ==> s.parameters()[#[trigger] s.parameter_entries()[i].0]
                == s.parameter_entries()[i].1,
{
    lemma_bindings(s.env.entries());
    lemma_bindings(s.params.entries());
}

/// What a well-formed scope releases when it ends is exactly what the variables
/// and parameters its names are bound to hold, as [`Scope::get`] and
/// [`Scope::get_param`] read them.
pub proof fn lemma_releases_match_bindings(s: Scope, c: RuntimeCall)
    requires
        s.wf(),
    ensures
        variable_releases(s.variable_entries()).contains(c) <==> exists|name: Seq<char>|
            s.variables().contains_key(name) && variable_release(#[trigger] s.variables()[name])
                == Some(c),
        param_releases(s.parameter_entries()).contains(c) <==> exists|name: Seq<char>|
            s.parameters().contains_key(name) && param_release(#[trigger] s.parameters()[name])
                == Some(c),
{
    let vs = s.variable_entries();
    let ps = s.parameter_entries();
    lemma_scope_entries(s);
    lemma_variable_releases_contains(vs, c);
    lemma_param_releases_contains(ps, c);
    if variable_releases(vs).contains(c) {
        let i = choose|i: int| 0 <= i < vs.len() && #[trigger] variable_release(vs[i].1) == Some(c);
        assert(has_name(vs, vs[i].0));
        assert(s.variables()[vs[i].0] == vs[i].1);
    }
    if exists|name: Seq<char>|
        s.variables().contains_key(name) && variable_release(#[trigger] s.variables()[name]) == Some(c) {
        let name = choose|name: Seq<char>|
            s.variables().contains_key(name) && variable_release(#[trigger] s.variables()[name]) == Some(c);
        assert(has_name(vs, name));
        let i = choose|i: int| 0 <= i < vs.len() && vs[i].0 == name;
        assert(s.variables()[vs[i].0] == vs[i].1);
        assert(variable_release(vs[i].1) == Some(c));
    }
    if param_releases(ps).contains(c) {
        let i = choose|i: int| 0 <= i < ps.len() && #[trigger] param_release(ps[i].1) == Some(c);
        assert(has_name(ps, ps[i].0));
        assert(s.parameters()[ps[i].0] == ps[i].1);
    }
    if exists|name: Seq<char>|
        s.parameters().contains_key(name) && param_release(#[trigger] s.parameters()[name]) == Some(c) {
        let name = choose|name: Seq<char>|
            s.parameters().contains_key(name) && param_release(#[trigger] s.parameters()[name]) == Some(c);
        assert(has_name(ps, name));
        let i = choose|i: int| 0 <= i < ps.len() && ps[i].0 == name;
        assert(s.parameters()[ps[i].0] == ps[i].1);
        assert(param_release(ps[i].1) == Some(c));
    }
}

} // verus!
