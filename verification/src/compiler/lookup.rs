//! Which binding a name denotes: builtins before variables for a call, inner
//! scopes before outer ones, and variables before parameters.

use vstd::prelude::*;

use crate::compiler::bindings::Bindings;
use crate::compiler::scope::Scope;
use crate::compiler::value::Value;
use crate::compiler::variable::Variable;
use crate::compiler::CompilerError;
use crate::text::string_of;

verus! {

/// Every scope of the stack is well formed.
pub open spec fn scopes_wf(scopes: Seq<Scope>) -> bool {
    forall|i: int| 0 <= i < scopes.len() ==> #[trigger] scopes[i].wf()
}

/// The variable `name` is bound to in the innermost scope of `scopes` (the last)
/// that binds it as a variable.
pub open spec fn scoped_variable(scopes: Seq<Scope>, name: Seq<char>) -> Option<Variable>
    decreases scopes.len(),
{
    if scopes.len() == 0 {
        None
    } else if scopes.last().variables().contains_key(name) {
        Some(scopes.last().variables()[name])
    } else {
        scoped_variable(scopes.drop_last(), name)
    }
}

/// The parameter `name` is bound to in the innermost scope of `scopes` that
/// binds it as a parameter.
pub open spec fn scoped_parameter(scopes: Seq<Scope>, name: Seq<char>) -> Option<Value>
    decreases scopes.len(),
{
    if scopes.len() == 0 {
        None
    } else if scopes.last().parameters().contains_key(name) {
        Some(scopes.last().parameters()[name])
    } else {
        scoped_parameter(scopes.drop_last(), name)
    }
}

/// What an identifier read as a value denotes.
#[derive(Clone, Copy, Debug, PartialEq)]
pub enum Resolved {
    /// A variable, whose value is loaded from where it is stored.
    Variable(Variable),
    /// A parameter of the function being generated.
    Parameter(Value),
}

/// What `name` denotes in `scopes`: a variable of any scope before a parameter
/// of any scope; `None` where it is neither.
pub open spec fn identifier_binding(scopes: Seq<Scope>, name: Seq<char>) -> Option<Resolved> {
    match scoped_variable(scopes, name) {
        Some(v) => Some(Resolved::Variable(v)),
        None => match scoped_parameter(scopes, name) {
            Some(p) => Some(Resolved::Parameter(p)),
            None => None,
        },
    }
}

/// What `name` denotes as a callee: a builtin before any variable.
pub open spec fn callee_binding(
    builtins: Map<Seq<char>, Variable>,
    scopes: Seq<Scope>,
    name: Seq<char>,
) -> Option<Variable> {
    if builtins.contains_key(name) {
        Some(builtins[name])
    } else {
        scoped_variable(scopes, name)
    }
}

/// The error for a name that denotes nothing.
pub open spec fn is_undefined(e: CompilerError, name: Seq<char>) -> bool {
    e matches CompilerError::UndefinedIdentifier(s) && s@ == name
}

/// The variable `name` is bound to in the innermost scope that binds it.
pub fn get_var(scopes: &Vec<Scope>, name: &str) -> (r: Option<Variable>)
    requires
        scopes_wf(scopes@),
    ensures
        r == scoped_variable(scopes@, name@),
{
    let mut i: usize = scopes.len();
    assert(scopes@.take(i as int) =~= scopes@);
    while i > 0
        invariant
            i <= scopes.len(),
            scopes_wf(scopes@),
            scoped_variable(scopes@, name@) == scoped_variable(scopes@.take(i as int), name@),
        decreases i,
    {
        let ghost prefix = scopes@.take(i as int);
        assert(prefix.last() == scopes@[i - 1]);
        assert(prefix.drop_last() =~= scopes@.take(i - 1));
        assert(scopes@[i - 1].wf());
        if let Some(v) = scopes[i - 1].get(name) {
            return Some(*v);
        }
        i = i - 1;
    }
    None
}

/// The parameter `name` is bound to in the innermost scope that binds it.
pub fn get_param(scopes: &Vec<Scope>, name: &str) -> (r: Option<Value>)
    requires
        scopes_wf(scopes@),
    ensures
        r == scoped_parameter(scopes@, name@),
{
    let mut i: usize = scopes.len();
    assert(scopes@.take(i as int) =~= scopes@);
    while i > 0
        invariant
            i <= scopes.len(),
            scopes_wf(scopes@),
            scoped_parameter(scopes@, name@) == scoped_parameter(scopes@.take(i as int), name@),
        decreases i,
    {
        let ghost prefix = scopes@.take(i as int);
        assert(prefix.last() == scopes@[i - 1]);
        assert(prefix.drop_last() =~= scopes@.take(i - 1));
        assert(scopes@[i - 1].wf());
        if let Some(v) = scopes[i - 1].get_param(name) {
            return Some(*v);
        }
        i = i - 1;
    }
    None
}

/// What the identifier `name` denotes when read: a variable of any scope, else a
/// parameter, else `UndefinedIdentifier`.
pub fn resolve_identifier(scopes: &Vec<Scope>, name: &str) -> (r: Result<Resolved, CompilerError>)
    requires
        scopes_wf(scopes@),
    ensures
        match identifier_binding(scopes@, name@) {
            Some(b) => r == Ok::<Resolved, CompilerError>(b),
            None => r matches Err(e) && is_undefined(e, name@),
        },
{
    match get_var(scopes, name) {
        Some(v) => Ok(Resolved::Variable(v)),
        None => match get_param(scopes, name) {
            Some(p) => Ok(Resolved::Parameter(p)),
            None => Err(CompilerError::UndefinedIdentifier(string_of(name))),
        },
    }
}

/// What the callee `name` denotes: a builtin, else a variable of any scope, else
/// `UndefinedIdentifier`. A call resolves its callee before it generates any of
/// its arguments.
pub fn resolve_callee(builtins: &Bindings<Variable>, scopes: &Vec<Scope>, name: &str) -> (r: Result<
    Variable,
    CompilerError,
>)
    requires
        builtins.wf(),
        scopes_wf(scopes@),
    ensures
        match callee_binding(builtins@, scopes@, name@) {
            Some(v) => r == Ok::<Variable, CompilerError>(v),
            None => r matches Err(e) && is_undefined(e, name@),
        },
{
    match builtins.get(name) {
        Some(b) => Ok(*b),
        None => match get_var(scopes, name) {
            Some(v) => Ok(v),
            None => Err(CompilerError::UndefinedIdentifier(string_of(name))),
        },
    }
}

} // verus!
