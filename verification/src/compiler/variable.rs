//! The variables of a scope, as the code generator stores them.

use vstd::prelude::*;

use crate::llvm;
use crate::llvm::TypeRequest;
use crate::parser;

verus! {

/// A variable: its type and the LLVM value that holds it.
#[derive(Debug, Clone, Copy, PartialEq)]
pub enum Variable {
    String(llvm::Value),
    Numeric(llvm::Value),
    Bool(llvm::Value),
    Function { val: llvm::Function, typ: llvm::Type, return_type: parser::Type },
    Vec(llvm::Value),
    Ptr(llvm::Value),
}

/// The address of the LLVM value that holds a variable.
pub open spec fn address(v: Variable) -> usize {
    match v {
        Variable::String(lv) => lv.0,
        Variable::Numeric(lv) => lv.0,
        Variable::Bool(lv) => lv.0,
        Variable::Function { val, .. } => val.0,
        Variable::Vec(lv) => lv.0,
        Variable::Ptr(lv) => lv.0,
    }
}

/// The language type of a variable.
pub open spec fn type_of(v: Variable) -> parser::Type {
    match v {
        Variable::Numeric(_) => parser::Type::Numeric,
        Variable::Bool(_) => parser::Type::Bool,
        Variable::Ptr(_) => parser::Type::Ptr,
        Variable::String(_) => parser::Type::String,
        Variable::Vec(_) => parser::Type::Vector,
        Variable::Function { .. } => parser::Type::Function,
    }
}

/// `v` with its value moved to `addr`.
pub open spec fn moved_to(v: Variable, addr: usize) -> Variable {
    match v {
        Variable::String(_) => Variable::String(llvm::Value(addr)),
        Variable::Numeric(_) => Variable::Numeric(llvm::Value(addr)),
        Variable::Bool(_) => Variable::Bool(llvm::Value(addr)),
        Variable::Function { typ, return_type, .. } => Variable::Function {
            val: llvm::Function(addr),
            typ,
            return_type,
        },
        Variable::Vec(_) => Variable::Vec(llvm::Value(addr)),
        Variable::Ptr(_) => Variable::Ptr(llvm::Value(addr)),
    }
}

/// The LLVM type of a variable: pointers for strings, vectors, pointers and
/// functions.
pub open spec fn variable_llvm_type(v: Variable) -> TypeRequest {
    match v {
        Variable::Numeric(_) => TypeRequest::Double,
        Variable::Bool(_) => TypeRequest::I1,
        Variable::Ptr(_) => TypeRequest::VoidPointer,
        Variable::String(_) => TypeRequest::VoidPointer,
        Variable::Vec(_) => TypeRequest::VoidPointer,
        Variable::Function { typ, .. } => TypeRequest::PointerTo(typ),
    }
}

impl From<Variable> for llvm::Value {
    /// The LLVM value that holds the variable.
    fn from(v: Variable) -> (r: Self) {
        match v {
            Variable::String(lv) => lv,
            Variable::Numeric(lv) => lv,
            Variable::Bool(lv) => lv,
            Variable::Function { val, .. } => llvm::Value(val.0),
            Variable::Vec(lv) => lv,
            Variable::Ptr(lv) => lv,
        }
    }
}

impl vstd::std_specs::convert::FromSpecImpl<Variable> for llvm::Value {
    open spec fn obeys_from_spec() -> bool {
        true
    }

    open spec fn from_spec(v: Variable) -> Self {
        llvm::Value(address(v))
    }
}

impl<'a> From<&'a Variable> for llvm::Value {
    /// The LLVM value that holds the variable.
    fn from(v: &'a Variable) -> (r: Self) {
        match *v {
            Variable::String(lv) => lv,
            Variable::Numeric(lv) => lv,
            Variable::Bool(lv) => lv,
            Variable::Function { val, .. } => llvm::Value(val.0),
            Variable::Vec(lv) => lv,
            Variable::Ptr(lv) => lv,
        }
    }
}

impl<'a> vstd::std_specs::convert::FromSpecImpl<&'a Variable> for llvm::Value {
    open spec fn obeys_from_spec() -> bool {
        true
    }

    open spec fn from_spec(v: &'a Variable) -> Self {
        llvm::Value(address(*v))
    }
}

impl Variable {
    /// The LLVM type of the variable.
    pub fn llvm_type(&self) -> (r: TypeRequest)
        ensures
            r == variable_llvm_type(*self),
    {
        match self {
            Variable::Numeric(_) => TypeRequest::Double,
            Variable::Bool(_) => TypeRequest::I1,
            Variable::Ptr(_) => TypeRequest::VoidPointer,
            Variable::String(_) => TypeRequest::VoidPointer,
            Variable::Vec(_) => TypeRequest::VoidPointer,
            Variable::Function { typ, .. } => TypeRequest::PointerTo(*typ),
        }
    }

    /// The language type of the variable.
    pub fn get_type(&self) -> (r: parser::Type)
        ensures
            r == type_of(*self),
    {
        match self {
            Variable::Numeric(_) => parser::Type::Numeric,
            Variable::Bool(_) => parser::Type::Bool,
            Variable::Ptr(_) => parser::Type::Ptr,
            Variable::String(_) => parser::Type::String,
            Variable::Vec(_) => parser::Type::Vector,
            Variable::Function { .. } => parser::Type::Function,
        }
    }

    /// Moves the variable's value to `ptr`, keeping its type.
    pub fn set_value(&mut self, ptr: llvm::Value)
        ensures
            *final(self) == moved_to(*old(self), ptr.0),
    {
        match self {
            Variable::String(v) => {
                v.0 = ptr.0;
            },
            Variable::Numeric(v) => {
                v.0 = ptr.0;
            },
            Variable::Bool(v) => {
                v.0 = ptr.0;
            },
            Variable::Function { val, .. } => {
                val.0 = ptr.0;
            },
            Variable::Vec(v) => {
                v.0 = ptr.0;
            },
            Variable::Ptr(v) => {
                v.0 = ptr.0;
            },
        }
    }
}

/// Moving a variable's value keeps its type, the variable is then held at the
/// new address, and moving it back restores it.
pub proof fn lemma_set_value_keeps_type(v: Variable, addr: usize)
    ensures
        type_of(moved_to(v, addr)) == type_of(v),
        address(moved_to(v, addr)) == addr,
        moved_to(moved_to(v, addr), address(v)) == v,
{
}

} // verus!
