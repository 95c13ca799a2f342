//! The values expressions compile to.

use vstd::prelude::*;

use crate::llvm;
use crate::llvm::TypeRequest;
use crate::parser;

verus! {

/// What an expression compiles to: nothing, a loop exit, or an LLVM value of a
/// language type.
#[derive(Debug, Clone, Copy, PartialEq)]
pub enum Value {
    Void,
    String(llvm::Value),
    CString(llvm::Value),
    Numeric(llvm::Value),
    Bool(llvm::Value),
    Function { val: llvm::Function, typ: llvm::Type, return_type: parser::Type },
    Vec(llvm::Value),
    Break,
    Ptr(llvm::Value),
}

/// The language type of a value; nothing and a loop exit are `Void`.
pub open spec fn value_type(v: Value) -> parser::Type {
    match v {
        Value::Void | Value::Break => parser::Type::Void,
        Value::Numeric(_) => parser::Type::Numeric,
        Value::Bool(_) => parser::Type::Bool,
        Value::Ptr(_) => parser::Type::Ptr,
        Value::String(_) => parser::Type::String,
        Value::Vec(_) => parser::Type::Vector,
        Value::Function { .. } => parser::Type::Function,
        Value::CString(_) => parser::Type::CString,
    }
}

/// Whether the value has an LLVM type the code generator can allocate: it is
/// neither nothing, a loop exit, nor a C string.
pub open spec fn storable(v: Value) -> bool {
    !(v is Void || v is Break || v is CString)
}

/// The LLVM type of a storable value.
pub open spec fn value_llvm_type(v: Value) -> TypeRequest {
    match v {
        Value::Numeric(_) => TypeRequest::Double,
        Value::Bool(_) => TypeRequest::I1,
        Value::Function { typ, .. } => TypeRequest::PointerTo(typ),
        _ => TypeRequest::VoidPointer,
    }
}

/// The LLVM value of a storable value; a function is its function value.
pub open spec fn value_of(v: Value) -> llvm::Value {
    match v {
        Value::String(lv) => lv,
        Value::Numeric(lv) => lv,
        Value::Bool(lv) => lv,
        Value::Function { val, .. } => llvm::Value(val.0),
        Value::Vec(lv) => lv,
        Value::Ptr(lv) => lv,
        Value::CString(lv) => lv,
        _ => llvm::Value(0),
    }
}

impl Value {
    /// The language type of the value.
    pub fn get_type(&self) -> (r: parser::Type)
        ensures
            r == value_type(*self),
    {
        match self {
            Value::Void | Value::Break => parser::Type::Void,
            Value::Numeric(_) => parser::Type::Numeric,
            Value::Bool(_) => parser::Type::Bool,
            Value::Ptr(_) => parser::Type::Ptr,
            Value::String(_) => parser::Type::String,
            Value::Vec(_) => parser::Type::Vector,
            Value::Function { .. } => parser::Type::Function,
            Value::CString(_) => parser::Type::CString,
        }
    }

    /// The LLVM type of the value: pointers for strings, vectors, pointers and
    /// functions.
    pub fn llvm_type(&self) -> (r: TypeRequest)
        requires
            storable(*self),
        ensures
            r == value_llvm_type(*self),
    {
        match self {
            Value::Numeric(_) => TypeRequest::Double,
            Value::Bool(_) => TypeRequest::I1,
            Value::Function { typ, .. } => TypeRequest::PointerTo(*typ),
            _ => TypeRequest::VoidPointer,
        }
    }

    /// The LLVM value of the value.
    pub fn llvm_value(&self) -> (r: llvm::Value)
        requires
            !(*self is Void || *self is Break),
        ensures
            r == value_of(*self),
    {
        match self {
            Value::String(lv) => *lv,
            Value::Numeric(lv) => *lv,
            Value::Bool(lv) => *lv,
            Value::Function { val, .. } => llvm::Value(val.0),
            Value::Vec(lv) => *lv,
            Value::Ptr(lv) => *lv,
            Value::CString(lv) => *lv,
            _ => llvm::Value(0),
        }
    }
}

} // verus!
