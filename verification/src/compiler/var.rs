//! The variables of a frame, as the code generator stores them.

use vstd::prelude::*;

use crate::llvm;
use crate::parser;

verus! {

/// A variable: the kind of value it holds and where the value is.
#[derive(Debug, Clone, Copy, PartialEq)]
pub enum Var {
    Numeric(llvm::Value),
    Null,
    String(llvm::Value),
    Vec(llvm::Value),
    GlobalString(llvm::Value),
    Bool(llvm::Value),
    Function { val: llvm::Value, typ: llvm::Type, return_type: parser::Type },
}

/// The storage the generated code releases when the variable is dropped: that of
/// a vector, and of nothing else.
pub open spec fn released(v: Var) -> Option<llvm::Value> {
    match v {
        Var::Vec(p) => Some(p),
        _ => None,
    }
}

impl Var {
    /// The vector whose storage the generated code releases, by a call of the
    /// runtime's `vecfree` on the value stored at it, when this variable is
    /// dropped; `None` for a variable of any other kind.
    pub fn dealloc(&self) -> (r: Option<llvm::Value>)
        ensures
            r == released(*self),
    {
        if let Var::Vec(v) = self {
            Some(*v)
        } else {
            None
        }
    }
}

} // verus!
