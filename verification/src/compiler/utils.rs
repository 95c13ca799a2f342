//! The LLVM types of the language's types.

use vstd::prelude::*;

use crate::llvm::TypeRequest;
use crate::parser::Type;

verus! {

/// The LLVM type a value of type `typ` has; a function has none of its own.
/// Strings of either kind are pointers to `i8`.
pub open spec fn llvm_type_of(typ: Type) -> Option<TypeRequest> {
    match typ {
        Type::Vector => Some(TypeRequest::VoidPointer),
        Type::Numeric => Some(TypeRequest::Double),
        Type::Function => None,
        Type::Void => Some(TypeRequest::Void),
        Type::Ptr => Some(TypeRequest::VoidPointer),
        Type::String => Some(TypeRequest::I8Pointer),
        Type::CString => Some(TypeRequest::I8Pointer),
        Type::Bool => Some(TypeRequest::I1),
    }
}

/// The LLVM type a value of type `typ` has.
pub fn get_llvm_type(typ: &Type) -> (r: TypeRequest)
    requires
        *typ != Type::Function,
    ensures
        llvm_type_of(*typ) == Some(r),
{
    match typ {
        Type::Vector => TypeRequest::VoidPointer,
        Type::Numeric => TypeRequest::Double,
        Type::Void => TypeRequest::Void,
        Type::Ptr => TypeRequest::VoidPointer,
        Type::String => TypeRequest::I8Pointer,
        Type::CString => TypeRequest::I8Pointer,
        Type::Bool => TypeRequest::I1,
        Type::Function => TypeRequest::Void,
    }
}

} // verus!
