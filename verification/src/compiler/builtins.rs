//! The functions every program can call without declaring them.

use vstd::prelude::*;

use crate::llvm::TypeRequest;
use crate::parser::Type;
use crate::text::string_of;

verus! {

/// A function every program can call: its name, the LLVM types of its
/// parameters and result, its result's language type, and whether the
/// language's runtime library provides it (otherwise the C library does).
pub struct Builtin {
    pub name: String,
    pub params: Vec<TypeRequest>,
    pub result: TypeRequest,
    pub return_type: Type,
    pub runtime: bool,
}

/// A builtin, as plain values.
#[verifier::ext_equal]
pub struct BuiltinView {
    pub name: Seq<char>,
    pub params: Seq<TypeRequest>,
    pub result: TypeRequest,
    pub return_type: Type,
    pub runtime: bool,
}

impl View for Builtin {
    type V = BuiltinView;

    open spec fn view(&self) -> BuiltinView {
        BuiltinView {
            name: self.name@,
            params: self.params@,
            result: self.result,
            return_type: self.return_type,
            runtime: self.runtime,
        }
    }
}

/// A builtin of the runtime library.
pub open spec fn runtime_fn(
    name: Seq<char>,
    params: Seq<TypeRequest>,
    result: TypeRequest,
    return_type: Type,
) -> BuiltinView {
    BuiltinView { name, params, result, return_type, runtime: true }
}

/// The builtins, in the order they are declared.
pub open spec fn builtin_table() -> Seq<BuiltinView> {
    seq![
        runtime_fn("string"@, seq![TypeRequest::Double], TypeRequest::VoidPointer, Type::String),
        runtime_fn("print"@, seq![TypeRequest::VoidPointer], TypeRequest::Void, Type::Void),
        runtime_fn(
            "release_string_reference"@,
            seq![TypeRequest::VoidPointer],
            TypeRequest::Void,
            Type::Void,
        ),
        runtime_fn(
            "inc_string_reference"@,
            seq![TypeRequest::VoidPointer],
            TypeRequest::Void,
            Type::Void,
        ),
        runtime_fn("inc_vec_reference"@, seq![TypeRequest::VoidPointer], TypeRequest::Void, Type::Void),
        runtime_fn(
            "release_vec_reference"@,
            seq![TypeRequest::VoidPointer],
            TypeRequest::Void,
            Type::Void,
        ),
        runtime_fn(
            "c_string_from_string"@,
            seq![TypeRequest::VoidPointer],
            TypeRequest::I8Pointer,
            Type::CString,
        ),
        runtime_fn(
            "string_from_c_string"@,
            seq![TypeRequest::I8Pointer],
            TypeRequest::VoidPointer,
            Type::String,
        ),
        runtime_fn("vec_new"@, seq![], TypeRequest::VoidPointer, Type::Vector),
        runtime_fn(
            "vec_set"@,
            seq![TypeRequest::VoidPointer, TypeRequest::Double, TypeRequest::Double],
            TypeRequest::Void,
            Type::Void,
        ),
        runtime_fn(
            "vec_get"@,
            seq![TypeRequest::VoidPointer, TypeRequest::Double],
            TypeRequest::Double,
            Type::Numeric,
        ),
        BuiltinView {
            name: "sqrt"@,
            params: seq![TypeRequest::Double],
            result: TypeRequest::Double,
            return_type: Type::Numeric,
            runtime: false,
        },
    ]
}

fn builtin(
    name: &str,
    params: Vec<TypeRequest>,
    result: TypeRequest,
    return_type: Type,
    runtime: bool,
) -> (b: Builtin)
    ensures
        b@ == (BuiltinView { name: name@, params: params@, result, return_type, runtime }),
{
    Builtin { name: string_of(name), params, result, return_type, runtime }
}

/// The builtins, in the order they are declared.
pub fn builtins() -> (r: Vec<Builtin>)
    ensures
        r@.map_values(|b: Builtin| b@) == builtin_table(),
{
    let vp = TypeRequest::VoidPointer;
    let d = TypeRequest::Double;
    let mut r: Vec<Builtin> = Vec::new();
    r.push(builtin("string", vec![d], vp, Type::String, true));
    r.push(builtin("print", vec![vp], TypeRequest::Void, Type::Void, true));
    r.push(builtin("release_string_reference", vec![vp], TypeRequest::Void, Type::Void, true));
    r.push(builtin("inc_string_reference", vec![vp], TypeRequest::Void, Type::Void, true));
    r.push(builtin("inc_vec_reference", vec![vp], TypeRequest::Void, Type::Void, true));
    r.push(builtin("release_vec_reference", vec![vp], TypeRequest::Void, Type::Void, true));
    r.push(builtin("c_string_from_string", vec![vp], TypeRequest::I8Pointer, Type::CString, true));
    r.push(builtin("string_from_c_string", vec![TypeRequest::I8Pointer], vp, Type::String, true));
    r.push(builtin("vec_new", vec![], vp, Type::Vector, true));
    r.push(builtin("vec_set", vec![vp, d, d], TypeRequest::Void, Type::Void, true));
    r.push(builtin("vec_get", vec![vp, d], d, Type::Numeric, true));
    r.push(builtin("sqrt", vec![d], d, Type::Numeric, false));
    assert(r@.len() == 12);
    assert(r@[0]@ =~= builtin_table()[0]);
    assert(r@[1]@ =~= builtin_table()[1]);
    assert(r@[2]@ =~= builtin_table()[2]);
    assert(r@[3]@ =~= builtin_table()[3]);
    assert(r@[4]@ =~= builtin_table()[4]);
    assert(r@[5]@ =~= builtin_table()[5]);
    assert(r@[6]@ =~= builtin_table()[6]);
    assert(r@[7]@ =~= builtin_table()[7]);
    assert(r@[8]@ =~= builtin_table()[8]);
    assert(r@[9]@ =~= builtin_table()[9]);
    assert(r@[10]@ =~= builtin_table()[10]);
    assert(r@[11]@ =~= builtin_table()[11]);
    assert(r@.map_values(|b: Builtin| b@) =~= builtin_table());
    r
}

/// Each builtin's language result type agrees with its LLVM result type: it
/// returns nothing exactly when its LLVM result is `void`, a number exactly when
/// it is a `double`, a C string exactly when it is an `i8*`, and a string or a
/// vector of the runtime exactly when it is a `void*`.
pub proof fn lemma_builtin_result_types_agree(i: int)
    requires
        0 <= i < builtin_table().len(),
    ensures
        (builtin_table()[i].result == TypeRequest::Void) == (builtin_table()[i].return_type == Type::Void),
        (builtin_table()[i].result == TypeRequest::Double) == (builtin_table()[i].return_type
            == Type::Numeric),
        (builtin_table()[i].result == TypeRequest::I8Pointer) == (builtin_table()[i].return_type
            == Type::CString),
        (builtin_table()[i].result == TypeRequest::VoidPointer) == (builtin_table()[i].return_type
            == Type::String || builtin_table()[i].return_type == Type::Vector),
{
}

} // verus!
