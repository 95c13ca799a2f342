//! Handles naming the LLVM objects the code generator works with. Each holds
//! the address of the object it names; the LLVM library itself is driven by the
//! program around this library, which turns addresses into objects and back.

use vstd::prelude::*;

use crate::text::string_of;

verus! {

/// A value: an instruction, a constant, a global or a function.
#[derive(Clone, Copy, Debug, PartialEq, Eq)]
pub struct Value(pub usize);

/// An integer constant of type `i32`.
#[derive(Clone, Copy, Debug, PartialEq, Eq)]
pub struct I32(pub usize);

/// A type.
#[derive(Clone, Copy, Debug, PartialEq, Eq)]
pub struct Type(pub usize);

impl Type {
    /// The type at address `typ`.
    pub fn new(typ: usize) -> (t: Self)
        ensures
            t.0 == typ,
    {
        Type(typ)
    }
}

/// The type of a function.
#[derive(Clone, Copy, Debug, PartialEq, Eq)]
pub struct FunctionType(pub usize);

/// A function.
#[derive(Clone, Copy, Debug, PartialEq, Eq)]
pub struct Function(pub usize);

/// A basic block of a function.
#[derive(Clone, Copy, Debug, PartialEq, Eq)]
pub struct BasicBlock(pub usize);

impl BasicBlock {
    /// The basic block at address `block`.
    pub fn new(block: usize) -> (b: Self)
        ensures
            b.0 == block,
    {
        BasicBlock(block)
    }
}

/// A context: the owner of types and constants.
#[derive(Debug, PartialEq, Eq)]
pub struct Context(pub usize);

/// An instruction builder.
#[derive(Debug, PartialEq, Eq)]
pub struct Builder(pub usize);

impl Builder {
    /// The builder at address `ptr`.
    pub fn from(ptr: usize) -> (b: Self)
        ensures
            b.0 == ptr,
    {
        Builder(ptr)
    }
}

/// An execution engine that compiles a module to machine code and runs it.
#[derive(Debug, PartialEq, Eq)]
pub struct Engine(pub usize);

impl Engine {
    /// The execution engine at address `ptr`.
    pub fn from(ptr: usize) -> (e: Self)
        ensures
            e.0 == ptr,
    {
        Engine(ptr)
    }
}

/// A module: the unit of code the engine compiles.
#[derive(Debug, PartialEq, Eq)]
pub struct Module(pub usize);

impl Module {
    /// The module at address `ptr`.
    pub fn from_context(ptr: usize) -> (m: Self)
        ensures
            m.0 == ptr,
    {
        Module(ptr)
    }
}

/// An LLVM type, in the terms the code generator asks the context for it.
#[derive(Clone, Copy, Debug, PartialEq, Eq)]
pub enum TypeRequest {
    /// `double`.
    Double,
    /// `i1`.
    I1,
    /// `void`.
    Void,
    /// A pointer to `void`.
    VoidPointer,
    /// A pointer to `i8`.
    I8Pointer,
    /// A pointer to the given type.
    PointerTo(Type),
}

/// The comparisons a builder emits.
#[derive(Clone, Copy, Debug, PartialEq, Eq)]
pub enum Cmp {
    Less,
    LessOrEqual,
    Equal,
    NotEqual,
    Greater,
    GreaterOrEqual,
}

/// A failure reported by LLVM.
#[derive(Clone, Debug, PartialEq, Eq)]
pub struct LLVMError {}

impl LLVMError {
    /// `LLVMError`.
    pub fn to_string(&self) -> (r: String)
        ensures
            r@ == "LLVMError"@,
    {
        string_of("LLVMError")
    }
}

} // verus!
