//! The decisions the code generator makes about each kind of expression: which
//! values an operation accepts, which error it reports otherwise, which
//! instruction it emits, and which reference-counting calls of the runtime the
//! generated code makes. The code generator performs what these functions
//! decide.

use vstd::prelude::*;

use crate::compiler::value::{storable, value_llvm_type, value_of, value_type, Value};
use crate::compiler::variable::{address, type_of, Variable};
use crate::compiler::CompilerError;
use crate::expression::Operator;
use crate::llvm;
use crate::llvm::{Cmp, TypeRequest};
use crate::parser::{Span, Type};

verus! {

/// The runtime's reference-counting functions.
#[derive(Clone, Copy, Debug, PartialEq, Eq)]
pub enum Runtime {
    /// `release_string_reference`
    ReleaseString,
    /// `release_vec_reference`
    ReleaseVec,
    /// `inc_string_reference`
    RetainString,
    /// `inc_vec_reference`
    RetainVec,
}

/// What a runtime function is called with.
#[derive(Clone, Copy, Debug, PartialEq, Eq)]
pub enum Operand {
    /// The value itself.
    Value(llvm::Value),
    /// The value stored at this pointer, loaded first.
    StoredAt(llvm::Value),
}

/// A call of a runtime function that the generated code makes.
#[derive(Clone, Copy, Debug, PartialEq, Eq)]
pub struct RuntimeCall {
    pub function: Runtime,
    pub operand: Operand,
}

/// The instruction a binary operator compiles to.
#[derive(Clone, Copy, Debug, PartialEq, Eq)]
pub enum BinaryInstruction {
    FAdd,
    FSub,
    FMul,
    FDiv,
    FRem,
    /// A comparison, giving a `Bool`.
    FCmp(Cmp),
}

/// The instruction a binary operator compiles to.
pub open spec fn instruction_of(op: Operator) -> BinaryInstruction {
    match op {
        Operator::Plus => BinaryInstruction::FAdd,
        Operator::Minus => BinaryInstruction::FSub,
        Operator::Asterisk => BinaryInstruction::FMul,
        Operator::Slash => BinaryInstruction::FDiv,
        Operator::Mod => BinaryInstruction::FRem,
        Operator::Equal => BinaryInstruction::FCmp(Cmp::Equal),
        Operator::NotEqual => BinaryInstruction::FCmp(Cmp::NotEqual),
        Operator::Less => BinaryInstruction::FCmp(Cmp::Less),
        Operator::Greater => BinaryInstruction::FCmp(Cmp::Greater),
        Operator::LessOrEqual => BinaryInstruction::FCmp(Cmp::LessOrEqual),
        Operator::GreaterOrEqual => BinaryInstruction::FCmp(Cmp::GreaterOrEqual),
    }
}

/// The instruction `op` compiles to: floating-point arithmetic, or an ordered
/// comparison.
pub fn binary_instruction(op: Operator) -> (r: BinaryInstruction)
    ensures
        r == instruction_of(op),
{
    match op {
        Operator::Plus => BinaryInstruction::FAdd,
        Operator::Minus => BinaryInstruction::FSub,
        Operator::Asterisk => BinaryInstruction::FMul,
        Operator::Slash => BinaryInstruction::FDiv,
        Operator::Mod => BinaryInstruction::FRem,
        Operator::Equal => BinaryInstruction::FCmp(Cmp::Equal),
        Operator::NotEqual => BinaryInstruction::FCmp(Cmp::NotEqual),
        Operator::Less => BinaryInstruction::FCmp(Cmp::Less),
        Operator::Greater => BinaryInstruction::FCmp(Cmp::Greater),
        Operator::LessOrEqual => BinaryInstruction::FCmp(Cmp::LessOrEqual),
        Operator::GreaterOrEqual => BinaryInstruction::FCmp(Cmp::GreaterOrEqual),
    }
}

/// What the result `v` of `instruction` is: a comparison gives a boolean, and
/// arithmetic a number.
pub fn binary_value(instruction: BinaryInstruction, v: llvm::Value) -> (r: Value)
    ensures
        instruction is FCmp ==> r == Value::Bool(v),
        !(instruction is FCmp) ==> r == Value::Numeric(v),
{
    match instruction {
        BinaryInstruction::FCmp(_) => Value::Bool(v),
        _ => Value::Numeric(v),
    }
}

/// The error for a value of the wrong type.
pub open spec fn type_error(expected: Type, v: Value, span: Span) -> CompilerError {
    CompilerError::TypeError { expected, actual: crate::compiler::value::value_type(v), span }
}

/// An operand of arithmetic, of a comparison or of a negation: a number.
pub fn numeric_operand(v: Value, span: Span) -> (r: Result<llvm::Value, CompilerError>)
    ensures
        match v {
            Value::Numeric(n) => r == Ok::<llvm::Value, CompilerError>(n),
            _ => r == Err::<llvm::Value, CompilerError>(type_error(Type::Numeric, v, span)),
        },
{
    match v {
        Value::Numeric(n) => Ok(n),
        _ => Err(CompilerError::TypeError { expected: Type::Numeric, actual: v.get_type(), span }),
    }
}

/// The operator of a unary expression: only `-` is one.
pub fn unary_operator(op: Operator, span: Span) -> (r: Result<(), CompilerError>)
    ensures
        op == Operator::Minus ==> r is Ok,
        op != Operator::Minus ==> r == Err::<(), CompilerError>(
            CompilerError::WrongOperator { expected: Operator::Minus, actual: op, span },
        ),
{
    match op {
        Operator::Minus => Ok(()),
        _ => Err(CompilerError::WrongOperator { expected: Operator::Minus, actual: op, span }),
    }
}

/// The predicate of a conditional or a loop: a boolean.
pub fn bool_predicate(v: Value, span: Span) -> (r: Result<llvm::Value, CompilerError>)
    ensures
        match v {
            Value::Bool(b) => r == Ok::<llvm::Value, CompilerError>(b),
            _ => r == Err::<llvm::Value, CompilerError>(type_error(Type::Bool, v, span)),
        },
{
    match v {
        Value::Bool(b) => Ok(b),
        _ => Err(CompilerError::TypeError { expected: Type::Bool, actual: v.get_type(), span }),
    }
}

/// An argument of a call: any value but nothing or a loop exit.
pub fn call_argument(v: Value) -> (r: Result<llvm::Value, CompilerError>)
    ensures
        (v is Void || v is Break) ==> r == Err::<llvm::Value, CompilerError>(
            CompilerError::VoidAssignment,
        ),
        !(v is Void || v is Break) ==> r == Ok::<llvm::Value, CompilerError>(
            crate::compiler::value::value_of(v),
        ),
{
    match v {
        Value::Void | Value::Break => Err(CompilerError::VoidAssignment),
        _ => Ok(v.llvm_value()),
    }
}

/// The callee of a call: a function, with its result type.
pub fn callee(var: Variable, span: Span) -> (r: Result<(llvm::Function, Type), CompilerError>)
    ensures
        match var {
            Variable::Function { val, return_type, .. } => r == Ok::<
                (llvm::Function, Type),
                CompilerError,
            >((val, return_type)),
            _ => r == Err::<(llvm::Function, Type), CompilerError>(
                CompilerError::TypeError {
                    expected: Type::Function,
                    actual: crate::compiler::variable::type_of(var),
                    span,
                },
            ),
        },
{
    match var {
        Variable::Function { val, return_type, .. } => Ok((val, return_type)),
        _ => Err(CompilerError::TypeError { expected: Type::Function, actual: var.get_type(), span }),
    }
}

/// What a call returning `return_type` compiles to, given the call's LLVM value.
pub open spec fn call_value(return_type: Type, v: llvm::Value) -> Value {
    match return_type {
        Type::Numeric => Value::Numeric(v),
        Type::Vector => Value::Vec(v),
        Type::Void => Value::Void,
        Type::Ptr => Value::Ptr(v),
        Type::Bool => Value::Bool(v),
        Type::String => Value::String(v),
        Type::CString => Value::CString(v),
        Type::Function => Value::Void,
    }
}

/// The result of a call returning `return_type`, and whether the generated code
/// must release it once the statement is done, if nothing keeps it: a string
/// or a vector a call made.
pub fn call_result(return_type: Type, v: llvm::Value) -> (r: (Value, bool))
    requires
        return_type != Type::Function,
    ensures
        r.0 == call_value(return_type, v),
        r.1 == (return_type == Type::Vector || return_type == Type::String),
{
    match return_type {
        Type::Numeric => (Value::Numeric(v), false),
        Type::Vector => (Value::Vec(v), true),
        Type::Void => (Value::Void, false),
        Type::Ptr => (Value::Ptr(v), false),
        Type::Bool => (Value::Bool(v), false),
        Type::String => (Value::String(v), true),
        Type::CString => (Value::CString(v), false),
        Type::Function => (Value::Void, false),
    }
}

/// What reading a variable compiles to, given the value loaded from it; a
/// function is its function value.
pub open spec fn read_value(var: Variable, loaded: llvm::Value) -> Value {
    match var {
        Variable::String(_) => Value::String(loaded),
        Variable::Numeric(_) => Value::Numeric(loaded),
        Variable::Bool(_) => Value::Bool(loaded),
        Variable::Function { val, typ, return_type } => Value::Function { val, typ, return_type },
        Variable::Vec(_) => Value::Vec(loaded),
        Variable::Ptr(_) => Value::Ptr(loaded),
    }
}

/// What reading `var` compiles to, given the value loaded from it.
pub fn identifier_value(var: Variable, loaded: llvm::Value) -> (r: Value)
    ensures
        r == read_value(var, loaded),
{
    match var {
        Variable::String(_) => Value::String(loaded),
        Variable::Numeric(_) => Value::Numeric(loaded),
        Variable::Bool(_) => Value::Bool(loaded),
        Variable::Function { val, typ, return_type } => Value::Function { val, typ, return_type },
        Variable::Vec(_) => Value::Vec(loaded),
        Variable::Ptr(_) => Value::Ptr(loaded),
    }
}

/// The types a function's parameter can have.
pub open spec fn parameter_type(typ: Type) -> bool {
    typ == Type::String || typ == Type::Numeric || typ == Type::Bool || typ == Type::Vector
}

/// A parameter of type `typ` whose LLVM value is `v`, and the call the function
/// makes on entry to keep it: the runtime's `inc_vec_reference` for a string or a
/// vector.
pub open spec fn parameter_of(typ: Type, v: llvm::Value) -> (Value, Option<RuntimeCall>) {
    match typ {
        Type::String => (
            Value::String(v),
            Some(RuntimeCall { function: Runtime::RetainVec, operand: Operand::Value(v) }),
        ),
        Type::Bool => (Value::Bool(v), None),
        Type::Vector => (
            Value::Vec(v),
            Some(RuntimeCall { function: Runtime::RetainVec, operand: Operand::Value(v) }),
        ),
        _ => (Value::Numeric(v), None),
    }
}

/// A parameter of type `typ` whose LLVM value is `v`, and the call the function
/// makes on entry to keep it.
pub fn parameter(typ: Type, v: llvm::Value) -> (r: (Value, Option<RuntimeCall>))
    requires
        parameter_type(typ),
    ensures
        r == parameter_of(typ, v),
{
    match typ {
        Type::String => (
            Value::String(v),
            Some(RuntimeCall { function: Runtime::RetainVec, operand: Operand::Value(v) }),
        ),
        Type::Bool => (Value::Bool(v), None),
        Type::Vector => (
            Value::Vec(v),
            Some(RuntimeCall { function: Runtime::RetainVec, operand: Operand::Value(v) }),
        ),
        _ => (Value::Numeric(v), None),
    }
}

/// The parameters of a function entered with the LLVM values `values`, whose
/// declared types are `types`: in declaration order, each value the body sees
/// under the parameter's name, with the call that keeps it. The function makes
/// these calls and binds these names in this order, before its body.
pub fn parameter_plan(types: &Vec<Type>, values: &Vec<llvm::Value>) -> (r: Vec<
    (Value, Option<RuntimeCall>),
>)
    requires
        types.len() == values.len(),
        forall|i: int| 0 <= i < types.len() ==> parameter_type(#[trigger] types[i]),
    ensures
        r.len() == types.len(),
        forall|i: int| 0 <= i < r.len() ==> #[trigger] r[i] == parameter_of(types[i], values[i]),
{
    let mut r: Vec<(Value, Option<RuntimeCall>)> = Vec::new();
    let mut i: usize = 0;
    while i < types.len()
        invariant
            types.len() == values.len(),
            forall|j: int| 0 <= j < types.len() ==> parameter_type(#[trigger] types[j]),
            i <= types.len(),
            r.len() == i,
            forall|j: int| 0 <= j < i ==> #[trigger] r[j] == parameter_of(types[j], values[j]),
        decreases types.len() - i,
    {
        r.push(parameter(types[i], values[i]));
        i = i + 1;
    }
    r
}

/// The values a function body can end with.
pub open spec fn returnable(v: Value) -> bool {
    v is Void || v is Numeric || v is Vec || v is String
}

/// What a function returns when its body ends with `last`, and the call that
/// keeps a returned string or vector alive past the function's scope.
pub fn return_value(last: Value) -> (r: (Option<llvm::Value>, Option<RuntimeCall>))
    requires
        returnable(last),
    ensures
        match last {
            Value::Void => r == (None::<llvm::Value>, None::<RuntimeCall>),
            Value::Numeric(n) => r == (Some(n), None::<RuntimeCall>),
            Value::Vec(n) => r == (
                Some(n),
                Some(RuntimeCall { function: Runtime::RetainVec, operand: Operand::Value(n) }),
            ),
            Value::String(n) => r == (
                Some(n),
                Some(RuntimeCall { function: Runtime::RetainString, operand: Operand::Value(n) }),
            ),
            _ => false,
        },
{
    match last {
        Value::Numeric(n) => (Some(n), None),
        Value::Vec(n) => (
            Some(n),
            Some(RuntimeCall { function: Runtime::RetainVec, operand: Operand::Value(n) }),
        ),
        Value::String(n) => (
            Some(n),
            Some(RuntimeCall { function: Runtime::RetainString, operand: Operand::Value(n) }),
        ),
        _ => (None, None),
    }
}

/// The call that releases a string or a vector that a statement made and
/// nothing kept.
pub fn release_orphan(v: Value) -> (r: RuntimeCall)
    requires
        v is String || v is Vec,
    ensures
        v matches Value::String(s) ==> r == (RuntimeCall {
            function: Runtime::ReleaseString,
            operand: Operand::Value(s),
        }),
        v matches Value::Vec(s) ==> r == (RuntimeCall {
            function: Runtime::ReleaseVec,
            operand: Operand::Value(s),
        }),
{
    match v {
        Value::String(s) => RuntimeCall { function: Runtime::ReleaseString, operand: Operand::Value(s) },
        Value::Vec(s) => RuntimeCall { function: Runtime::ReleaseVec, operand: Operand::Value(s) },
        _ => RuntimeCall { function: Runtime::ReleaseVec, operand: Operand::Value(v.llvm_value()) },
    }
}

/// The call that releases what a variable holds: the string or the vector
/// stored at it; a variable of another type holds nothing counted.
pub open spec fn variable_release(var: Variable) -> Option<RuntimeCall> {
    match var {
        Variable::String(p) => Some(
            RuntimeCall { function: Runtime::ReleaseString, operand: Operand::StoredAt(p) },
        ),
        Variable::Vec(p) => Some(
            RuntimeCall { function: Runtime::ReleaseVec, operand: Operand::StoredAt(p) },
        ),
        _ => None,
    }
}

/// The call that releases what `var` holds, if anything.
pub fn release_variable(var: Variable) -> (r: Option<RuntimeCall>)
    ensures
        r == variable_release(var),
{
    match var {
        Variable::String(p) => Some(
            RuntimeCall { function: Runtime::ReleaseString, operand: Operand::StoredAt(p) },
        ),
        Variable::Vec(p) => Some(
            RuntimeCall { function: Runtime::ReleaseVec, operand: Operand::StoredAt(p) },
        ),
        _ => None,
    }
}

/// The call that keeps a value being assigned: a string or a vector gains a
/// reference; nothing or a loop exit cannot be assigned.
pub fn retain_assigned(right: Value) -> (r: Result<Option<RuntimeCall>, CompilerError>)
    ensures
        match right {
            Value::String(s) => r == Ok::<Option<RuntimeCall>, CompilerError>(
                Some(RuntimeCall { function: Runtime::RetainString, operand: Operand::Value(s) }),
            ),
            Value::Vec(s) => r == Ok::<Option<RuntimeCall>, CompilerError>(
                Some(RuntimeCall { function: Runtime::RetainVec, operand: Operand::Value(s) }),
            ),
            Value::Void | Value::Break => r == Err::<Option<RuntimeCall>, CompilerError>(
                CompilerError::VoidAssignment,
            ),
            _ => r == Ok::<Option<RuntimeCall>, CompilerError>(None),
        },
{
    match right {
        Value::String(s) => Ok(
            Some(RuntimeCall { function: Runtime::RetainString, operand: Operand::Value(s) }),
        ),
        Value::Vec(s) => Ok(
            Some(RuntimeCall { function: Runtime::RetainVec, operand: Operand::Value(s) }),
        ),
        Value::Void | Value::Break => Err(CompilerError::VoidAssignment),
        _ => Ok(None),
    }
}

/// The variable a first assignment of `right` creates, stored at `ptr`; a
/// function is kept as its function value.
pub open spec fn assigned_variable(right: Value, ptr: llvm::Value) -> Variable {
    match right {
        Value::String(_) => Variable::String(ptr),
        Value::Numeric(_) => Variable::Numeric(ptr),
        Value::Bool(_) => Variable::Bool(ptr),
        Value::Function { val, typ, return_type } => Variable::Function { val, typ, return_type },
        Value::Vec(_) => Variable::Vec(ptr),
        _ => Variable::Ptr(ptr),
    }
}

/// The variable a first assignment of `right` creates, stored at `ptr`.
pub fn new_variable(right: Value, ptr: llvm::Value) -> (r: Variable)
    requires
        storable(right),
    ensures
        r == assigned_variable(right, ptr),
{
    match right {
        Value::String(_) => Variable::String(ptr),
        Value::Numeric(_) => Variable::Numeric(ptr),
        Value::Bool(_) => Variable::Bool(ptr),
        Value::Function { val, typ, return_type } => Variable::Function { val, typ, return_type },
        Value::Vec(_) => Variable::Vec(ptr),
        _ => Variable::Ptr(ptr),
    }
}

/// How the code generator carries out an assignment to a name, once the
/// right-hand side has been generated.
#[derive(Clone, Copy, Debug, PartialEq, Eq)]
pub enum AssignPlan {
    /// The name is bound already: make the call `release` (if any) on what the
    /// variable holds, store `value` at `store_at`, then make the call `retain`
    /// (if any).
    Existing {
        release: Option<RuntimeCall>,
        store_at: llvm::Value,
        value: llvm::Value,
        retain: Option<RuntimeCall>,
    },
    /// The name is new: allocate a slot of type `alloca`, store `value` there,
    /// bind the name to the variable that [`new_variable`] gives for the slot,
    /// then make the call `retain` (if any).
    New { alloca: TypeRequest, value: llvm::Value, retain: Option<RuntimeCall> },
}

/// The call that keeps a string or a vector being assigned.
pub open spec fn assign_retain(right: Value) -> Option<RuntimeCall> {
    match right {
        Value::String(s) => Some(
            RuntimeCall { function: Runtime::RetainString, operand: Operand::Value(s) },
        ),
        Value::Vec(s) => Some(RuntimeCall { function: Runtime::RetainVec, operand: Operand::Value(s) }),
        _ => None,
    }
}

/// How `right` is assigned to a name bound to `existing`, or to a new name.
pub open spec fn planned_assignment(existing: Option<Variable>, right: Value) -> AssignPlan {
    match existing {
        Some(var) => AssignPlan::Existing {
            release: variable_release(var),
            store_at: llvm::Value(address(var)),
            value: value_of(right),
            retain: assign_retain(right),
        },
        None => AssignPlan::New {
            alloca: value_llvm_type(right),
            value: value_of(right),
            retain: assign_retain(right),
        },
    }
}

/// How the value `right` is assigned: only a name can be assigned to; a name
/// bound to `existing` has what it holds released and the value stored over it,
/// and a new name gets a slot of its own; a string or a vector assigned gains a
/// reference.
pub fn assignment_plan(left_is_identifier: bool, existing: Option<Variable>, right: Value, span: Span) -> (r: Result<AssignPlan, CompilerError>)
    requires
        left_is_identifier ==> storable(right),
    ensures
        !left_is_identifier ==> r == Err::<AssignPlan, CompilerError>(
            CompilerError::NonIdentifierAssignment { span },
        ),
        left_is_identifier ==> r == Ok::<AssignPlan, CompilerError>(
            planned_assignment(existing, right),
        ),
{
    if !left_is_identifier {
        return Err(CompilerError::NonIdentifierAssignment { span });
    }
    // A storable value is never refused here.
    let retain = match retain_assigned(right) {
        Ok(call) => call,
        Err(_) => None,
    };
    let value = right.llvm_value();
    match existing {
        Some(var) => Ok(
            AssignPlan::Existing {
                release: release_variable(var),
                store_at: llvm::Value::from(var),
                value,
                retain,
            },
        ),
        None => Ok(AssignPlan::New { alloca: right.llvm_type(), value, retain }),
    }
}

/// Reading a variable gives a value of the variable's own type; for any
/// variable but a function, that value is the one loaded from its storage.
pub proof fn lemma_read_keeps_type(var: Variable, loaded: llvm::Value)
    ensures
        value_type(read_value(var, loaded)) == type_of(var),
        !(var is Function) ==> value_of(read_value(var, loaded)) == loaded,
{
}

/// The variable a first assignment creates has the type of the value assigned
/// and, for any value but a function, lives in the slot it was given; reading
/// it back gives a value of that same type.
pub proof fn lemma_assigned_variable_keeps_type(right: Value, ptr: llvm::Value, loaded: llvm::Value)
    requires
        storable(right),
    ensures
        type_of(assigned_variable(right, ptr)) == value_type(right),
        !(right is Function) ==> address(assigned_variable(right, ptr)) == ptr.0,
        value_type(read_value(assigned_variable(right, ptr), loaded)) == value_type(right),
{
}

/// A call's value has the callee's return type; for anything but nothing and a
/// function, it is the call's LLVM result.
pub proof fn lemma_call_value_has_return_type(return_type: Type, v: llvm::Value)
    requires
        return_type != Type::Function,
    ensures
        value_type(call_value(return_type, v)) == return_type,
        return_type != Type::Void ==> value_of(call_value(return_type, v)) == v,
{
}

/// A parameter's value has the parameter's declared type and is the function's
/// LLVM argument; exactly a string or a vector is retained on entry, by a call
/// on that argument.
pub proof fn lemma_parameter_has_declared_type(typ: Type, v: llvm::Value)
    requires
        parameter_type(typ),
    ensures
        value_type(parameter_of(typ, v).0) == typ,
        value_of(parameter_of(typ, v).0) == v,
        parameter_of(typ, v).1 is Some <==> (typ == Type::String || typ == Type::Vector),
        parameter_of(typ, v).1 matches Some(c) ==> c.operand == Operand::Value(v),
{
}

} // verus!
