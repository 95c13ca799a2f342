//! The data the code generator keeps while it turns a program into LLVM code:
//! its variables, their frames and types, and the errors it reports.

pub mod bindings;
pub mod builtins;
pub mod frame;
pub mod lookup;
pub mod rules;
pub mod scope;
pub mod utils;
pub mod value;
pub mod var;
pub mod variable;

use vstd::prelude::*;

use crate::expression::Operator;
use crate::parser::{span_text, type_label, Span, Type};
use crate::text::string_of;

verus! {

/// An error the code generator reports.
#[allow(inconsistent_fields)]
#[derive(Clone, Debug, PartialEq)]
pub enum CompilerError {
    VoidAssignment,
    NonIdentifierAssignment { span: Span },
    TypeError { expected: Type, actual: Type, span: Span },
    EngineInitError,
    UndefinedIdentifier(String),
    LLVMError(String),
    LoadLibaryError(String),
    WrongOperator { expected: Operator, actual: Operator, span: Span },
}

/// The name of an operator, as its variant is called.
pub open spec fn operator_label(op: Operator) -> Seq<char> {
    match op {
        Operator::Plus => "Plus"@,
        Operator::LessOrEqual => "LessOrEqual"@,
        Operator::Less => "Less"@,
        Operator::Minus => "Minus"@,
        Operator::Asterisk => "Asterisk"@,
        Operator::Slash => "Slash"@,
        Operator::Equal => "Equal"@,
        Operator::Mod => "Mod"@,
        Operator::NotEqual => "NotEqual"@,
        Operator::Greater => "Greater"@,
        Operator::GreaterOrEqual => "GreaterOrEqual"@,
    }
}

fn operator_name(op: Operator) -> (r: &'static str)
    ensures
        r@ == operator_label(op),
{
    match op {
        Operator::Plus => "Plus",
        Operator::LessOrEqual => "LessOrEqual",
        Operator::Less => "Less",
        Operator::Minus => "Minus",
        Operator::Asterisk => "Asterisk",
        Operator::Slash => "Slash",
        Operator::Equal => "Equal",
        Operator::Mod => "Mod",
        Operator::NotEqual => "NotEqual",
        Operator::Greater => "Greater",
        Operator::GreaterOrEqual => "GreaterOrEqual",
    }
}

/// The message a compiler error is displayed with.
pub open spec fn compiler_error_message(e: CompilerError) -> Seq<char> {
    match e {
        CompilerError::TypeError { expected, actual, span } => "type error expected "@
            + type_label(expected) + ", but got "@ + type_label(actual) + " at "@ + span_text(
            span,
        ),
        CompilerError::EngineInitError => "engine init error"@,
        CompilerError::UndefinedIdentifier(x) => "undefined identifier "@ + x@,
        CompilerError::LLVMError(err) => "llvm error: "@ + err@,
        CompilerError::LoadLibaryError(lib) => "error loading "@ + lib@,
        CompilerError::VoidAssignment => "void assignment"@,
        CompilerError::NonIdentifierAssignment { span } => "non identifier assignment at "@
            + span_text(span),
        CompilerError::WrongOperator { expected, actual, span } => "wrong operator, expected "@
            + operator_label(expected) + ", but got "@ + operator_label(actual) + " at "@
            + span_text(span),
    }
}

impl CompilerError {
    /// The error's message, e.g. `undefined identifier x`.
    pub fn to_string(&self) -> (r: String)
        ensures
            r@ == compiler_error_message(*self),
    {
        match self {
            CompilerError::TypeError { expected, actual, span } => {
                let mut r = string_of("type error expected ");
                r.append(expected.to_string().as_str());
                r.append(", but got ");
                r.append(actual.to_string().as_str());
                r.append(" at ");
                r.append(span.to_string().as_str());
                r
            },
            CompilerError::EngineInitError => string_of("engine init error"),
            CompilerError::UndefinedIdentifier(x) => {
                let mut r = string_of("undefined identifier ");
                r.append(x.as_str());
                r
            },
            CompilerError::LLVMError(err) => {
                let mut r = string_of("llvm error: ");
                r.append(err.as_str());
                r
            },
            CompilerError::LoadLibaryError(lib) => {
                let mut r = string_of("error loading ");
                r.append(lib.as_str());
                r
            },
            CompilerError::VoidAssignment => string_of("void assignment"),
            CompilerError::NonIdentifierAssignment { span } => {
                let mut r = string_of("non identifier assignment at ");
                r.append(span.to_string().as_str());
                r
            },
            CompilerError::WrongOperator { expected, actual, span } => {
                let mut r = string_of("wrong operator, expected ");
                r.append(operator_name(*expected));
                r.append(", but got ");
                r.append(operator_name(*actual));
                r.append(" at ");
                r.append(span.to_string().as_str());
                r
            },
        }
    }
}

} // verus!
