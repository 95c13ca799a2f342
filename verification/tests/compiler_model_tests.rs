use rocklang::compiler::frame::Frame;
use rocklang::compiler::utils::get_llvm_type;
use rocklang::compiler::var::Var;
use rocklang::compiler::variable::Variable;
use rocklang::compiler::CompilerError;
use rocklang::expression::Operator;
use rocklang::llvm::{
    BasicBlock, Builder, Engine, Function, LLVMError, Module, Type, TypeRequest, Value,
};
use rocklang::parser::{self, Span};

#[test]
fn frame_gives_back_what_was_set() {
    let mut frame = Frame::new(Value(7));
    assert_eq!(Value(7), frame.fun);
    assert!(frame.get("x").is_none());
    assert_eq!(None, frame.set("x", Var::Numeric(Value(1))));
    assert_eq!(Some(&Var::Numeric(Value(1))), frame.get("x"));
    assert_eq!(None, frame.set("y", Var::Bool(Value(2))));
    assert_eq!(None, frame.set("x", Var::String(Value(3))));
    assert_eq!(Some(&Var::String(Value(3))), frame.get("x"));
    assert_eq!(Some(&Var::Bool(Value(2))), frame.get("y"));
}

#[test]
fn frame_forgets_what_was_removed() {
    let mut frame = Frame::new(Value(0));
    frame.set("x", Var::Null);
    frame.set("y", Var::Null);
    frame.remove("x");
    assert!(frame.get("x").is_none());
    assert_eq!(Some(&Var::Null), frame.get("y"));
    frame.remove("missing");
    assert_eq!(Some(&Var::Null), frame.get("y"));
}

#[test]
fn setting_a_vector_releases_its_storage() {
    let mut frame = Frame::new(Value(0));
    assert_eq!(Some(Value(9)), frame.set("v", Var::Vec(Value(9))));
    assert_eq!(Some(&Var::Vec(Value(9))), frame.get("v"));
}

#[test]
fn dropping_a_frame_releases_each_vector() {
    let mut frame = Frame::new(Value(0));
    frame.set("a", Var::Vec(Value(1)));
    frame.set("b", Var::Numeric(Value(2)));
    frame.set("c", Var::Vec(Value(3)));
    frame.set("a", Var::Vec(Value(4)));
    assert_eq!(vec![Value(4), Value(3)], frame.dealloc());
    frame.remove("a");
    assert_eq!(vec![Value(3)], frame.dealloc());
}

#[test]
fn only_vectors_are_released() {
    assert_eq!(Some(Value(5)), Var::Vec(Value(5)).dealloc());
    assert_eq!(None, Var::Numeric(Value(5)).dealloc());
    assert_eq!(None, Var::Null.dealloc());
    let f = Var::Function {
        val: Value(1),
        typ: Type(2),
        return_type: parser::Type::Void,
    };
    assert_eq!(None, f.dealloc());
}

#[test]
fn variables_report_their_types() {
    assert_eq!(parser::Type::String, Variable::String(Value(1)).get_type());
    assert_eq!(parser::Type::Numeric, Variable::Numeric(Value(1)).get_type());
    assert_eq!(parser::Type::Bool, Variable::Bool(Value(1)).get_type());
    assert_eq!(parser::Type::Vector, Variable::Vec(Value(1)).get_type());
    assert_eq!(parser::Type::Ptr, Variable::Ptr(Value(1)).get_type());
    let f = Variable::Function {
        val: Function(1),
        typ: Type(8),
        return_type: parser::Type::Numeric,
    };
    assert_eq!(parser::Type::Function, f.get_type());
    assert_eq!(TypeRequest::PointerTo(Type(8)), f.llvm_type());
    assert_eq!(TypeRequest::Double, Variable::Numeric(Value(1)).llvm_type());
    assert_eq!(TypeRequest::I1, Variable::Bool(Value(1)).llvm_type());
    assert_eq!(TypeRequest::VoidPointer, Variable::String(Value(1)).llvm_type());
    assert_eq!(TypeRequest::VoidPointer, Variable::Vec(Value(1)).llvm_type());
    assert_eq!(TypeRequest::VoidPointer, Variable::Ptr(Value(1)).llvm_type());
}

#[test]
fn set_value_moves_the_variable_and_keeps_its_type() {
    let mut v = Variable::Numeric(Value(1));
    v.set_value(Value(42));
    assert_eq!(Variable::Numeric(Value(42)), v);
    assert_eq!(Value(42), Value::from(v));
    let mut f = Variable::Function {
        val: Function(1),
        typ: Type(8),
        return_type: parser::Type::Bool,
    };
    f.set_value(Value(5));
    assert_eq!(
        Variable::Function {
            val: Function(5),
            typ: Type(8),
            return_type: parser::Type::Bool
        },
        f
    );
    assert_eq!(Value(5), Value::from(&f));
}

#[test]
fn language_types_map_to_llvm_types() {
    assert_eq!(TypeRequest::VoidPointer, get_llvm_type(&parser::Type::Vector));
    assert_eq!(TypeRequest::Double, get_llvm_type(&parser::Type::Numeric));
    assert_eq!(TypeRequest::Void, get_llvm_type(&parser::Type::Void));
    assert_eq!(TypeRequest::VoidPointer, get_llvm_type(&parser::Type::Ptr));
    assert_eq!(TypeRequest::I8Pointer, get_llvm_type(&parser::Type::String));
    assert_eq!(TypeRequest::I8Pointer, get_llvm_type(&parser::Type::CString));
    assert_eq!(TypeRequest::I1, get_llvm_type(&parser::Type::Bool));
}

#[test]
fn compiler_errors_display_their_messages() {
    let span = Span { line: 3, column: 14 };
    assert_eq!(
        "type error expected Numeric, but got String at 3:14",
        CompilerError::TypeError {
            expected: parser::Type::Numeric,
            actual: parser::Type::String,
            span: span.clone()
        }
        .to_string()
    );
    assert_eq!("engine init error", CompilerError::EngineInitError.to_string());
    assert_eq!(
        "undefined identifier x",
        CompilerError::UndefinedIdentifier("x".to_string()).to_string()
    );
    assert_eq!(
        "llvm error: bad",
        CompilerError::LLVMError("bad".to_string()).to_string()
    );
    assert_eq!(
        "error loading lib.so",
        CompilerError::LoadLibaryError("lib.so".to_string()).to_string()
    );
    assert_eq!("void assignment", CompilerError::VoidAssignment.to_string());
    assert_eq!(
        "non identifier assignment at 3:14",
        CompilerError::NonIdentifierAssignment { span: span.clone() }.to_string()
    );
    assert_eq!(
        "wrong operator, expected Minus, but got Plus at 3:14",
        CompilerError::WrongOperator {
            expected: Operator::Minus,
            actual: Operator::Plus,
            span
        }
        .to_string()
    );
}

#[test]
fn handles_hold_their_addresses() {
    assert_eq!(Type(3), Type::new(3));
    assert_eq!(BasicBlock(4), BasicBlock::new(4));
    assert_eq!(Builder(5), Builder::from(5));
    assert_eq!(Engine(6), Engine::from(6));
    assert_eq!(Module(7), Module::from_context(7));
    assert_eq!("LLVMError", LLVMError {}.to_string());
}

#[test]
fn types_display_their_names() {
    assert_eq!("Numeric", parser::Type::Numeric.to_string());
    assert_eq!("CString", parser::Type::CString.to_string());
    assert_eq!("0:0", Span::default().to_string());
    assert_eq!("12:305", Span { line: 12, column: 305 }.to_string());
}

#[test]
fn frame_releases_exactly_the_vectors_its_names_hold() {
    let mut frame = Frame::new(Value(0));
    frame.set("xs", Var::Vec(Value(11)));
    frame.set("n", Var::Numeric(Value(12)));
    frame.set("ys", Var::Vec(Value(13)));
    frame.set("xs", Var::Bool(Value(14)));
    assert_eq!(Some(&Var::Vec(Value(13))), frame.get("ys"));
    assert_eq!(Some(&Var::Bool(Value(14))), frame.get("xs"));
    assert_eq!(vec![Value(13)], frame.dealloc());
}
