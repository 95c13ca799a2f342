use rocklang::compiler::bindings::Bindings;
use rocklang::compiler::frame::Frame;
use rocklang::compiler::lookup::{get_param, get_var, resolve_callee, resolve_identifier, Resolved};
use rocklang::compiler::scope::Scope;
use rocklang::compiler::value::Value;
use rocklang::compiler::var::Var;
use rocklang::compiler::variable::Variable;
use rocklang::compiler::CompilerError;
use rocklang::llvm::{Function, Type, Value as LlvmValue};
use rocklang::parser;
use rocklang::text::unescape_newlines;

fn v(n: usize) -> LlvmValue {
    LlvmValue(n)
}

fn function(n: usize) -> Variable {
    Variable::Function {
        val: Function(n),
        typ: Type(n),
        return_type: parser::Type::Void,
    }
}

fn scopes() -> Vec<Scope> {
    let mut outer = Scope::new();
    outer.set("x", Variable::Numeric(v(1)));
    outer.set("f", function(2));
    outer.set_param("p", Value::Bool(v(3)));
    outer.set_param("q", Value::Numeric(v(4)));
    let mut inner = Scope::new();
    inner.set("x", Variable::String(v(5)));
    inner.set_param("x", Value::Vec(v(6)));
    inner.set_param("p", Value::Vec(v(7)));
    vec![outer, inner]
}

#[test]
fn inner_scopes_win_over_outer_ones() {
    let scopes = scopes();
    assert_eq!(Some(Variable::String(v(5))), get_var(&scopes, "x"));
    assert_eq!(Some(function(2)), get_var(&scopes, "f"));
    assert_eq!(Some(Value::Vec(v(7))), get_param(&scopes, "p"));
    assert_eq!(Some(Value::Numeric(v(4))), get_param(&scopes, "q"));
    assert_eq!(None, get_var(&scopes, "p"));
    assert_eq!(None, get_var(&Vec::new(), "x"));
}

#[test]
fn variables_win_over_parameters() {
    let scopes = scopes();
    assert_eq!(Ok(Resolved::Variable(Variable::String(v(5)))), resolve_identifier(&scopes, "x"));
    assert_eq!(Ok(Resolved::Parameter(Value::Vec(v(7)))), resolve_identifier(&scopes, "p"));
    assert_eq!(
        Err(CompilerError::UndefinedIdentifier("nope".to_string())),
        resolve_identifier(&scopes, "nope")
    );
}

#[test]
fn builtins_win_over_variables_for_calls() {
    let scopes = scopes();
    let mut builtins = Bindings::new();
    builtins.set("f", function(9));
    builtins.set("print", function(10));
    assert_eq!(Ok(function(9)), resolve_callee(&builtins, &scopes, "f"));
    assert_eq!(Ok(function(10)), resolve_callee(&builtins, &scopes, "print"));
    assert_eq!(Ok(Variable::String(v(5))), resolve_callee(&builtins, &scopes, "x"));
    assert_eq!(
        Err(CompilerError::UndefinedIdentifier("q".to_string())),
        resolve_callee(&builtins, &scopes, "q")
    );
}

#[test]
fn newline_escapes_become_newlines() {
    assert_eq!("a\nb", unescape_newlines("a\\nb"));
    assert_eq!("\n\n", unescape_newlines("\\n\\n"));
    assert_eq!("\\\n", unescape_newlines("\\\\n"));
    assert_eq!("n\\", unescape_newlines("n\\"));
    assert_eq!("", unescape_newlines(""));
}

#[test]
fn frame_reads_the_last_write_of_its_history() {
    let mut frame = Frame::new(v(0));
    frame.set("a", Var::Numeric(v(1)));
    frame.set("b", Var::Vec(v(2)));
    frame.remove("a");
    frame.set("b", Var::Bool(v(3)));
    frame.set("c", Var::Null);
    frame.remove("c");
    frame.set("a", Var::String(v(4)));
    assert_eq!(Some(&Var::String(v(4))), frame.get("a"));
    assert_eq!(Some(&Var::Bool(v(3))), frame.get("b"));
    assert!(frame.get("c").is_none());
    assert!(frame.get("d").is_none());
}
