use rocklang::compiler::bindings::Bindings;
use rocklang::compiler::builtins::builtins;
use rocklang::compiler::rules::{
    binary_instruction, binary_value, bool_predicate, call_argument, call_result, callee, identifier_value,
    new_variable, numeric_operand, parameter, parameter_plan, release_orphan, release_variable,
    retain_assigned, return_value, unary_operator, assignment_plan, AssignPlan, BinaryInstruction,
    Operand, Runtime, RuntimeCall,
};
use rocklang::compiler::scope::Scope;
use rocklang::compiler::value::Value;
use rocklang::compiler::variable::Variable;
use rocklang::compiler::CompilerError;
use rocklang::expression::Operator;
use rocklang::llvm::{Cmp, Function, Type, TypeRequest, Value as LlvmValue};
use rocklang::parser::{self, Span};

fn v(n: usize) -> LlvmValue {
    LlvmValue(n)
}

fn span() -> Span {
    Span { line: 2, column: 7 }
}

fn call(function: Runtime, operand: Operand) -> RuntimeCall {
    RuntimeCall { function, operand }
}

#[test]
fn operators_compile_to_floating_point_instructions() {
    assert_eq!(BinaryInstruction::FAdd, binary_instruction(Operator::Plus));
    assert_eq!(BinaryInstruction::FSub, binary_instruction(Operator::Minus));
    assert_eq!(BinaryInstruction::FMul, binary_instruction(Operator::Asterisk));
    assert_eq!(BinaryInstruction::FDiv, binary_instruction(Operator::Slash));
    assert_eq!(BinaryInstruction::FRem, binary_instruction(Operator::Mod));
    assert_eq!(BinaryInstruction::FCmp(Cmp::Equal), binary_instruction(Operator::Equal));
    assert_eq!(BinaryInstruction::FCmp(Cmp::NotEqual), binary_instruction(Operator::NotEqual));
    assert_eq!(BinaryInstruction::FCmp(Cmp::Less), binary_instruction(Operator::Less));
    assert_eq!(BinaryInstruction::FCmp(Cmp::LessOrEqual), binary_instruction(Operator::LessOrEqual));
    assert_eq!(BinaryInstruction::FCmp(Cmp::Greater), binary_instruction(Operator::Greater));
    assert_eq!(
        BinaryInstruction::FCmp(Cmp::GreaterOrEqual),
        binary_instruction(Operator::GreaterOrEqual)
    );
}

#[test]
fn arithmetic_needs_numbers() {
    assert_eq!(Ok(v(3)), numeric_operand(Value::Numeric(v(3)), span()));
    assert_eq!(
        Err(CompilerError::TypeError {
            expected: parser::Type::Numeric,
            actual: parser::Type::String,
            span: span()
        }),
        numeric_operand(Value::String(v(3)), span())
    );
    assert_eq!(
        Err(CompilerError::TypeError {
            expected: parser::Type::Numeric,
            actual: parser::Type::Void,
            span: span()
        }),
        numeric_operand(Value::Break, span())
    );
}

#[test]
fn only_minus_is_a_unary_operator() {
    assert_eq!(Ok(()), unary_operator(Operator::Minus, span()));
    assert_eq!(
        Err(CompilerError::WrongOperator {
            expected: Operator::Minus,
            actual: Operator::Plus,
            span: span()
        }),
        unary_operator(Operator::Plus, span())
    );
}

#[test]
fn predicates_need_booleans() {
    assert_eq!(Ok(v(1)), bool_predicate(Value::Bool(v(1)), span()));
    assert_eq!(
        Err(CompilerError::TypeError {
            expected: parser::Type::Bool,
            actual: parser::Type::Numeric,
            span: span()
        }),
        bool_predicate(Value::Numeric(v(1)), span())
    );
}

#[test]
fn arguments_cannot_be_nothing() {
    assert_eq!(Err(CompilerError::VoidAssignment), call_argument(Value::Void));
    assert_eq!(Err(CompilerError::VoidAssignment), call_argument(Value::Break));
    assert_eq!(Ok(v(4)), call_argument(Value::Vec(v(4))));
    let f = Value::Function {
        val: Function(9),
        typ: Type(1),
        return_type: parser::Type::Void,
    };
    assert_eq!(Ok(v(9)), call_argument(f));
}

#[test]
fn only_functions_are_called() {
    let f = Variable::Function {
        val: Function(9),
        typ: Type(1),
        return_type: parser::Type::Numeric,
    };
    assert_eq!(Ok((Function(9), parser::Type::Numeric)), callee(f, span()));
    assert_eq!(
        Err(CompilerError::TypeError {
            expected: parser::Type::Function,
            actual: parser::Type::Bool,
            span: span()
        }),
        callee(Variable::Bool(v(1)), span())
    );
}

#[test]
fn calls_give_values_of_their_return_type() {
    assert_eq!((Value::Numeric(v(5)), false), call_result(parser::Type::Numeric, v(5)));
    assert_eq!((Value::Vec(v(5)), true), call_result(parser::Type::Vector, v(5)));
    assert_eq!((Value::String(v(5)), true), call_result(parser::Type::String, v(5)));
    assert_eq!((Value::Void, false), call_result(parser::Type::Void, v(5)));
    assert_eq!((Value::CString(v(5)), false), call_result(parser::Type::CString, v(5)));
}

#[test]
fn reading_a_variable_gives_the_loaded_value() {
    assert_eq!(Value::Numeric(v(8)), identifier_value(Variable::Numeric(v(1)), v(8)));
    let f = Variable::Function {
        val: Function(9),
        typ: Type(1),
        return_type: parser::Type::Numeric,
    };
    assert_eq!(
        Value::Function {
            val: Function(9),
            typ: Type(1),
            return_type: parser::Type::Numeric
        },
        identifier_value(f, v(8))
    );
}

#[test]
fn reference_counted_values_are_retained_and_released() {
    assert_eq!(
        Ok(Some(call(Runtime::RetainString, Operand::Value(v(2))))),
        retain_assigned(Value::String(v(2)))
    );
    assert_eq!(
        Ok(Some(call(Runtime::RetainVec, Operand::Value(v(2))))),
        retain_assigned(Value::Vec(v(2)))
    );
    assert_eq!(Ok(None), retain_assigned(Value::Numeric(v(2))));
    assert_eq!(Err(CompilerError::VoidAssignment), retain_assigned(Value::Void));
    assert_eq!(
        Some(call(Runtime::ReleaseString, Operand::StoredAt(v(3)))),
        release_variable(Variable::String(v(3)))
    );
    assert_eq!(None, release_variable(Variable::Ptr(v(3))));
    assert_eq!(
        call(Runtime::ReleaseVec, Operand::Value(v(6))),
        release_orphan(Value::Vec(v(6)))
    );
}

#[test]
fn assignments_create_variables_at_their_storage() {
    assert_eq!(Variable::Numeric(v(7)), new_variable(Value::Numeric(v(1)), v(7)));
    assert_eq!(Variable::Vec(v(7)), new_variable(Value::Vec(v(1)), v(7)));
    let f = Value::Function {
        val: Function(9),
        typ: Type(1),
        return_type: parser::Type::Void,
    };
    assert_eq!(
        Variable::Function {
            val: Function(9),
            typ: Type(1),
            return_type: parser::Type::Void
        },
        new_variable(f, v(7))
    );
}

#[test]
fn parameters_and_results_keep_their_references() {
    assert_eq!(
        (
            Value::String(v(1)),
            Some(call(Runtime::RetainVec, Operand::Value(v(1))))
        ),
        parameter(parser::Type::String, v(1))
    );
    assert_eq!((Value::Numeric(v(1)), None), parameter(parser::Type::Numeric, v(1)));
    assert_eq!((None, None), return_value(Value::Void));
    assert_eq!((Some(v(2)), None), return_value(Value::Numeric(v(2))));
    assert_eq!(
        (
            Some(v(2)),
            Some(call(Runtime::RetainString, Operand::Value(v(2))))
        ),
        return_value(Value::String(v(2)))
    );
}

#[test]
fn values_report_types() {
    assert_eq!(parser::Type::Void, Value::Break.get_type());
    assert_eq!(parser::Type::CString, Value::CString(v(1)).get_type());
    assert_eq!(TypeRequest::I1, Value::Bool(v(1)).llvm_type());
    assert_eq!(TypeRequest::PointerTo(Type(3)), Value::Function {
        val: Function(1),
        typ: Type(3),
        return_type: parser::Type::Void
    }
    .llvm_type());
    assert_eq!(v(4), Value::Ptr(v(4)).llvm_value());
}

#[test]
fn scope_releases_variables_then_parameters() {
    let mut scope = Scope::new();
    scope.set("s", Variable::String(v(1)));
    scope.set("n", Variable::Numeric(v(2)));
    scope.set("xs", Variable::Vec(v(3)));
    scope.set_param("p", Value::Vec(v(4)));
    scope.set_param("q", Value::Bool(v(5)));
    assert_eq!(Some(&Variable::Numeric(v(2))), scope.get("n"));
    assert_eq!(Some(&Value::Bool(v(5))), scope.get_param("q"));
    assert!(scope.get("p").is_none());
    assert_eq!(
        vec![
            call(Runtime::ReleaseString, Operand::StoredAt(v(1))),
            call(Runtime::ReleaseVec, Operand::StoredAt(v(3))),
            call(Runtime::ReleaseVec, Operand::Value(v(4))),
        ],
        scope.release_references()
    );
}

#[test]
fn bindings_read_back_what_was_written() {
    let mut b: Bindings<u8> = Bindings::new();
    b.set("a", 1);
    b.set("b", 2);
    b.set("a", 3);
    assert_eq!(Some(&3), b.get("a"));
    assert_eq!(2, b.len());
    assert_eq!(3, b.value_at(0));
    b.remove("a");
    assert!(!b.contains("a"));
    assert!(b.contains("b"));
    assert_eq!(1, b.len());
}

#[test]
fn builtins_are_declared_in_order() {
    let table = builtins();
    let names: Vec<&str> = table.iter().map(|b| b.name.as_str()).collect();
    assert_eq!(
        vec![
            "string",
            "print",
            "release_string_reference",
            "inc_string_reference",
            "inc_vec_reference",
            "release_vec_reference",
            "c_string_from_string",
            "string_from_c_string",
            "vec_new",
            "vec_set",
            "vec_get",
            "sqrt"
        ],
        names
    );
    let vec_set = &table[9];
    assert_eq!(
        vec![TypeRequest::VoidPointer, TypeRequest::Double, TypeRequest::Double],
        vec_set.params
    );
    assert_eq!(TypeRequest::Void, vec_set.result);
    assert!(!table[11].runtime);
    assert_eq!(parser::Type::Numeric, table[11].return_type);
}

#[test]
fn comparisons_give_booleans_and_arithmetic_numbers() {
    assert_eq!(Value::Bool(v(1)), binary_value(BinaryInstruction::FCmp(Cmp::Less), v(1)));
    assert_eq!(Value::Numeric(v(1)), binary_value(BinaryInstruction::FMul, v(1)));
}

#[test]
fn only_names_can_be_assigned_to() {
    assert_eq!(
        Err(CompilerError::NonIdentifierAssignment { span: span() }),
        assignment_plan(false, None, Value::Numeric(v(1)), span())
    );
    assert_eq!(
        Err(CompilerError::NonIdentifierAssignment { span: span() }),
        assignment_plan(false, Some(Variable::Numeric(v(2))), Value::Void, span())
    );
}

#[test]
fn assigning_to_a_bound_name_releases_then_stores_then_retains() {
    assert_eq!(
        Ok(AssignPlan::Existing {
            release: Some(call(Runtime::ReleaseString, Operand::StoredAt(v(3)))),
            store_at: v(3),
            value: v(8),
            retain: Some(call(Runtime::RetainString, Operand::Value(v(8)))),
        }),
        assignment_plan(true, Some(Variable::String(v(3))), Value::String(v(8)), span())
    );
    assert_eq!(
        Ok(AssignPlan::Existing {
            release: None,
            store_at: v(4),
            value: v(9),
            retain: Some(call(Runtime::RetainVec, Operand::Value(v(9)))),
        }),
        assignment_plan(true, Some(Variable::Numeric(v(4))), Value::Vec(v(9)), span())
    );
}

#[test]
fn assigning_to_a_new_name_allocates_a_slot_of_the_value_type() {
    assert_eq!(
        Ok(AssignPlan::New { alloca: TypeRequest::Double, value: v(5), retain: None }),
        assignment_plan(true, None, Value::Numeric(v(5)), span())
    );
    assert_eq!(
        Ok(AssignPlan::New {
            alloca: TypeRequest::VoidPointer,
            value: v(6),
            retain: Some(call(Runtime::RetainVec, Operand::Value(v(6)))),
        }),
        assignment_plan(true, None, Value::Vec(v(6)), span())
    );
    let f = Value::Function {
        val: Function(2),
        typ: Type(3),
        return_type: parser::Type::Void,
    };
    assert_eq!(
        Ok(AssignPlan::New { alloca: TypeRequest::PointerTo(Type(3)), value: v(2), retain: None }),
        assignment_plan(true, None, f, span())
    );
}

#[test]
fn parameters_are_bound_in_declaration_order() {
    let types = vec![parser::Type::Numeric, parser::Type::Vector, parser::Type::Bool, parser::Type::String];
    let values = vec![v(1), v(2), v(3), v(4)];
    assert_eq!(
        vec![
            (Value::Numeric(v(1)), None),
            (Value::Vec(v(2)), Some(call(Runtime::RetainVec, Operand::Value(v(2))))),
            (Value::Bool(v(3)), None),
            (Value::String(v(4)), Some(call(Runtime::RetainVec, Operand::Value(v(4))))),
        ],
        parameter_plan(&types, &values)
    );
    assert_eq!(Vec::<(Value, Option<RuntimeCall>)>::new(), parameter_plan(&vec![], &vec![]));
}

#[test]
fn scope_releases_exactly_what_its_names_hold() {
    let mut scope = Scope::new();
    scope.set("a", Variable::Vec(v(1)));
    scope.set("b", Variable::Bool(v(2)));
    scope.set_param("c", Value::String(v(3)));
    scope.set_param("d", Value::Numeric(v(4)));
    let released = scope.release_references();
    assert_eq!(Some(&Variable::Vec(v(1))), scope.get("a"));
    assert_eq!(Some(&Value::String(v(3))), scope.get_param("c"));
    assert_eq!(
        vec![
            call(Runtime::ReleaseVec, Operand::StoredAt(v(1))),
            call(Runtime::ReleaseString, Operand::Value(v(3))),
        ],
        released
    );
}

/// Compiles `left op right` on two numbers as the code generator does: both
/// operands are checked, then the instruction and the type of its result chosen.
fn compile_operation(op: Operator) -> (BinaryInstruction, Value) {
    let lhs = numeric_operand(Value::Numeric(v(1)), span()).unwrap();
    let rhs = numeric_operand(Value::Numeric(v(2)), span()).unwrap();
    assert_eq!((v(1), v(2)), (lhs, rhs));
    let instruction = binary_instruction(op);
    (instruction, binary_value(instruction, v(3)))
}

#[test]
fn test_addition() {
    let (instruction, val) = compile_operation(Operator::Plus);
    assert_eq!(BinaryInstruction::FAdd, instruction);
    assert_eq!(Value::Numeric(v(3)), val);
}

#[test]
fn test_subtraction() {
    let (instruction, val) = compile_operation(Operator::Minus);
    assert_eq!(BinaryInstruction::FSub, instruction);
    assert_eq!(Value::Numeric(v(3)), val);
}

#[test]
fn test_multiplication() {
    let (instruction, val) = compile_operation(Operator::Asterisk);
    assert_eq!(BinaryInstruction::FMul, instruction);
    assert_eq!(Value::Numeric(v(3)), val);
}

#[test]
fn test_division() {
    let (instruction, val) = compile_operation(Operator::Slash);
    assert_eq!(BinaryInstruction::FDiv, instruction);
    assert_eq!(Value::Numeric(v(3)), val);
}

#[test]
fn test_remainder() {
    let (instruction, val) = compile_operation(Operator::Mod);
    assert_eq!(BinaryInstruction::FRem, instruction);
    assert_eq!(Value::Numeric(v(3)), val);
}

#[test]
fn test_equality() {
    let (instruction, val) = compile_operation(Operator::Equal);
    assert_eq!(BinaryInstruction::FCmp(Cmp::Equal), instruction);
    assert_eq!(Value::Bool(v(3)), val);
}

#[test]
fn test_not_equal() {
    let (instruction, val) = compile_operation(Operator::NotEqual);
    assert_eq!(BinaryInstruction::FCmp(Cmp::NotEqual), instruction);
    assert_eq!(Value::Bool(v(3)), val);
}

#[test]
fn test_less() {
    let (instruction, val) = compile_operation(Operator::Less);
    assert_eq!(BinaryInstruction::FCmp(Cmp::Less), instruction);
    assert_eq!(Value::Bool(v(3)), val);
}

#[test]
fn test_less_or_equal() {
    let (instruction, val) = compile_operation(Operator::LessOrEqual);
    assert_eq!(BinaryInstruction::FCmp(Cmp::LessOrEqual), instruction);
    assert_eq!(Value::Bool(v(3)), val);
}

#[test]
fn test_greater() {
    let (instruction, val) = compile_operation(Operator::Greater);
    assert_eq!(BinaryInstruction::FCmp(Cmp::Greater), instruction);
    assert_eq!(Value::Bool(v(3)), val);
}

#[test]
fn test_greater_or_equal() {
    let (instruction, val) = compile_operation(Operator::GreaterOrEqual);
    assert_eq!(BinaryInstruction::FCmp(Cmp::GreaterOrEqual), instruction);
    assert_eq!(Value::Bool(v(3)), val);
}

/// Calls a declared function of return type `return_type` with `args` as the
/// code generator does, the call's LLVM result being `v(5)`.
fn compile_call(return_type: parser::Type, args: Vec<Value>) -> (Vec<LlvmValue>, Value) {
    let var = Variable::Function {
        val: Function(4),
        typ: Type(4),
        return_type,
    };
    let args: Vec<LlvmValue> = args.into_iter().map(|a| call_argument(a).unwrap()).collect();
    let (fun, ret) = callee(var, span()).unwrap();
    assert_eq!((Function(4), return_type), (fun, ret));
    (args, call_result(ret, v(5)).0)
}

#[test]
fn test_func_void_no_args_call() {
    let (args, val) = compile_call(parser::Type::Void, vec![]);
    assert!(args.is_empty());
    assert_eq!(Value::Void, val);
}

#[test]
fn test_func_numeric_no_args_call() {
    let (args, val) = compile_call(parser::Type::Numeric, vec![]);
    assert!(args.is_empty());
    assert_eq!(Value::Numeric(v(5)), val);
}

#[test]
fn test_func_boolean_no_args_call() {
    let (args, val) = compile_call(parser::Type::Bool, vec![]);
    assert!(args.is_empty());
    assert_eq!(Value::Bool(v(5)), val);
}

#[test]
fn test_func_ptr_no_args_call() {
    let (args, val) = compile_call(parser::Type::Ptr, vec![]);
    assert!(args.is_empty());
    assert_eq!(Value::Ptr(v(5)), val);
}

#[test]
fn test_func_one_arg() {
    let (args, val) = compile_call(parser::Type::Void, vec![Value::Numeric(v(6))]);
    assert_eq!(vec![v(6)], args);
    assert_eq!(Value::Void, val);
}

#[test]
fn test_numeric_assignment() {
    let right = Value::Numeric(v(3));
    let plan = assignment_plan(true, None, right, span()).unwrap();
    assert_eq!(AssignPlan::New { alloca: TypeRequest::Double, value: v(3), retain: None }, plan);
    assert!(matches!(new_variable(right, v(1)), Variable::Numeric(_)));
}

/// Whether compiling `left op right` fails as the code generator does: each
/// operand, left first, must be a number.
fn operation_fails(left: Value, op: Operator, right: Value) -> bool {
    let _ = binary_instruction(op);
    numeric_operand(left, span()).is_err() || numeric_operand(right, span()).is_err()
}

fn text() -> Value {
    Value::String(v(8))
}

fn number() -> Value {
    Value::Numeric(v(9))
}

#[test]
fn it_returns_err_when_adding_numeric_to_string() {
    assert!(operation_fails(number(), Operator::Plus, text()));
}

#[test]
fn it_returns_err_when_plus_string_to_numeric() {
    assert!(operation_fails(text(), Operator::Plus, number()));
}

#[test]
fn it_returns_err_when_substract_string_from_numeric() {
    assert!(operation_fails(number(), Operator::Minus, text()));
}

#[test]
fn it_returns_err_when_substract_numeric_from_string() {
    assert!(operation_fails(text(), Operator::Minus, number()));
}

#[test]
fn it_returns_err_when_multiple_numeric_by_string() {
    assert!(operation_fails(number(), Operator::Asterisk, text()));
}

#[test]
fn it_returns_err_when_multiple_string_to_numeric() {
    assert!(operation_fails(text(), Operator::Asterisk, number()));
}

#[test]
fn it_returns_err_when_less_or_equal_numeric_and_string() {
    assert!(operation_fails(number(), Operator::LessOrEqual, text()));
}

#[test]
fn it_returns_err_when_less_or_equal_string_to_numeric() {
    assert!(operation_fails(text(), Operator::LessOrEqual, number()));
}

#[test]
fn it_returns_err_when_less_numeric_and_string() {
    assert!(operation_fails(number(), Operator::Less, text()));
}

#[test]
fn it_returns_err_when_less_string_to_numeric() {
    assert!(operation_fails(text(), Operator::Less, number()));
}

#[test]
fn it_returns_err_when_greater_numeric_and_string() {
    assert!(operation_fails(number(), Operator::Greater, text()));
}

#[test]
fn it_returns_err_when_greater_string_to_numeric() {
    assert!(operation_fails(text(), Operator::Greater, number()));
}

#[test]
fn it_returns_err_when_greater_or_equal_numeric_and_string() {
    assert!(operation_fails(number(), Operator::GreaterOrEqual, text()));
}

#[test]
fn it_returns_err_when_greater_or_equal_string_to_numeric() {
    assert!(operation_fails(text(), Operator::GreaterOrEqual, number()));
}

#[test]
fn it_returns_err_when_equal_numeric_and_string() {
    assert!(operation_fails(number(), Operator::Equal, text()));
}

#[test]
fn it_returns_err_when_equal_string_to_numeric() {
    assert!(operation_fails(text(), Operator::Equal, number()));
}

#[test]
fn it_returns_err_when_slash_numeric_and_string() {
    assert!(operation_fails(number(), Operator::Slash, text()));
}

#[test]
fn it_returns_err_when_slash_string_to_numeric() {
    assert!(operation_fails(text(), Operator::Slash, number()));
}

#[test]
fn it_returns_err_when_not_equal_numeric_and_string() {
    assert!(operation_fails(number(), Operator::NotEqual, text()));
}

#[test]
fn it_returns_err_when_not_equal_string_to_numeric() {
    assert!(operation_fails(text(), Operator::NotEqual, number()));
}

#[test]
fn it_compiles_unary_operator() {
    assert_eq!(Ok(()), unary_operator(Operator::Minus, span()));
    assert_eq!(Ok(v(9)), numeric_operand(number(), span()));
}

#[test]
fn it_returns_err_when_pass_string_to_unary() {
    assert!(unary_operator(Operator::Minus, span()).is_ok());
    assert!(numeric_operand(text(), span()).is_err());
}

#[test]
fn it_returns_err_when_wrong_unary_operator() {
    assert!(unary_operator(Operator::Plus, span()).is_err());
}
