use roan::error::RoanError;
use roan::interpreter::imports::import_plan;
use roan::interpreter::rules::{
    assignment_type, binary_type, check_assignment, check_binary, then_else_type, unary_type,
    vector_type, Annotation, AssignOperator, BinOpKind, OperatorClass, UnOpKind,
};
use roan::interpreter::types::{ResolvedType, TypePass};
use roan::methods::table::{builtin_method, value_kind_of, BuiltinMethod, ValueKind};
use roan::position::Position;
use roan::span::TextSpan;

fn sp(col: u32) -> TextSpan {
    TextSpan::new(Position::new(1, col, 0), Position::new(1, col + 1, 1), "x".to_string())
}

fn message(r: Result<ResolvedType, RoanError>) -> String {
    match r {
        Err(RoanError::TypeMismatch(m, _)) => m,
        _ => panic!("expected a type mismatch"),
    }
}

#[test]
fn number_operators() {
    let n = OperatorClass::Number;
    assert_eq!(binary_type(BinOpKind::Plus, n, &ResolvedType::Int, &ResolvedType::Int, "int", "int", sp(1)).unwrap(), ResolvedType::Int);
    assert_eq!(binary_type(BinOpKind::Minus, n, &ResolvedType::Int, &ResolvedType::Float, "int", "float", sp(1)).unwrap(), ResolvedType::Float);
    assert_eq!(binary_type(BinOpKind::Plus, n, &ResolvedType::String, &ResolvedType::Char, "string", "char", sp(1)).unwrap(), ResolvedType::String);
    let e = binary_type(BinOpKind::Minus, n, &ResolvedType::String, &ResolvedType::String, "string", "string", sp(1));
    assert_eq!(message(e), "Invalid binary operation between string and string");
    assert!(check_binary(BinOpKind::Plus, n, &ResolvedType::Bool, &ResolvedType::Int, sp(4)).is_err());
}

#[test]
fn boolean_operators() {
    let b = OperatorClass::Boolean;
    assert_eq!(binary_type(BinOpKind::Equals, b, &ResolvedType::String, &ResolvedType::String, "a", "b", sp(1)).unwrap(), ResolvedType::Bool);
    assert_eq!(binary_type(BinOpKind::LessThan, b, &ResolvedType::Int, &ResolvedType::Float, "a", "b", sp(1)).unwrap(), ResolvedType::Bool);
    assert_eq!(binary_type(BinOpKind::And, b, &ResolvedType::Bool, &ResolvedType::Bool, "a", "b", sp(1)).unwrap(), ResolvedType::Bool);
    let e = binary_type(BinOpKind::BangEquals, b, &ResolvedType::String, &ResolvedType::String, "string", "string", sp(1));
    assert_eq!(message(e), "Invalid boolean operation between string and string");
    assert_eq!(
        check_binary(BinOpKind::Equals, b, &ResolvedType::Vector(Box::new(ResolvedType::Int)), &ResolvedType::Vector(Box::new(ResolvedType::Bool)), sp(1)).unwrap(),
        ResolvedType::Bool
    );
}

#[test]
fn unary_operators() {
    assert_eq!(unary_type(UnOpKind::Minus, ResolvedType::Float, "-", sp(1)).unwrap(), ResolvedType::Float);
    assert_eq!(unary_type(UnOpKind::LogicalNot, ResolvedType::Null, "!", sp(1)).unwrap(), ResolvedType::Bool);
    let e = unary_type(UnOpKind::BitwiseNot, ResolvedType::String, "~", sp(1));
    assert_eq!(message(e), "Unary operator ~ can only be applied to int or float");
}

#[test]
fn assignments() {
    assert_eq!(assignment_type(AssignOperator::Assign, ResolvedType::Int, ResolvedType::Float, "=", "int", "float", sp(1)).unwrap(), ResolvedType::Int);
    assert_eq!(assignment_type(AssignOperator::PlusEquals, ResolvedType::String, ResolvedType::Char, "+=", "string", "char", sp(1)).unwrap(), ResolvedType::String);
    let e = assignment_type(AssignOperator::Assign, ResolvedType::Int, ResolvedType::String, "=", "int", "string", sp(1));
    assert_eq!(message(e), "Cannot assign string to int");
    let e = assignment_type(AssignOperator::MinusEquals, ResolvedType::String, ResolvedType::Int, "-=", "string", "int", sp(1));
    assert_eq!(message(e), "Invalid -= assignment between string and int");
    match check_assignment(AssignOperator::DivideEquals, "/=", ResolvedType::Bool, ResolvedType::Int, sp(7)) {
        Err(RoanError::TypeMismatch(_, s)) => assert_eq!(s, sp(7)),
        _ => panic!("expected a type mismatch"),
    }
}

#[test]
fn then_else_branches() {
    assert_eq!(then_else_type(ResolvedType::Int, ResolvedType::Float, None, sp(1)).unwrap(), ResolvedType::Int);
    assert_eq!(
        message(then_else_type(ResolvedType::Int, ResolvedType::String, None, sp(1))),
        "Two branches of a then-else expression must have the same type"
    );
    let ann = Annotation { is_any: false, resolved: ResolvedType::Float, written_as: "float".to_string(), generic_any_object: false, generic_any_vec: false, element: None };
    assert_eq!(then_else_type(ResolvedType::Int, ResolvedType::Float, Some(ann), sp(1)).unwrap(), ResolvedType::Float);
    let ann = Annotation { is_any: false, resolved: ResolvedType::Bool, written_as: "bool".to_string(), generic_any_object: false, generic_any_vec: false, element: None };
    assert_eq!(
        message(then_else_type(ResolvedType::Int, ResolvedType::Bool, Some(ann), sp(1))),
        "Both branches of a then-else expression must match type annotation: bool"
    );
    let ann = Annotation { is_any: true, resolved: ResolvedType::Any, written_as: "anytype".to_string(), generic_any_object: false, generic_any_vec: false, element: None };
    assert_eq!(then_else_type(ResolvedType::Int, ResolvedType::Bool, Some(ann), sp(1)).unwrap(), ResolvedType::Any);
}

#[test]
fn vector_literals() {
    assert_eq!(vector_type(&vec![], None, false).unwrap(), ResolvedType::Vector(Box::new(ResolvedType::Null)));
    assert_eq!(vector_type(&vec![(ResolvedType::Int, sp(1)), (ResolvedType::Float, sp(3))], None, false).unwrap(), ResolvedType::Vector(Box::new(ResolvedType::Int)));
    match vector_type(&vec![(ResolvedType::Int, sp(1)), (ResolvedType::String, sp(3))], None, false) {
        Err(RoanError::TypeMismatch(m, s)) => {
            assert_eq!(m, "All elements of a vector must have the same type");
            assert_eq!(s, sp(3));
        }
        _ => panic!("expected a type mismatch"),
    }
    assert_eq!(vector_type(&vec![(ResolvedType::Int, sp(1)), (ResolvedType::String, sp(3))], None, true).unwrap(), ResolvedType::Vector(Box::new(ResolvedType::Any)));
    let e = vector_type(&vec![(ResolvedType::Int, sp(1)), (ResolvedType::Bool, sp(3))], Some((ResolvedType::Int, "vec<int>".to_string())), false);
    assert_eq!(message(e), "All elements of a vector must match type annotation: vec<int>");
}

#[test]
fn variables_and_constants() {
    let mut pass = TypePass::new();
    pass.declare_variable("x".to_string(), ResolvedType::Char);
    assert_eq!(pass.variable_type("x", Some(ResolvedType::Int), sp(1)).unwrap(), ResolvedType::Char);
    assert_eq!(pass.variable_type("PI", Some(ResolvedType::Float), sp(1)).unwrap(), ResolvedType::Float);
    match pass.variable_type("y", None, sp(2)) {
        Err(RoanError::VariableNotFoundError(n, s)) => {
            assert_eq!(n, "y");
            assert_eq!(s, sp(2));
        }
        _ => panic!("expected VariableNotFoundError"),
    }
}

#[test]
fn method_table() {
    assert_eq!(builtin_method(ValueKind::String, "split"), Some(BuiltinMethod::StringSplit));
    assert_eq!(builtin_method(ValueKind::Vec, "next"), Some(BuiltinMethod::VecNext));
    assert_eq!(builtin_method(ValueKind::Vec, "push"), None);
    assert_eq!(builtin_method(ValueKind::Char, "to_int"), Some(BuiltinMethod::CharToInt));
    assert_eq!(builtin_method(ValueKind::String, "to_int"), None);
    assert_eq!(builtin_method(ValueKind::Int, "len"), None);
    assert_eq!(value_kind_of(&ResolvedType::Vector(Box::new(ResolvedType::Int))), ValueKind::Vec);
    assert_eq!(value_kind_of(&ResolvedType::Void), ValueKind::Null);
}

#[test]
fn imports_stop_at_the_first_missing_item() {
    let exports = vec!["print".to_string(), "Point".to_string(), "print".to_string()];
    let items = vec![("Point".to_string(), sp(1)), ("print".to_string(), sp(2))];
    let (plan, err) = import_plan(&exports, &items);
    assert_eq!(plan, vec![1, 0]);
    assert!(err.is_none());
    let items = vec![("print".to_string(), sp(1)), ("nope".to_string(), sp(5)), ("Point".to_string(), sp(9))];
    let (plan, err) = import_plan(&exports, &items);
    assert_eq!(plan, vec![0]);
    match err {
        Some(RoanError::ImportError(n, s)) => {
            assert_eq!(n, "nope");
            assert_eq!(s, sp(5));
        }
        _ => panic!("expected ImportError"),
    }
}
