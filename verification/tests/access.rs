use roan::error::RoanError;
use roan::interpreter::access::{
    access_plan, field_assignment_check, index_assignment_check, static_access_plan, vec_index_target, AccessMember,
    AccessPlan, AssignBase, FieldAssignment,
};
use roan::methods::table::{BuiltinMethod, ValueKind};
use roan::position::Position;
use roan::span::TextSpan;

fn span(col: u32) -> TextSpan {
    TextSpan::new(Position::new(3, col, col as usize), Position::new(3, col + 1, col as usize + 1), "x".to_string())
}

fn strings(ns: &[&str]) -> Vec<String> {
    ns.iter().map(|n| n.to_string()).collect()
}

#[test]
fn vector_index_targets() {
    assert_eq!(vec_index_target(2, 3, span(1)).unwrap(), 2);
    match vec_index_target(3, 3, span(1)) {
        Err(RoanError::IndexOutOfBounds(i, n, s)) => {
            assert_eq!((i, n), (3, 3));
            assert_eq!(s, span(1));
        }
        other => panic!("expected IndexOutOfBounds, got {:?}", other),
    }
    match vec_index_target(-1, 3, span(1)) {
        Err(RoanError::IndexOutOfBounds(i, n, _)) => {
            assert_eq!(i, usize::MAX);
            assert_eq!(n, 3);
        }
        other => panic!("expected IndexOutOfBounds, got {:?}", other),
    }
}

#[test]
fn index_assignments_are_checked_in_order() {
    assert_eq!(index_assignment_check(true, Some(0), 1, true, span(5), span(1)).unwrap(), 0);
    assert!(matches!(
        index_assignment_check(true, Some(4), 1, false, span(5), span(1)),
        Err(RoanError::IndexOutOfBounds(4, 1, _))
    ));
    match index_assignment_check(true, Some(0), 1, false, span(5), span(1)) {
        Err(RoanError::InvalidAssignment(m, s)) => {
            assert_eq!(m, "Unable to determine variable for assignment");
            assert_eq!(s, span(1));
        }
        other => panic!("expected InvalidAssignment, got {:?}", other),
    }
    match index_assignment_check(false, Some(0), 1, true, span(5), span(1)) {
        Err(RoanError::TypeMismatch(m, s)) => {
            assert_eq!(m, "Left side of assignment must be a vector with integer index");
            assert_eq!(s, span(1));
        }
        other => panic!("expected TypeMismatch, got {:?}", other),
    }
    assert!(matches!(
        index_assignment_check(true, None, 1, true, span(5), span(1)),
        Err(RoanError::TypeMismatch(_, _))
    ));
}

#[test]
fn field_assignments_by_base() {
    let declared = strings(&["x", "y"]);
    assert_eq!(
        field_assignment_check(AssignBase::Object, &declared, "z", true, span(1)).unwrap(),
        FieldAssignment::SetObjectField
    );
    assert_eq!(
        field_assignment_check(AssignBase::Struct, &declared, "y", true, span(1)).unwrap(),
        FieldAssignment::SetStructField
    );
    assert_eq!(
        field_assignment_check(AssignBase::Struct, &declared, "z", true, span(1)).unwrap(),
        FieldAssignment::UnknownStructField
    );
    match field_assignment_check(AssignBase::Other, &declared, "x", true, span(1)) {
        Err(RoanError::TypeMismatch(m, _)) => assert_eq!(m, "Left side of assignment must be a struct or object"),
        other => panic!("expected TypeMismatch, got {:?}", other),
    }
    assert!(matches!(
        field_assignment_check(AssignBase::Object, &declared, "x", false, span(1)),
        Err(RoanError::InvalidAssignment(_, _))
    ));
}

#[test]
fn access_plans() {
    let methods = vec![("new".to_string(), true), ("area".to_string(), false), ("area".to_string(), false)];
    let fields = strings(&["w", "h"]);
    assert_eq!(
        access_plan(ValueKind::Struct, &methods, &fields, AccessMember::Call, "area", span(2)).unwrap(),
        AccessPlan::StructMethod(1)
    );
    match access_plan(ValueKind::Struct, &methods, &fields, AccessMember::Call, "new", span(2)) {
        Err(RoanError::PropertyNotFoundError(n, s)) => {
            assert_eq!(n, "new");
            assert_eq!(s, span(2));
        }
        other => panic!("expected PropertyNotFoundError, got {:?}", other),
    }
    assert_eq!(
        access_plan(ValueKind::String, &vec![], &vec![], AccessMember::Call, "len", span(2)).unwrap(),
        AccessPlan::Builtin(BuiltinMethod::StringLen)
    );
    assert!(matches!(
        access_plan(ValueKind::Int, &vec![], &vec![], AccessMember::Call, "len", span(2)),
        Err(RoanError::PropertyNotFoundError(_, _))
    ));
    assert_eq!(
        access_plan(ValueKind::Object, &vec![], &fields, AccessMember::Name, "h", span(2)).unwrap(),
        AccessPlan::Field(1)
    );
    assert!(matches!(
        access_plan(ValueKind::Vec, &vec![], &fields, AccessMember::Name, "h", span(2)),
        Err(RoanError::PropertyNotFoundError(_, _))
    ));
    assert_eq!(
        access_plan(ValueKind::Int, &vec![], &vec![], AccessMember::Other, "", span(2)).unwrap(),
        AccessPlan::Evaluate
    );
}

#[test]
fn static_access_plans() {
    let methods = vec![("area".to_string(), false), ("new".to_string(), true)];
    assert_eq!(static_access_plan(Some("Rect"), span(1), span(9), Some(&methods), Some("new"), span(7), span(7)).unwrap(), 1);
    assert!(matches!(
        static_access_plan(None, span(1), span(9), Some(&methods), Some("new"), span(7), span(7)),
        Err(RoanError::StaticMemberAccess(_))
    ));
    match static_access_plan(Some("Rect"), span(1), span(9), None, Some("new"), span(7), span(7)) {
        Err(RoanError::StructNotFoundError(n, s)) => {
            assert_eq!(n, "Rect");
            assert_eq!(s, span(1));
        }
        other => panic!("expected StructNotFoundError, got {:?}", other),
    }
    assert!(matches!(
        static_access_plan(Some("Rect"), span(1), span(9), Some(&methods), None, span(7), span(8)),
        Err(RoanError::StaticContext(_))
    ));
    match static_access_plan(Some("Rect"), span(1), span(9), Some(&methods), Some("area"), span(7), span(7)) {
        Err(RoanError::UndefinedFunctionError(n, _)) => assert_eq!(n, "area"),
        other => panic!("expected UndefinedFunctionError, got {:?}", other),
    }
}
