use roan::error::RoanError;
use roan::interpreter::types::{ResolvedType, TypePass};
use roan::span::TextSpan;

#[test]
fn declared_variables_are_found_innermost_first() {
    let mut pass = TypePass::new();
    pass.declare_variable("x".to_string(), ResolvedType::Int);
    assert_eq!(pass.find_variable("x"), Some(&ResolvedType::Int));
    pass.enter_scope();
    assert_eq!(pass.find_variable("x"), Some(&ResolvedType::Int));
    pass.declare_variable("x".to_string(), ResolvedType::String);
    assert_eq!(pass.find_variable("x"), Some(&ResolvedType::String));
    pass.exit_scope();
    assert_eq!(pass.find_variable("x"), Some(&ResolvedType::Int));
    assert_eq!(pass.find_variable("y"), None);
}

#[test]
fn set_variable_updates_the_declaring_scope() {
    let mut pass = TypePass::new();
    pass.declare_variable("x".to_string(), ResolvedType::Int);
    pass.enter_scope();
    assert!(pass.set_variable("x", ResolvedType::Bool).is_ok());
    assert_eq!(pass.find_variable("x"), Some(&ResolvedType::Bool));
    pass.exit_scope();
    assert_eq!(pass.find_variable("x"), Some(&ResolvedType::Bool));
}

#[test]
fn set_undeclared_variable_is_an_error() {
    let mut pass = TypePass::new();
    match pass.set_variable("y", ResolvedType::Int) {
        Err(RoanError::VariableNotFoundError(name, span)) => {
            assert_eq!(name, "y");
            assert_eq!(span, TextSpan::default());
        }
        _ => panic!("expected VariableNotFoundError"),
    }
}

#[test]
fn exit_of_the_last_scope_leaves_none() {
    let mut pass = TypePass::new();
    pass.exit_scope();
    pass.exit_scope();
    pass.declare_variable("z".to_string(), ResolvedType::Int);
    assert_eq!(pass.find_variable("z"), None);
}

#[test]
fn type_matching() {
    assert!(ResolvedType::matches(ResolvedType::Int, ResolvedType::Float));
    assert!(ResolvedType::matches(ResolvedType::Char, ResolvedType::String));
    assert!(!ResolvedType::matches(ResolvedType::String, ResolvedType::Int));
    assert!(!ResolvedType::matches(ResolvedType::Bool, ResolvedType::Bool));
    assert!(ResolvedType::matches(ResolvedType::Void, ResolvedType::Void));
    assert!(ResolvedType::matches(ResolvedType::Null, ResolvedType::Any));
    assert!(ResolvedType::matches(
        ResolvedType::Vector(Box::new(ResolvedType::Int)),
        ResolvedType::Vector(Box::new(ResolvedType::Float))
    ));
    assert!(!ResolvedType::matches(
        ResolvedType::Vector(Box::new(ResolvedType::Int)),
        ResolvedType::Object(Box::new(ResolvedType::Int))
    ));
    assert!(ResolvedType::matches(
        ResolvedType::Struct("P".to_string(), "m".to_string()),
        ResolvedType::Struct("P".to_string(), "m".to_string())
    ));
    assert!(!ResolvedType::matches(
        ResolvedType::Struct("P".to_string(), "m".to_string()),
        ResolvedType::Struct("P".to_string(), "n".to_string())
    ));
}

#[test]
fn matching_is_symmetric_on_samples() {
    let samples = vec![
        ResolvedType::Int,
        ResolvedType::Float,
        ResolvedType::String,
        ResolvedType::Char,
        ResolvedType::Bool,
        ResolvedType::Any,
        ResolvedType::Null,
        ResolvedType::Void,
        ResolvedType::Vector(Box::new(ResolvedType::Char)),
    ];
    for a in &samples {
        for b in &samples {
            assert_eq!(
                ResolvedType::matches(a.duplicate(), b.duplicate()),
                ResolvedType::matches(b.duplicate(), a.duplicate())
            );
        }
    }
}

#[test]
fn matches_to_needs_both() {
    assert!(ResolvedType::matches_to(ResolvedType::Int, ResolvedType::Float, ResolvedType::Int));
    assert!(!ResolvedType::matches_to(ResolvedType::Int, ResolvedType::String, ResolvedType::Int));
}

#[test]
fn type_names() {
    assert_eq!(ResolvedType::Int.to_string(), "int");
    assert_eq!(
        ResolvedType::Vector(Box::new(ResolvedType::Object(Box::new(ResolvedType::Int)))).to_string(),
        "vec<object<int>>"
    );
    assert_eq!(ResolvedType::Struct("Point".to_string(), "geo".to_string()).to_string(), "Point");
}
