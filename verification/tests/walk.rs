use roan::error::RoanError;
use roan::interpreter::rules::{Annotation, BinOpKind, OperatorClass};
use roan::interpreter::types::{ResolvedType, TypePass};
use roan::interpreter::walk::{
    Expr, ExprKind, FieldType, FnSig, LiteralKind, MethodSig, ParamType, Program, Stmt, StructTypes,
};
use roan::position::Position;
use roan::span::TextSpan;

fn span(col: u32, text: &str) -> TextSpan {
    let len = text.chars().count() as u32;
    TextSpan::new(
        Position::new(1, col, (col - 1) as usize),
        Position::new(1, col + len, (col - 1 + len) as usize),
        text.to_string(),
    )
}

fn expr(kind: ExprKind, col: u32, text: &str) -> Expr {
    Expr { kind, span: span(col, text) }
}

fn int_lit(col: u32) -> Expr {
    expr(ExprKind::Literal(LiteralKind::Int), col, "1")
}

fn str_lit(col: u32) -> Expr {
    expr(ExprKind::Literal(LiteralKind::String), col, "\"a\"")
}

fn var(name: &str, col: u32) -> Expr {
    expr(ExprKind::Variable(name.to_string(), span(col, name)), col, name)
}

fn annotation(resolved: ResolvedType, written_as: &str) -> Annotation {
    Annotation {
        is_any: false,
        resolved,
        written_as: written_as.to_string(),
        generic_any_object: false,
        generic_any_vec: false,
        element: None,
    }
}

fn param(ty: ResolvedType, nullable: bool, rest: bool) -> ParamType {
    ParamType { ty, nullable, rest }
}

fn point_struct() -> StructTypes {
    StructTypes {
        name: "Point".to_string(),
        fields: vec![
            FieldType { name: "x".to_string(), annotation: annotation(ResolvedType::Int, "int"), nullable: false },
            FieldType { name: "label".to_string(), annotation: annotation(ResolvedType::String, "string"), nullable: true },
        ],
        methods: vec![
            MethodSig {
                name: "origin".to_string(),
                is_static: true,
                params: vec![],
                returns_here: ResolvedType::Struct("Point".to_string(), "main".to_string()),
                returns_stored: ResolvedType::Struct("Point".to_string(), "main".to_string()),
            },
            MethodSig {
                name: "norm".to_string(),
                is_static: false,
                params: vec![],
                returns_here: ResolvedType::Float,
                returns_stored: ResolvedType::Float,
            },
        ],
    }
}

fn program() -> Program {
    Program {
        current: "main".to_string(),
        structs: vec![point_struct()],
        loaded: vec![("main".to_string(), vec![point_struct()])],
        consts: vec![("LIMIT".to_string(), ResolvedType::Int)],
    }
}

fn functions() -> Vec<FnSig> {
    vec![
        FnSig {
            name: "greet".to_string(),
            native: false,
            params: vec![param(ResolvedType::String, false, false), param(ResolvedType::Int, true, false)],
            returns: ResolvedType::String,
        },
        FnSig {
            name: "sum".to_string(),
            native: true,
            params: vec![param(ResolvedType::Int, false, true)],
            returns: ResolvedType::Int,
        },
    ]
}

fn check(pass: &TypePass, e: &Expr) -> Result<ResolvedType, RoanError> {
    let mut fns = functions();
    pass.validate_and_get_type_expr(e, &program(), &mut fns, &None)
}

#[test]
fn literals_have_their_types() {
    let pass = TypePass::new();
    let cases = [
        (LiteralKind::String, ResolvedType::String),
        (LiteralKind::Int, ResolvedType::Int),
        (LiteralKind::Float, ResolvedType::Float),
        (LiteralKind::Bool, ResolvedType::Bool),
        (LiteralKind::Null, ResolvedType::Null),
        (LiteralKind::Char, ResolvedType::Char),
    ];
    for (kind, ty) in cases {
        assert_eq!(check(&pass, &expr(ExprKind::Literal(kind), 1, "x")).unwrap(), ty);
    }
    assert_eq!(check(&pass, &expr(ExprKind::Other, 1, "x")).unwrap(), ResolvedType::Null);
}

#[test]
fn binary_operations_are_typed_by_their_family() {
    let pass = TypePass::new();
    let add = expr(
        ExprKind::Binary(BinOpKind::Plus, Some(OperatorClass::Number), Box::new(int_lit(1)), Box::new(int_lit(5))),
        1,
        "1 + 1",
    );
    assert_eq!(check(&pass, &add).unwrap(), ResolvedType::Int);
    let mixed = expr(
        ExprKind::Binary(
            BinOpKind::Plus,
            Some(OperatorClass::Number),
            Box::new(int_lit(1)),
            Box::new(expr(ExprKind::Literal(LiteralKind::Float), 5, "2.5")),
        ),
        1,
        "1 + 2.5",
    );
    assert_eq!(check(&pass, &mixed).unwrap(), ResolvedType::Float);
    let compare = expr(
        ExprKind::Binary(BinOpKind::LessThan, Some(OperatorClass::Boolean), Box::new(int_lit(1)), Box::new(int_lit(5))),
        1,
        "1 < 1",
    );
    assert_eq!(check(&pass, &compare).unwrap(), ResolvedType::Bool);
    let bad = expr(
        ExprKind::Binary(BinOpKind::Minus, Some(OperatorClass::Number), Box::new(str_lit(1)), Box::new(int_lit(7))),
        1,
        "\"a\" - 1",
    );
    match check(&pass, &bad) {
        Err(RoanError::TypeMismatch(_, s)) => assert_eq!(s, span(1, "\"a\" - 1")),
        other => panic!("expected a mismatch, got {:?}", other),
    }
}

#[test]
fn variables_come_from_scopes_then_constants() {
    let mut pass = TypePass::new();
    pass.declare_variable("x".to_string(), ResolvedType::Bool);
    assert_eq!(check(&pass, &var("x", 1)).unwrap(), ResolvedType::Bool);
    assert_eq!(check(&pass, &var("LIMIT", 1)).unwrap(), ResolvedType::Int);
    match check(&pass, &var("y", 3)) {
        Err(RoanError::VariableNotFoundError(name, s)) => {
            assert_eq!(name, "y");
            assert_eq!(s, span(3, "y"));
        }
        other => panic!("expected VariableNotFoundError, got {:?}", other),
    }
}

fn call(name: &str, args: Vec<Expr>) -> Expr {
    expr(ExprKind::Call(name.to_string(), span(1, name), args), 1, "call")
}

#[test]
fn calls_are_checked_against_parameters() {
    let pass = TypePass::new();
    // The second parameter is nullable and may be left out.
    assert_eq!(check(&pass, &call("greet", vec![str_lit(7)])).unwrap(), ResolvedType::String);
    assert_eq!(check(&pass, &call("greet", vec![str_lit(7), int_lit(12)])).unwrap(), ResolvedType::String);
    match check(&pass, &call("greet", vec![int_lit(7)])) {
        Err(RoanError::TypeMismatch(_, s)) => assert_eq!(s, span(7, "1")),
        other => panic!("expected a mismatch at the argument, got {:?}", other),
    }
    match check(&pass, &call("greet", vec![])) {
        Err(RoanError::MissingParameter(_, s)) => assert_eq!(s, span(1, "greet")),
        other => panic!("expected MissingParameter, got {:?}", other),
    }
    match check(&pass, &call("nope", vec![])) {
        Err(RoanError::UndefinedFunctionError(name, s)) => {
            assert_eq!(name, "nope");
            assert_eq!(s, span(1, "nope"));
        }
        other => panic!("expected UndefinedFunctionError, got {:?}", other),
    }
}

#[test]
fn a_rest_parameter_takes_every_remaining_argument() {
    let pass = TypePass::new();
    assert_eq!(check(&pass, &call("sum", vec![])).unwrap(), ResolvedType::Int);
    assert_eq!(check(&pass, &call("sum", vec![int_lit(5), int_lit(8), int_lit(11)])).unwrap(), ResolvedType::Int);
    match check(&pass, &call("sum", vec![int_lit(5), str_lit(8)])) {
        Err(RoanError::TypeMismatch(_, s)) => assert_eq!(s, span(8, "\"a\"")),
        other => panic!("expected a mismatch at the second argument, got {:?}", other),
    }
}

fn construct(name: &str, given: Vec<(&str, Expr)>) -> Expr {
    let given = given.into_iter().map(|(n, e)| (n.to_string(), e)).collect();
    expr(ExprKind::StructConstructor(name.to_string(), span(1, name), given), 1, "Point { }")
}

#[test]
fn struct_constructors_check_their_fields() {
    let pass = TypePass::new();
    assert_eq!(
        check(&pass, &construct("Point", vec![("x", int_lit(10))])).unwrap(),
        ResolvedType::Struct("Point".to_string(), "main".to_string())
    );
    match check(&pass, &construct("Point", vec![("label", str_lit(10))])) {
        Err(RoanError::MissingField(_, _, s)) => assert_eq!(s, span(1, "Point")),
        other => panic!("expected MissingField, got {:?}", other),
    }
    match check(&pass, &construct("Point", vec![("x", str_lit(10))])) {
        Err(RoanError::TypeMismatch(_, s)) => assert_eq!(s, span(10, "\"a\"")),
        other => panic!("expected a mismatch at the field, got {:?}", other),
    }
    match check(&pass, &construct("Line", vec![])) {
        Err(RoanError::StructNotFoundError(name, s)) => {
            assert_eq!(name, "Line");
            assert_eq!(s, span(1, "Line"));
        }
        other => panic!("expected StructNotFoundError, got {:?}", other),
    }
}

#[test]
fn vector_and_object_literals() {
    let pass = TypePass::new();
    let v = expr(ExprKind::Vec(vec![int_lit(2), int_lit(5)]), 1, "[1, 1]");
    assert_eq!(check(&pass, &v).unwrap(), ResolvedType::Vector(Box::new(ResolvedType::Int)));
    let empty = expr(ExprKind::Vec(vec![]), 1, "[]");
    assert_eq!(check(&pass, &empty).unwrap(), ResolvedType::Vector(Box::new(ResolvedType::Null)));
    let mixed = expr(ExprKind::Vec(vec![int_lit(2), str_lit(5)]), 1, "[1, \"a\"]");
    match check(&pass, &mixed) {
        Err(RoanError::TypeMismatch(m, s)) => {
            assert_eq!(m, "All elements of a vector must have the same type");
            assert_eq!(s, span(5, "\"a\""));
        }
        other => panic!("expected a mismatch, got {:?}", other),
    }
    let obj = expr(
        ExprKind::Object(vec![("a".to_string(), int_lit(6)), ("b".to_string(), int_lit(12))]),
        1,
        "{a: 1, b: 1}",
    );
    assert_eq!(check(&pass, &obj).unwrap(), ResolvedType::Object(Box::new(ResolvedType::Int)));
    let bad_obj = expr(
        ExprKind::Object(vec![("a".to_string(), int_lit(6)), ("b".to_string(), str_lit(12))]),
        1,
        "{a: 1, b: \"a\"}",
    );
    match check(&pass, &bad_obj) {
        Err(RoanError::TypeMismatch(m, s)) => {
            assert_eq!(m, "All fields of an object must have the same type");
            assert_eq!(s, span(12, "\"a\""));
        }
        other => panic!("expected a mismatch, got {:?}", other),
    }
}

#[test]
fn indexing_by_base_and_index_types() {
    let mut pass = TypePass::new();
    pass.declare_variable("v".to_string(), ResolvedType::Vector(Box::new(ResolvedType::Bool)));
    pass.declare_variable("s".to_string(), ResolvedType::String);
    let index = |base: &str, i: Expr| expr(ExprKind::Index(Box::new(var(base, 1)), Box::new(i)), 1, "x[i]");
    assert_eq!(check(&pass, &index("v", int_lit(3))).unwrap(), ResolvedType::Bool);
    assert_eq!(check(&pass, &index("s", int_lit(3))).unwrap(), ResolvedType::Char);
    match check(&pass, &index("v", str_lit(3))) {
        Err(RoanError::TypeMismatch(m, s)) => {
            assert_eq!(m, "Vectors can only be indexed with integers");
            assert_eq!(s, span(3, "\"a\""));
        }
        other => panic!("expected a mismatch, got {:?}", other),
    }
}

#[test]
fn field_access_on_structs_and_built_in_values() {
    let mut pass = TypePass::new();
    pass.declare_variable("p".to_string(), ResolvedType::Struct("Point".to_string(), "main".to_string()));
    pass.declare_variable("s".to_string(), ResolvedType::String);
    let field = |base: &str, f: Expr| expr(ExprKind::Field(Box::new(var(base, 1)), Box::new(f)), 1, "x.f");
    assert_eq!(check(&pass, &field("p", var("x", 3))).unwrap(), ResolvedType::Int);
    assert_eq!(check(&pass, &field("p", call("norm", vec![]))).unwrap(), ResolvedType::Float);
    assert_eq!(check(&pass, &field("s", call("len", vec![]))).unwrap(), ResolvedType::Any);
    match check(&pass, &field("p", var("z", 3))) {
        Err(RoanError::PropertyNotFoundError(name, s)) => {
            assert_eq!(name, "z");
            assert_eq!(s, span(3, "z"));
        }
        other => panic!("expected PropertyNotFoundError, got {:?}", other),
    }
    match check(&pass, &field("s", call("shout", vec![]))) {
        Err(RoanError::PropertyNotFoundError(name, _)) => assert_eq!(name, "shout"),
        other => panic!("expected PropertyNotFoundError, got {:?}", other),
    }
}

#[test]
fn static_method_calls_leave_the_functions_as_they_were() {
    let pass = TypePass::new();
    let mut fns = functions();
    let e = expr(ExprKind::StaticMethod(Box::new(var("Point", 1)), Box::new(call("origin", vec![]))), 1, "Point::origin()");
    let r = pass.validate_and_get_type_expr(&e, &program(), &mut fns, &None);
    assert_eq!(r.unwrap(), ResolvedType::Struct("Point".to_string(), "main".to_string()));
    assert_eq!(fns.len(), 2);
    assert_eq!(fns[0].name, "greet");
    assert_eq!(fns[1].name, "sum");
    let not_static = expr(ExprKind::StaticMethod(Box::new(var("Point", 1)), Box::new(call("norm", vec![]))), 1, "Point::norm()");
    match pass.validate_and_get_type_expr(&not_static, &program(), &mut fns, &None) {
        Err(RoanError::UndefinedFunctionError(name, _)) => assert_eq!(name, "norm"),
        other => panic!("expected UndefinedFunctionError, got {:?}", other),
    }
    let on_value = expr(ExprKind::StaticMethod(Box::new(int_lit(1)), Box::new(call("origin", vec![]))), 1, "1::origin()");
    match pass.validate_and_get_type_expr(&on_value, &program(), &mut fns, &None) {
        Err(RoanError::StaticMemberAccess(s)) => assert_eq!(s, span(1, "1::origin()")),
        other => panic!("expected StaticMemberAccess, got {:?}", other),
    }
}

#[test]
fn let_declares_in_the_current_scope_and_blocks_close_theirs() {
    let mut pass = TypePass::new();
    let mut fns = functions();
    let prog = program();
    let let_x = Stmt::Let("x".to_string(), None, int_lit(9));
    assert!(pass.validate_stmt(&let_x, &prog, &mut fns).is_ok());
    assert_eq!(pass.find_variable("x"), Some(&ResolvedType::Int));
    let block = Stmt::Block(vec![
        Stmt::Let("y".to_string(), Some((annotation(ResolvedType::Float, "float"), ResolvedType::Float)), int_lit(9)),
        Stmt::Expr(var("y", 1)),
    ]);
    assert!(pass.validate_stmt(&block, &prog, &mut fns).is_ok());
    assert_eq!(pass.find_variable("y"), None);
    assert_eq!(pass.find_variable("x"), Some(&ResolvedType::Int));
    let f = Stmt::Fn(vec![("a".to_string(), ResolvedType::String)], vec![Stmt::Expr(var("a", 1))]);
    assert!(pass.validate_stmt(&f, &prog, &mut fns).is_ok());
    assert_eq!(pass.find_variable("a"), None);
    let bad = Stmt::If(vec![Stmt::Expr(var("x", 1))], vec![vec![Stmt::Expr(var("missing", 4))]], None);
    match pass.validate_stmt(&bad, &prog, &mut fns) {
        Err(RoanError::VariableNotFoundError(name, s)) => {
            assert_eq!(name, "missing");
            assert_eq!(s, span(4, "missing"));
        }
        other => panic!("expected VariableNotFoundError, got {:?}", other),
    }
}

#[test]
fn scopes_come_back_after_a_closed_scope() {
    let mut pass = TypePass::new();
    pass.declare_variable("x".to_string(), ResolvedType::Int);
    pass.enter_scope();
    pass.declare_variable("x".to_string(), ResolvedType::String);
    pass.declare_variable("y".to_string(), ResolvedType::Bool);
    pass.declare_variable("z".to_string(), ResolvedType::Char);
    pass.exit_scope();
    assert_eq!(pass.find_variable("x"), Some(&ResolvedType::Int));
    assert_eq!(pass.find_variable("y"), None);
    assert_eq!(pass.find_variable("z"), None);
}
