use vstd::prelude::*;
use crate::error::RoanError;
use crate::interpreter::rules::{
    check_assignment, check_binary, then_else_type, unary_type, assignment_allowed, binary_result, unary_result, then_else_result, annotation_view, Annotation,
    AssignOperator, BinOpKind, OperatorClass, UnOpKind,
};
use crate::interpreter::types::{declare, lookup, types_match, ResolvedType};
use crate::methods::table::{builtin_method, kind_of_type, method_table, value_kind_of};
use crate::interpreter::rules::highlighted;
use crate::interpreter::types::TypePass;
use crate::text::push_str;
use crate::span::TextSpan;

verus! {

/// The kind of a literal; the type pass reads nothing else of it.
#[derive(Debug, Clone, Copy, PartialEq, Eq)]
pub enum LiteralKind {
    String,
    Int,
    Float,
    Bool,
    Null,
    Char,
}

/// An expression of a Roan program as the type pass reads it, with its span.
#[derive(Debug)]
pub struct Expr {
    pub kind: ExprKind,
    pub span: TextSpan,
}

/// The forms of expressions the type pass distinguishes.
#[derive(Debug)]
pub enum ExprKind {
    Literal(LiteralKind),
    Null,
    /// Field names and values.
    Object(Vec<(String, Expr)>),
    /// The struct's name and the span of its name, and the given fields.
    StructConstructor(String, TextSpan, Vec<(String, Expr)>),
    ThenElse(Box<Expr>, Box<Expr>),
    Vec(Vec<Expr>),
    /// The operator, the operator as written, and the operand.
    Unary(UnOpKind, String, Box<Expr>),
    Parenthesized(Box<Expr>),
    /// The operator, its family (`None` for an operator of neither family), and the operands.
    Binary(BinOpKind, Option<OperatorClass>, Box<Expr>, Box<Expr>),
    /// The operator, the operator as written, and the two sides.
    Assign(AssignOperator, String, Box<Expr>, Box<Expr>),
    /// The variable's name and the span of its name.
    Variable(String, TextSpan),
    /// The callee's name, the span of its name, and the arguments.
    Call(String, TextSpan, Vec<Expr>),
    /// `base[index]`.
    Index(Box<Expr>, Box<Expr>),
    /// `base.field`, where the field is a call or a name.
    Field(Box<Expr>, Box<Expr>),
    /// `Base::member`, where the member is a call.
    StaticMethod(Box<Expr>, Box<Expr>),
    /// Any other expression: the type pass gives it the null type.
    Other,
}

/// A parameter of a function as calls are checked against it.
#[derive(Debug)]
pub struct ParamType {
    pub ty: ResolvedType,
    pub nullable: bool,
    pub rest: bool,
}

/// A function a module can call: its name, whether it is native, its parameters and the
/// type its calls have.
#[derive(Debug)]
pub struct FnSig {
    pub name: String,
    pub native: bool,
    pub params: Vec<ParamType>,
    pub returns: ResolvedType,
}

/// A function as the type pass reads it, with its texts and parameters as sequences.
pub struct FnView {
    pub name: Seq<char>,
    pub native: bool,
    pub params: Seq<ParamType>,
    pub returns: ResolvedType,
}

/// The view of a function.
pub open spec fn fn_view(f: FnSig) -> FnView {
    FnView { name: f.name@, native: f.native, params: f.params@, returns: f.returns }
}

/// The views of functions.
pub open spec fn fns_view(v: Seq<FnSig>) -> Seq<FnView> {
    v.map_values(|f: FnSig| fn_view(f))
}

/// A method of a struct: its name, whether it is static, its parameters, the type of a
/// call to it from the module being checked (for a static method), and the type its
/// declared return type stands for (for a method called on a value).
#[derive(Debug)]
pub struct MethodSig {
    pub name: String,
    pub is_static: bool,
    pub params: Vec<ParamType>,
    pub returns_here: ResolvedType,
    pub returns_stored: ResolvedType,
}

/// A field of a struct: its name, its annotation and whether it may be left out.
#[derive(Debug)]
pub struct FieldType {
    pub name: String,
    pub annotation: Annotation,
    pub nullable: bool,
}

/// A struct as the type pass reads it: its name, fields and methods.
#[derive(Debug)]
pub struct StructTypes {
    pub name: String,
    pub fields: Vec<FieldType>,
    pub methods: Vec<MethodSig>,
}

/// What the type pass reads of the program around an expression: the id of the module
/// being checked, its structs, the structs of each loaded module (by module id), and
/// the types of the module's constants.
#[derive(Debug)]
pub struct Program {
    pub current: String,
    pub structs: Vec<StructTypes>,
    pub loaded: Vec<(String, Vec<StructTypes>)>,
    pub consts: Vec<(String, ResolvedType)>,
}

/// An error of the type pass, taken by its kind, its span and, where it holds no
/// highlighted text, its message or name.
pub enum CheckError {
    Mismatch(Option<Seq<char>>, TextSpan),
    VariableNotFound(Seq<char>, TextSpan),
    UndefinedFunction(Seq<char>, TextSpan),
    MissingParameter(TextSpan),
    MissingField(TextSpan),
    PropertyNotFound(Seq<char>, TextSpan),
    StructNotFound(Seq<char>, TextSpan),
    StaticMemberAccess(TextSpan),
    StaticContext(TextSpan),
}

/// What checking an expression comes to: its type, an error, or a crash of the pass
/// (where it unwraps a missing module or generic argument, or meets an operator it
/// does not handle).
pub enum Checked {
    Type(ResolvedType),
    Failed(CheckError),
    Crash,
}

/// Whether the error is the one described.
pub open spec fn agrees(e: RoanError, c: CheckError) -> bool {
    match c {
        CheckError::Mismatch(Some(m), s) => e matches RoanError::TypeMismatch(m2, s2) && m2@ == m && s2 == s,
        CheckError::Mismatch(None, s) => e matches RoanError::TypeMismatch(_, s2) && s2 == s,
        CheckError::VariableNotFound(n, s) => e matches RoanError::VariableNotFoundError(n2, s2) && n2@ == n && s2 == s,
        CheckError::UndefinedFunction(n, s) => e matches RoanError::UndefinedFunctionError(n2, s2) && n2@ == n && s2 == s,
        CheckError::MissingParameter(s) => e matches RoanError::MissingParameter(_, s2) && s2 == s,
        CheckError::MissingField(s) => e matches RoanError::MissingField(_, _, s2) && s2 == s,
        CheckError::PropertyNotFound(n, s) => e matches RoanError::PropertyNotFoundError(n2, s2) && n2@ == n && s2 == s,
        CheckError::StructNotFound(n, s) => e matches RoanError::StructNotFoundError(n2, s2) && n2@ == n && s2 == s,
        CheckError::StaticMemberAccess(s) => e matches RoanError::StaticMemberAccess(s2) && s2 == s,
        CheckError::StaticContext(s) => e matches RoanError::StaticContext(s2) && s2 == s,
    }
}

/// Whether a result of checking is the one described.
pub open spec fn checked_as(r: Result<ResolvedType, RoanError>, c: Checked) -> bool {
    match c {
        Checked::Type(t) => r == Ok::<ResolvedType, RoanError>(t),
        Checked::Failed(e) => r matches Err(err) && agrees(err, e),
        Checked::Crash => false,
    }
}

/// The first function of the given name, natives included.
pub open spec fn find_fn(fns: Seq<FnView>, name: Seq<char>, k: int) -> Option<int>
    decreases fns.len() - k,
{
    if k < 0 || k >= fns.len() {
        None
    } else if fns[k].name == name {
        Some(k)
    } else {
        find_fn(fns, name, k + 1)
    }
}

/// The first function of the given name that is not native.
pub open spec fn find_user_fn(fns: Seq<FnView>, name: Seq<char>, k: int) -> Option<int>
    decreases fns.len() - k,
{
    if k < 0 || k >= fns.len() {
        None
    } else if fns[k].name == name && !fns[k].native {
        Some(k)
    } else {
        find_user_fn(fns, name, k + 1)
    }
}

/// The first struct of the given name in a list of structs.
pub open spec fn find_struct(structs: Seq<StructTypes>, name: Seq<char>, k: int) -> Option<int>
    decreases structs.len() - k,
{
    if k < 0 || k >= structs.len() {
        None
    } else if structs[k].name@ == name {
        Some(k)
    } else {
        find_struct(structs, name, k + 1)
    }
}

/// The first loaded module of the given id.
pub open spec fn find_module(loaded: Seq<(String, Vec<StructTypes>)>, id: Seq<char>, k: int) -> Option<int>
    decreases loaded.len() - k,
{
    if k < 0 || k >= loaded.len() {
        None
    } else if loaded[k].0@ == id {
        Some(k)
    } else {
        find_module(loaded, id, k + 1)
    }
}

/// The first method of the given name and staticness.
pub open spec fn find_method(methods: Seq<MethodSig>, name: Seq<char>, is_static: bool, k: int) -> Option<int>
    decreases methods.len() - k,
{
    if k < 0 || k >= methods.len() {
        None
    } else if methods[k].name@ == name && methods[k].is_static == is_static {
        Some(k)
    } else {
        find_method(methods, name, is_static, k + 1)
    }
}

/// The first field of the given name of a struct.
pub open spec fn find_field(fields: Seq<FieldType>, name: Seq<char>, k: int) -> Option<int>
    decreases fields.len() - k,
{
    if k < 0 || k >= fields.len() {
        None
    } else if fields[k].name@ == name {
        Some(k)
    } else {
        find_field(fields, name, k + 1)
    }
}

/// The first given field of a constructor with the name.
pub open spec fn find_given(given: Seq<(String, Expr)>, name: Seq<char>, k: int) -> Option<int>
    decreases given.len() - k,
{
    if k < 0 || k >= given.len() {
        None
    } else if given[k].0@ == name {
        Some(k)
    } else {
        find_given(given, name, k + 1)
    }
}

/// Where `find_given` can land.
pub proof fn lemma_find_given_bound(given: Seq<(String, Expr)>, name: Seq<char>, k: int)
    ensures
        find_given(given, name, k) matches Some(j) ==> k <= j < given.len() && given[j].0@ == name,
    decreases given.len() - k,
{
    if 0 <= k < given.len() && given[k].0@ != name {
        lemma_find_given_bound(given, name, k + 1);
    }
}

/// The type of the first constant of the given name.
pub open spec fn find_const(consts: Seq<(String, ResolvedType)>, name: Seq<char>, k: int) -> Option<ResolvedType>
    decreases consts.len() - k,
{
    if k < 0 || k >= consts.len() {
        None
    } else if consts[k].0@ == name {
        Some(consts[k].1)
    } else {
        find_const(consts, name, k + 1)
    }
}

/// Checking the arguments of a call against the parameters from parameter `p` and
/// argument `a` on: a rest parameter takes every remaining argument, each of which must
/// match it; any other parameter must match its argument, and one with no argument must
/// be nullable. Extra arguments are not checked.
pub open spec fn params_check(params: Seq<ParamType>, args: Seq<ResolvedType>, spans: Seq<TextSpan>, callee_span: TextSpan, p: int, a: int) -> Option<CheckError>
    decreases params.len() - p, args.len() - a,
{
    if p < 0 || p >= params.len() || a < 0 {
        None
    } else if params[p].rest {
        if a >= args.len() {
            None
        } else if !types_match(params[p].ty, args[a]) {
            Some(CheckError::Mismatch(None, spans[a]))
        } else {
            params_check(params, args, spans, callee_span, p, a + 1)
        }
    } else if a < args.len() {
        if !types_match(params[p].ty, args[a]) {
            Some(CheckError::Mismatch(None, spans[a]))
        } else {
            params_check(params, args, spans, callee_span, p + 1, a + 1)
        }
    } else if !params[p].nullable {
        Some(CheckError::MissingParameter(callee_span))
    } else {
        params_check(params, args, spans, callee_span, p + 1, a)
    }
}

/// The spans of expressions.
pub open spec fn spans_of(es: Seq<Expr>) -> Seq<TextSpan> {
    es.map_values(|e: Expr| e.span)
}

/// The type a type takes when it is written as an annotation and read back in the module
/// with the given id, as the type pass declares a variable without an annotation: struct
/// types move to that module, and a struct whose name is that of a built-in type becomes
/// that type (`None` where reading back crashes, for a struct named `object` or `vec`).
pub open spec fn rebase(t: ResolvedType, module: String) -> Option<ResolvedType>
    decreases t,
{
    match t {
        ResolvedType::Struct(name, _) => if name@ == "int"@ {
            Some(ResolvedType::Int)
        } else if name@ == "float"@ {
            Some(ResolvedType::Float)
        } else if name@ == "bool"@ {
            Some(ResolvedType::Bool)
        } else if name@ == "string"@ {
            Some(ResolvedType::String)
        } else if name@ == "char"@ {
            Some(ResolvedType::Char)
        } else if name@ == "null"@ {
            Some(ResolvedType::Null)
        } else if name@ == "anytype"@ {
            Some(ResolvedType::Any)
        } else if name@ == "void"@ {
            Some(ResolvedType::Void)
        } else if name@ == "object"@ || name@ == "vec"@ {
            None
        } else {
            Some(ResolvedType::Struct(name, module))
        },
        ResolvedType::Object(inner) => match rebase(*inner, module) {
            Some(i) => Some(ResolvedType::Object(Box::new(i))),
            None => None,
        },
        ResolvedType::Vector(inner) => match rebase(*inner, module) {
            Some(i) => Some(ResolvedType::Vector(Box::new(i))),
            None => None,
        },
        _ => Some(t),
    }
}

/// The struct of the given name in the module being checked.
pub open spec fn struct_here(prog: Program, name: Seq<char>) -> Option<StructTypes> {
    match find_struct(prog.structs@, name, 0) {
        Some(k) => Some(prog.structs@[k]),
        None => None,
    }
}

/// What checking a struct-typed base comes to when the struct is looked up in the loaded
/// module of the given id: a crash when the module is not loaded, the struct otherwise.
pub open spec fn struct_in(prog: Program, id: Seq<char>, name: Seq<char>) -> Option<Option<StructTypes>> {
    match find_module(prog.loaded@, id, 0) {
        None => None,
        Some(m) => match find_struct(prog.loaded@[m].1@, name, 0) {
            Some(k) => Some(Some(prog.loaded@[m].1@[k])),
            None => Some(None),
        },
    }
}

/// The type of an index operation on a base of the given type with an index of the given
/// type; mismatches are reported at the index.
pub open spec fn index_result(base: ResolvedType, index: ResolvedType, span: TextSpan) -> Checked {
    match (base, index) {
        (ResolvedType::Vector(t), ResolvedType::Int) => Checked::Type(*t),
        (ResolvedType::String, ResolvedType::Int) => Checked::Type(ResolvedType::Char),
        (ResolvedType::Object(t), ResolvedType::String) => Checked::Type(*t),
        (ResolvedType::Object(_), _) => Checked::Failed(CheckError::Mismatch(Some("Objects can only be indexed with strings"@), span)),
        (ResolvedType::Vector(_), _) => Checked::Failed(CheckError::Mismatch(Some("Vectors can only be indexed with integers"@), span)),
        (ResolvedType::String, _) => Checked::Failed(CheckError::Mismatch(Some("Strings can only be indexed with integers"@), span)),
        (ResolvedType::Any, _) => Checked::Type(ResolvedType::Any),
        _ => Checked::Failed(CheckError::Mismatch(None, span)),
    }
}

/// Indexing by the kind of the base: an object indexed with a string gives its element
/// type, a vector indexed with an int its element type, a string indexed with an int a
/// char, and `any` indexed with anything `any`.
pub proof fn lemma_index_types(t: ResolvedType, index: ResolvedType, span: TextSpan)
    ensures
        index_result(ResolvedType::Object(Box::new(t)), ResolvedType::String, span) == Checked::Type(t),
        index_result(ResolvedType::Vector(Box::new(t)), ResolvedType::Int, span) == Checked::Type(t),
        index_result(ResolvedType::String, ResolvedType::Int, span) == Checked::Type(ResolvedType::Char),
        index_result(ResolvedType::Any, index, span) == Checked::Type(ResolvedType::Any),
{
}

/// Literals have the type of their kind; `null`, and the expressions the pass does not
/// check, have the null type; none of them changes the module's functions.
pub proof fn lemma_literal_types(
    sc: Seq<Map<Seq<char>, ResolvedType>>,
    prog: Program,
    fns: Seq<FnView>,
    span: TextSpan,
    ann: Option<Annotation>,
)
    ensures
        expr_type(sc, prog, fns, Expr { kind: ExprKind::Literal(LiteralKind::String), span }, ann) == (Checked::Type(ResolvedType::String), fns),
        expr_type(sc, prog, fns, Expr { kind: ExprKind::Literal(LiteralKind::Int), span }, ann) == (Checked::Type(ResolvedType::Int), fns),
        expr_type(sc, prog, fns, Expr { kind: ExprKind::Literal(LiteralKind::Float), span }, ann) == (Checked::Type(ResolvedType::Float), fns),
        expr_type(sc, prog, fns, Expr { kind: ExprKind::Literal(LiteralKind::Bool), span }, ann) == (Checked::Type(ResolvedType::Bool), fns),
        expr_type(sc, prog, fns, Expr { kind: ExprKind::Literal(LiteralKind::Null), span }, ann) == (Checked::Type(ResolvedType::Null), fns),
        expr_type(sc, prog, fns, Expr { kind: ExprKind::Literal(LiteralKind::Char), span }, ann) == (Checked::Type(ResolvedType::Char), fns),
        expr_type(sc, prog, fns, Expr { kind: ExprKind::Null, span }, ann) == (Checked::Type(ResolvedType::Null), fns),
        expr_type(sc, prog, fns, Expr { kind: ExprKind::Other, span }, ann) == (Checked::Type(ResolvedType::Null), fns),
{
}

/// The constant search finds the first constant of the name.
proof fn lemma_find_const_first(consts: Seq<(String, ResolvedType)>, name: Seq<char>, k: int, j: int)
    requires
        0 <= k <= j < consts.len(),
        consts[j].0@ == name,
        forall|i: int| k <= i < j ==> consts[i].0@ != name,
    ensures
        find_const(consts, name, k) == Some(consts[j].1),
    decreases j - k,
{
    if k < j {
        lemma_find_const_first(consts, name, k + 1, j);
    }
}

/// The constant search finds nothing when no constant has the name.
proof fn lemma_find_const_none(consts: Seq<(String, ResolvedType)>, name: Seq<char>, k: int)
    requires
        0 <= k,
        forall|i: int| 0 <= i < consts.len() ==> consts[i].0@ != name,
    ensures
        find_const(consts, name, k) is None,
    decreases consts.len() - k,
{
    if k < consts.len() {
        lemma_find_const_none(consts, name, k + 1);
    }
}

/// A variable has the type it is declared with in the innermost scope that declares it;
/// a name no scope declares has the type of the first constant of that name, and is
/// `VariableNotFound` at its span when there is none. The module's functions stay.
pub proof fn lemma_variable_types(
    sc: Seq<Map<Seq<char>, ResolvedType>>,
    prog: Program,
    fns: Seq<FnView>,
    name: String,
    vspan: TextSpan,
    span: TextSpan,
    ann: Option<Annotation>,
    k: int,
)
    ensures
        lookup(sc, name@) matches Some(t)
            ==> expr_type(sc, prog, fns, Expr { kind: ExprKind::Variable(name, vspan), span }, ann) == (Checked::Type(t), fns),
        lookup(sc, name@) is None && 0 <= k < prog.consts@.len() && prog.consts@[k].0@ == name@
            && (forall|i: int| 0 <= i < k ==> prog.consts@[i].0@ != name@)
            ==> expr_type(sc, prog, fns, Expr { kind: ExprKind::Variable(name, vspan), span }, ann)
                == (Checked::Type(prog.consts@[k].1), fns),
        lookup(sc, name@) is None && (forall|i: int| 0 <= i < prog.consts@.len() ==> prog.consts@[i].0@ != name@)
            ==> expr_type(sc, prog, fns, Expr { kind: ExprKind::Variable(name, vspan), span }, ann)
                == (Checked::Failed(CheckError::VariableNotFound(name@, vspan)), fns),
{
    if 0 <= k < prog.consts@.len() && prog.consts@[k].0@ == name@ && (forall|i: int| 0 <= i < k ==> prog.consts@[i].0@ != name@) {
        lemma_find_const_first(prog.consts@, name@, 0, k);
    }
    if forall|i: int| 0 <= i < prog.consts@.len() ==> prog.consts@[i].0@ != name@ {
        lemma_find_const_none(prog.consts@, name@, 0);
    }
}

/// The function search finds the first function of the name.
proof fn lemma_find_fn_first(fns: Seq<FnView>, name: Seq<char>, k: int, j: int)
    requires
        0 <= k <= j < fns.len(),
        fns[j].name == name,
        forall|i: int| k <= i < j ==> fns[i].name != name,
    ensures
        find_fn(fns, name, k) == Some(j),
    decreases j - k,
{
    if k < j {
        lemma_find_fn_first(fns, name, k + 1, j);
    }
}

/// The function search finds nothing when no function has the name.
proof fn lemma_find_fn_none(fns: Seq<FnView>, name: Seq<char>, k: int)
    requires
        0 <= k,
        forall|i: int| 0 <= i < fns.len() ==> fns[i].name != name,
    ensures
        find_fn(fns, name, k) is None,
    decreases fns.len() - k,
{
    if k < fns.len() {
        lemma_find_fn_none(fns, name, k + 1);
    }
}

/// Arguments checked against parameters: arguments that match non-rest parameters one
/// for one pass; the first argument that does not match its (non-rest) parameter is a
/// mismatch at its span; when the arguments run out, the first parameter left that is not
/// nullable is a missing parameter at the callee's span.
pub proof fn lemma_params_check(params: Seq<ParamType>, args: Seq<ResolvedType>, spans: Seq<TextSpan>, callee_span: TextSpan, k: int)
    requires
        0 <= k,
        forall|i: int| 0 <= i < k && i < params.len() && i < args.len()
            ==> !(#[trigger] params[i]).rest && types_match(params[i].ty, args[i]),
    ensures
        k == params.len() && k == args.len() ==> params_check(params, args, spans, callee_span, 0, 0) is None,
        k < params.len() && k < args.len() && !params[k].rest && !types_match(params[k].ty, args[k])
            ==> params_check(params, args, spans, callee_span, 0, 0) == Some(CheckError::Mismatch(None, spans[k])),
        k < params.len() && k == args.len() && !params[k].rest && !params[k].nullable
            ==> params_check(params, args, spans, callee_span, 0, 0) == Some(CheckError::MissingParameter(callee_span)),
    decreases k,
{
    if k > 0 {
        lemma_params_check_from(params, args, spans, callee_span, 0, k);
    }
}

/// `lemma_params_check` from position `p` on.
proof fn lemma_params_check_from(params: Seq<ParamType>, args: Seq<ResolvedType>, spans: Seq<TextSpan>, callee_span: TextSpan, p: int, k: int)
    requires
        0 <= p <= k,
        forall|i: int| 0 <= i < k && i < params.len() && i < args.len()
            ==> !(#[trigger] params[i]).rest && types_match(params[i].ty, args[i]),
    ensures
        k == params.len() && k == args.len() ==> params_check(params, args, spans, callee_span, p, p) is None,
        k < params.len() && k < args.len() && !params[k].rest && !types_match(params[k].ty, args[k])
            ==> params_check(params, args, spans, callee_span, p, p) == Some(CheckError::Mismatch(None, spans[k])),
        k < params.len() && k == args.len() && !params[k].rest && !params[k].nullable
            ==> params_check(params, args, spans, callee_span, p, p) == Some(CheckError::MissingParameter(callee_span)),
    decreases k - p,
{
    if p < k {
        lemma_params_check_from(params, args, spans, callee_span, p + 1, k);
        if p < params.len() && p < args.len() {
            assert(!params[p].rest && types_match(params[p].ty, args[p]));
        }
    }
}

/// A rest parameter takes every remaining argument: arguments that all match it pass, and
/// the first that does not is a mismatch at its span.
pub proof fn lemma_rest_parameter(params: Seq<ParamType>, args: Seq<ResolvedType>, spans: Seq<TextSpan>, callee_span: TextSpan, a: int, k: int)
    requires
        params.len() == 1,
        params[0].rest,
        0 <= a <= k <= args.len(),
        forall|i: int| a <= i < k ==> types_match(params[0].ty, #[trigger] args[i]),
    ensures
        k == args.len() ==> params_check(params, args, spans, callee_span, 0, a) is None,
        k < args.len() && !types_match(params[0].ty, args[k])
            ==> params_check(params, args, spans, callee_span, 0, a) == Some(CheckError::Mismatch(None, spans[k])),
    decreases k - a,
{
    if a < k {
        lemma_rest_parameter(params, args, spans, callee_span, a + 1, k);
    }
}

/// A call to a function the module has no function of that name for is an undefined
/// function at the callee's span. A call without arguments to the first function of the
/// name has that function's return type when it takes no parameters, and is a missing
/// parameter at the callee's span when its first parameter is neither nullable nor rest.
/// The module's functions stay.
pub proof fn lemma_calls(
    sc: Seq<Map<Seq<char>, ResolvedType>>,
    prog: Program,
    fns: Seq<FnView>,
    callee: String,
    cspan: TextSpan,
    args: Vec<Expr>,
    span: TextSpan,
    ann: Option<Annotation>,
    k: int,
)
    ensures
        (forall|i: int| 0 <= i < fns.len() ==> fns[i].name != callee@)
            ==> expr_type(sc, prog, fns, Expr { kind: ExprKind::Call(callee, cspan, args), span }, ann)
                == (Checked::Failed(CheckError::UndefinedFunction(callee@, cspan)), fns),
        ({
            &&& args@.len() == 0
            &&& 0 <= k < fns.len()
            &&& fns[k].name == callee@
            &&& forall|i: int| 0 <= i < k ==> fns[i].name != callee@
        }) ==> {
            &&& fns[k].params.len() == 0 ==> expr_type(sc, prog, fns, Expr { kind: ExprKind::Call(callee, cspan, args), span }, ann)
                == (Checked::Type(fns[k].returns), fns)
            &&& fns[k].params.len() > 0 && !fns[k].params[0].nullable && !fns[k].params[0].rest
                ==> expr_type(sc, prog, fns, Expr { kind: ExprKind::Call(callee, cspan, args), span }, ann)
                == (Checked::Failed(CheckError::MissingParameter(cspan)), fns)
        },
{
    if forall|i: int| 0 <= i < fns.len() ==> fns[i].name != callee@ {
        lemma_find_fn_none(fns, callee@, 0);
    }
    if args@.len() == 0 && 0 <= k < fns.len() && fns[k].name == callee@ && (forall|i: int| 0 <= i < k ==> fns[i].name != callee@) {
        lemma_find_fn_first(fns, callee@, 0, k);
        assert(args_types(sc, prog, fns, args@, 0, ann) == (Ok::<Seq<ResolvedType>, Checked>(seq![]), fns));
        lemma_params_check(fns[k].params, seq![], spans_of(args@), cspan, 0);
    }
}

/// The searches of the type pass find the first struct, loaded module, method (of the
/// asked staticness) and non-native function of the name, and nothing when there is none.
pub proof fn lemma_pass_searches_find_first(
    structs: Seq<StructTypes>,
    loaded: Seq<(String, Vec<StructTypes>)>,
    methods: Seq<MethodSig>,
    fns: Seq<FnView>,
    name: Seq<char>,
    is_static: bool,
    k: int,
)
    requires
        0 <= k,
    ensures
        match find_struct(structs, name, k) {
            Some(j) => k <= j < structs.len() && structs[j].name@ == name
                && forall|i: int| k <= i < j ==> structs[i].name@ != name,
            None => forall|i: int| k <= i < structs.len() ==> structs[i].name@ != name,
        },
        match find_module(loaded, name, k) {
            Some(j) => k <= j < loaded.len() && loaded[j].0@ == name
                && forall|i: int| k <= i < j ==> loaded[i].0@ != name,
            None => forall|i: int| k <= i < loaded.len() ==> loaded[i].0@ != name,
        },
        match find_method(methods, name, is_static, k) {
            Some(j) => k <= j < methods.len() && methods[j].name@ == name && methods[j].is_static == is_static
                && forall|i: int| k <= i < j ==> !(methods[i].name@ == name && methods[i].is_static == is_static),
            None => forall|i: int| k <= i < methods.len() ==> !(methods[i].name@ == name && methods[i].is_static == is_static),
        },
        match find_user_fn(fns, name, k) {
            Some(j) => k <= j < fns.len() && fns[j].name == name && !fns[j].native
                && forall|i: int| k <= i < j ==> !(fns[i].name == name && !fns[i].native),
            None => forall|i: int| k <= i < fns.len() ==> !(fns[i].name == name && !fns[i].native),
        },
    decreases structs.len() + loaded.len() + methods.len() + fns.len() - k,
{
    if k < structs.len() || k < loaded.len() || k < methods.len() || k < fns.len() {
        lemma_pass_searches_find_first(structs, loaded, methods, fns, name, is_static, k + 1);
    }
}

/// The type of a field access `.field` on a base of the given type (see the type pass):
/// a method call on a struct gives the method's declared return type, one on any other
/// value `any` when its kind has a built-in method of that name; a name on an object gives
/// the object's element type, on a struct the field's type.
pub open spec fn field_result(prog: Program, base: ResolvedType, field: Expr) -> Checked {
    match field.kind {
        ExprKind::Call(callee, cspan, _) => match base {
            ResolvedType::Struct(name, id) => match struct_in(prog, id@, name@) {
                None => Checked::Crash,
                Some(None) => Checked::Failed(CheckError::StructNotFound(name@, field.span)),
                Some(Some(st)) => match find_method(st.methods@, callee@, false, 0) {
                    None => Checked::Failed(CheckError::PropertyNotFound(callee@, cspan)),
                    Some(k) => Checked::Type(st.methods@[k].returns_stored),
                },
            },
            _ => if method_table(kind_of_type(base), callee@) is Some {
                Checked::Type(ResolvedType::Any)
            } else {
                Checked::Failed(CheckError::PropertyNotFound(callee@, cspan))
            },
        },
        ExprKind::Variable(vname, vspan) => match base {
            ResolvedType::Object(t) => Checked::Type(*t),
            ResolvedType::Struct(name, id) => match struct_in(prog, id@, name@) {
                None => Checked::Crash,
                Some(None) => Checked::Failed(CheckError::StructNotFound(name@, field.span)),
                Some(Some(st)) => match find_field(st.fields@, vname@, 0) {
                    None => Checked::Failed(CheckError::PropertyNotFound(vname@, vspan)),
                    Some(k) => Checked::Type(st.fields@[k].annotation.resolved),
                },
            },
            _ => Checked::Failed(CheckError::Mismatch(None, vspan)),
        },
        _ => Checked::Failed(CheckError::Mismatch(Some("Invalid field access"@), field.span)),
    }
}

/// The field search finds the first field of the name.
proof fn lemma_find_field_first(fields: Seq<FieldType>, name: Seq<char>, k: int, j: int)
    requires
        0 <= k <= j < fields.len(),
        fields[j].name@ == name,
        forall|i: int| k <= i < j ==> fields[i].name@ != name,
    ensures
        find_field(fields, name, k) == Some(j),
    decreases j - k,
{
    if k < j {
        lemma_find_field_first(fields, name, k + 1, j);
    }
}

/// The field search finds nothing when no field has the name.
proof fn lemma_find_field_none(fields: Seq<FieldType>, name: Seq<char>, k: int)
    requires
        0 <= k,
        forall|i: int| 0 <= i < fields.len() ==> fields[i].name@ != name,
    ensures
        find_field(fields, name, k) is None,
    decreases fields.len() - k,
{
    if k < fields.len() {
        lemma_find_field_none(fields, name, k + 1);
    }
}

/// Reading a name on a value: on an object it has the object's element type; on a struct
/// (found in its defining module) it has the type of the struct's first field of that
/// name, and is `PropertyNotFound` at the name's span when the struct has no such field;
/// on any other type it is a mismatch at the name's span.
pub proof fn lemma_field_types(prog: Program, base: ResolvedType, vname: String, vspan: TextSpan, span: TextSpan, st: StructTypes, k: int)
    ensures
        base matches ResolvedType::Object(t)
            ==> field_result(prog, base, Expr { kind: ExprKind::Variable(vname, vspan), span }) == Checked::Type(*t),
        ({
            &&& base matches ResolvedType::Struct(name, id)
            &&& struct_in(prog, id@, name@) == Some(Some(st))
            &&& 0 <= k < st.fields@.len()
            &&& st.fields@[k].name@ == vname@
            &&& forall|i: int| 0 <= i < k ==> st.fields@[i].name@ != vname@
        }) ==> field_result(prog, base, Expr { kind: ExprKind::Variable(vname, vspan), span })
            == Checked::Type(st.fields@[k].annotation.resolved),
        ({
            &&& base matches ResolvedType::Struct(name, id)
            &&& struct_in(prog, id@, name@) == Some(Some(st))
            &&& forall|i: int| 0 <= i < st.fields@.len() ==> st.fields@[i].name@ != vname@
        }) ==> field_result(prog, base, Expr { kind: ExprKind::Variable(vname, vspan), span })
            == Checked::Failed(CheckError::PropertyNotFound(vname@, vspan)),
        !(base is Object || base is Struct)
            ==> field_result(prog, base, Expr { kind: ExprKind::Variable(vname, vspan), span })
            == Checked::Failed(CheckError::Mismatch(None, vspan)),
{
    if 0 <= k < st.fields@.len() && st.fields@[k].name@ == vname@ && (forall|i: int| 0 <= i < k ==> st.fields@[i].name@ != vname@) {
        lemma_find_field_first(st.fields@, vname@, 0, k);
    }
    if forall|i: int| 0 <= i < st.fields@.len() ==> st.fields@[i].name@ != vname@ {
        lemma_find_field_none(st.fields@, vname@, 0);
    }
}

/// Checking an expression with the scopes, the program and the module's functions, under an
/// optional annotation: what it comes to, and the module's functions afterwards.
pub open spec fn expr_type(
    sc: Seq<Map<Seq<char>, ResolvedType>>,
    prog: Program,
    fns: Seq<FnView>,
    e: Expr,
    ann: Option<Annotation>,
) -> (Checked, Seq<FnView>)
    decreases e, 0int,
{
    match e.kind {
        ExprKind::Literal(k) => (Checked::Type(match k {
            LiteralKind::String => ResolvedType::String,
            LiteralKind::Int => ResolvedType::Int,
            LiteralKind::Float => ResolvedType::Float,
            LiteralKind::Bool => ResolvedType::Bool,
            LiteralKind::Null => ResolvedType::Null,
            LiteralKind::Char => ResolvedType::Char,
        }), fns),
        ExprKind::Null => (Checked::Type(ResolvedType::Null), fns),
        ExprKind::Object(fields) => {
            let accepts_any = ann matches Some(a) && a.generic_any_object;
            object_fold(sc, prog, fns, fields@, 0, ResolvedType::Null, ann, accepts_any)
        },
        ExprKind::StructConstructor(name, name_span, given) => match struct_here(prog, name@) {
            None => (Checked::Failed(CheckError::StructNotFound(name@, name_span)), fns),
            Some(st) => {
                let (r, f) = constructor_fold(sc, prog, fns, st.fields@, given@, 0, name_span);
                match r {
                    Some(c) => (c, f),
                    None => (Checked::Type(ResolvedType::Struct(name, prog.current)), f),
                }
            },
        },
        ExprKind::ThenElse(t, el) => {
            let (ct, f1) = expr_type(sc, prog, fns, *t, ann);
            match ct {
                Checked::Type(tt) => {
                    let (ce, f2) = expr_type(sc, prog, f1, *el, ann);
                    match ce {
                        Checked::Type(et) => (match then_else_result(tt, et, annotation_view(ann)) {
                            Ok(r) => Checked::Type(r),
                            Err(m) => Checked::Failed(CheckError::Mismatch(Some(m), e.span)),
                        }, f2),
                        _ => (ce, f2),
                    }
                },
                _ => (ct, f1),
            }
        },
        ExprKind::Vec(es) => {
            let accepts_any = ann matches Some(a) && a.generic_any_vec;
            vector_fold(sc, prog, fns, es@, 0, ResolvedType::Null, ann, accepts_any)
        },
        ExprKind::Unary(op, op_text, inner) => {
            let (c, f) = expr_type(sc, prog, fns, *inner, ann);
            match c {
                Checked::Type(t) => (match unary_result(op, t) {
                    Some(r) => Checked::Type(r),
                    None => Checked::Failed(CheckError::Mismatch(Some("Unary operator "@ + op_text@ + " can only be applied to int or float"@), e.span)),
                }, f),
                _ => (c, f),
            }
        },
        ExprKind::Parenthesized(inner) => expr_type(sc, prog, fns, *inner, ann),
        ExprKind::Binary(op, class, l, r) => {
            let (cl, f1) = expr_type(sc, prog, fns, *l, ann);
            match cl {
                Checked::Type(lt) => {
                    let (cr, f2) = expr_type(sc, prog, f1, *r, ann);
                    match cr {
                        Checked::Type(rt) => (match class {
                            None => Checked::Crash,
                            Some(cls) => match binary_result(op, cls, lt, rt) {
                                Some(t) => Checked::Type(t),
                                None => Checked::Failed(CheckError::Mismatch(None, e.span)),
                            },
                        }, f2),
                        _ => (cr, f2),
                    }
                },
                _ => (cl, f1),
            }
        },
        ExprKind::Assign(op, _, l, r) => {
            let (cl, f1) = expr_type(sc, prog, fns, *l, ann);
            match cl {
                Checked::Type(lt) => {
                    let (cr, f2) = expr_type(sc, prog, f1, *r, ann);
                    match cr {
                        Checked::Type(rt) => (if assignment_allowed(op, lt, rt) {
                            Checked::Type(lt)
                        } else {
                            Checked::Failed(CheckError::Mismatch(None, e.span))
                        }, f2),
                        _ => (cr, f2),
                    }
                },
                _ => (cl, f1),
            }
        },
        ExprKind::Variable(name, vspan) => (match lookup(sc, name@) {
            Some(t) => Checked::Type(t),
            None => match find_const(prog.consts@, name@, 0) {
                Some(t) => Checked::Type(t),
                None => Checked::Failed(CheckError::VariableNotFound(name@, vspan)),
            },
        }, fns),
        ExprKind::Call(callee, cspan, args) => match find_fn(fns, callee@, 0) {
            None => (Checked::Failed(CheckError::UndefinedFunction(callee@, cspan)), fns),
            Some(k) => {
                let sig = fns[k];
                let (r, f) = args_types(sc, prog, fns, args@, 0, ann);
                match r {
                    Err(c) => (c, f),
                    Ok(ts) => (match params_check(sig.params, ts, spans_of(args@), cspan, 0, 0) {
                        Some(err) => Checked::Failed(err),
                        None => Checked::Type(sig.returns),
                    }, f),
                }
            },
        },
        ExprKind::Index(base, index) => {
            let (cb, f1) = expr_type(sc, prog, fns, *base, ann);
            match cb {
                Checked::Type(bt) => {
                    let (ci, f2) = expr_type(sc, prog, f1, *index, ann);
                    match ci {
                        Checked::Type(it) => (index_result(bt, it, index.span), f2),
                        _ => (ci, f2),
                    }
                },
                _ => (cb, f1),
            }
        },
        ExprKind::Field(base, field) => {
            let (cb, f1) = expr_type(sc, prog, fns, *base, ann);
            match cb {
                Checked::Type(bt) => (field_result(prog, bt, *field), f1),
                _ => (cb, f1),
            }
        },
        ExprKind::StaticMethod(base, member) => match base.kind {
            ExprKind::Variable(sname, sspan) => match struct_here(prog, sname@) {
                None => (Checked::Failed(CheckError::StructNotFound(sname@, sspan)), fns),
                Some(st) => match member.kind {
                    ExprKind::Call(mname, mspan, _) => match find_method(st.methods@, mname@, true, 0) {
                        None => (Checked::Failed(CheckError::UndefinedFunction(mname@, mspan)), fns),
                        Some(k) => {
                            let m = st.methods@[k];
                            let pushed = fns.push(FnView { name: m.name@, native: false, params: m.params@, returns: m.returns_here });
                            let (c, f) = expr_type(sc, prog, pushed, *member, None);
                            match c {
                                Checked::Type(t) => match find_user_fn(f, mname@, 0) {
                                    None => (Checked::Crash, f),
                                    Some(j) => (Checked::Type(t), f.remove(j)),
                                },
                                _ => (c, f),
                            }
                        },
                    },
                    _ => (Checked::Failed(CheckError::StaticContext(member.span)), fns),
                },
            },
            _ => (Checked::Failed(CheckError::StaticMemberAccess(e.span)), fns),
        },
        ExprKind::Other => (Checked::Type(ResolvedType::Null), fns),
    }
}

/// Checking the arguments from `i` on, in order: their types, or what stopped the check.
pub open spec fn args_types(
    sc: Seq<Map<Seq<char>, ResolvedType>>,
    prog: Program,
    fns: Seq<FnView>,
    es: Seq<Expr>,
    i: int,
    ann: Option<Annotation>,
) -> (Result<Seq<ResolvedType>, Checked>, Seq<FnView>)
    decreases es, es.len() - i,
{
    if i < 0 || i >= es.len() {
        (Ok(seq![]), fns)
    } else {
        let (c, f1) = expr_type(sc, prog, fns, es[i], ann);
        match c {
            Checked::Type(t) => {
                let (r, f2) = args_types(sc, prog, f1, es, i + 1, ann);
                match r {
                    Ok(ts) => (Ok(seq![t] + ts), f2),
                    Err(x) => (Err(x), f2),
                }
            },
            _ => (Err(c), f1),
        }
    }
}

/// Checking the elements of a vector literal from `i` on, with `current` the element type
/// found so far (see `rules::vector_from`): mismatches are reported at the element; an
/// annotation without an element type crashes the check where it is needed.
pub open spec fn vector_fold(
    sc: Seq<Map<Seq<char>, ResolvedType>>,
    prog: Program,
    fns: Seq<FnView>,
    es: Seq<Expr>,
    i: int,
    current: ResolvedType,
    ann: Option<Annotation>,
    accepts_any: bool,
) -> (Checked, Seq<FnView>)
    decreases es, es.len() - i,
{
    if i < 0 || i >= es.len() {
        (Checked::Type(ResolvedType::Vector(Box::new(current))), fns)
    } else {
        let (c, f1) = expr_type(sc, prog, fns, es[i], ann);
        match c {
            Checked::Type(t) => {
                let step: Checked = if current is Null {
                    Checked::Type(t)
                } else {
                    match ann {
                        Some(a) => match a.element {
                            None => Checked::Crash,
                            Some(g) => if types_match(current, g) && types_match(t, g) {
                                Checked::Type(current)
                            } else {
                                Checked::Failed(CheckError::Mismatch(Some("All elements of a vector must match type annotation: "@ + a.written_as@), es[i].span))
                            },
                        },
                        None => if !types_match(current, t) && !accepts_any {
                            Checked::Failed(CheckError::Mismatch(Some("All elements of a vector must have the same type"@), es[i].span))
                        } else {
                            Checked::Type(current)
                        },
                    }
                };
                match step {
                    Checked::Type(n) => vector_fold(sc, prog, f1, es, i + 1, if accepts_any { ResolvedType::Any } else { n }, ann, accepts_any),
                    _ => (step, f1),
                }
            },
            _ => (c, f1),
        }
    }
}

/// Checking the fields of an object literal from `i` on, with `current` the field type
/// found so far: every field must match it unless the object admits anything.
pub open spec fn object_fold(
    sc: Seq<Map<Seq<char>, ResolvedType>>,
    prog: Program,
    fns: Seq<FnView>,
    fields: Seq<(String, Expr)>,
    i: int,
    current: ResolvedType,
    ann: Option<Annotation>,
    accepts_any: bool,
) -> (Checked, Seq<FnView>)
    decreases fields, fields.len() - i,
{
    if i < 0 || i >= fields.len() {
        (Checked::Type(ResolvedType::Object(Box::new(current))), fns)
    } else {
        let (c, f1) = expr_type(sc, prog, fns, fields[i].1, ann);
        match c {
            Checked::Type(t) => if !(current is Null) && !types_match(current, t) && !accepts_any {
                (Checked::Failed(CheckError::Mismatch(Some("All fields of an object must have the same type"@), fields[i].1.span)), f1)
            } else {
                let n = if accepts_any { ResolvedType::Any } else if current is Null { t } else { current };
                object_fold(sc, prog, f1, fields, i + 1, n, ann, accepts_any)
            },
            _ => (c, f1),
        }
    }
}

/// Checking a struct constructor against the struct's fields from `k` on: a given field
/// is checked under the field's annotation and must match its type; a field not given
/// must be nullable. `None` when all fields pass.
pub open spec fn constructor_fold(
    sc: Seq<Map<Seq<char>, ResolvedType>>,
    prog: Program,
    fns: Seq<FnView>,
    declared: Seq<FieldType>,
    given: Seq<(String, Expr)>,
    k: int,
    name_span: TextSpan,
) -> (Option<Checked>, Seq<FnView>)
    decreases given, declared.len() - k,
{
    if k < 0 || k >= declared.len() {
        (None, fns)
    } else {
        match find_given(given, declared[k].name@, 0) {
            Some(j) => {
                proof {
                    lemma_find_given_bound(given, declared[k].name@, 0);
                }
                let (c, f1) = expr_type(sc, prog, fns, given[j].1, Some(declared[k].annotation));
                match c {
                    Checked::Type(t) => if !types_match(t, declared[k].annotation.resolved) {
                        (Some(Checked::Failed(CheckError::Mismatch(None, given[j].1.span))), f1)
                    } else {
                        constructor_fold(sc, prog, f1, declared, given, k + 1, name_span)
                    },
                    _ => (Some(c), f1),
                }
            },
            None => if !declared[k].nullable {
                (Some(Checked::Failed(CheckError::MissingField(name_span))), fns)
            } else {
                constructor_fold(sc, prog, fns, declared, given, k + 1, name_span)
            },
        }
    }
}

/// The position of the first function of the given name.
fn find_fn_at(fns: &Vec<FnSig>, name: &String) -> (r: Option<usize>)
    ensures
        r matches Some(k) ==> k < fns@.len(),
        match r {
            Some(k) => find_fn(fns_view(fns@), name@, 0) == Some(k as int),
            None => find_fn(fns_view(fns@), name@, 0) is None,
        },
{
    let mut k: usize = 0;
    while k < fns.len()
        invariant
            k <= fns@.len(),
            find_fn(fns_view(fns@), name@, 0) == find_fn(fns_view(fns@), name@, k as int),
        decreases fns@.len() - k,
    {
        if fns[k].name == *name {
            return Some(k);
        }
        k = k + 1;
    }
    None
}

/// The position of the first non-native function of the given name.
fn find_user_fn_at(fns: &Vec<FnSig>, name: &String) -> (r: Option<usize>)
    ensures
        r matches Some(k) ==> k < fns@.len(),
        match r {
            Some(k) => find_user_fn(fns_view(fns@), name@, 0) == Some(k as int),
            None => find_user_fn(fns_view(fns@), name@, 0) is None,
        },
{
    let mut k: usize = 0;
    while k < fns.len()
        invariant
            k <= fns@.len(),
            find_user_fn(fns_view(fns@), name@, 0) == find_user_fn(fns_view(fns@), name@, k as int),
        decreases fns@.len() - k,
    {
        if fns[k].name == *name && !fns[k].native {
            return Some(k);
        }
        k = k + 1;
    }
    None
}

/// The position of the first struct of the given name.
fn find_struct_at(structs: &Vec<StructTypes>, name: &String) -> (r: Option<usize>)
    ensures
        r matches Some(k) ==> k < structs@.len(),
        match r {
            Some(k) => find_struct(structs@, name@, 0) == Some(k as int),
            None => find_struct(structs@, name@, 0) is None,
        },
{
    let mut k: usize = 0;
    while k < structs.len()
        invariant
            k <= structs@.len(),
            find_struct(structs@, name@, 0) == find_struct(structs@, name@, k as int),
        decreases structs@.len() - k,
    {
        if structs[k].name == *name {
            return Some(k);
        }
        k = k + 1;
    }
    None
}

/// The position of the first loaded module of the given id.
fn find_module_at(loaded: &Vec<(String, Vec<StructTypes>)>, id: &String) -> (r: Option<usize>)
    ensures
        r matches Some(k) ==> k < loaded@.len(),
        match r {
            Some(k) => find_module(loaded@, id@, 0) == Some(k as int),
            None => find_module(loaded@, id@, 0) is None,
        },
{
    let mut k: usize = 0;
    while k < loaded.len()
        invariant
            k <= loaded@.len(),
            find_module(loaded@, id@, 0) == find_module(loaded@, id@, k as int),
        decreases loaded@.len() - k,
    {
        if loaded[k].0 == *id {
            return Some(k);
        }
        k = k + 1;
    }
    None
}

/// The position of the first method of the given name and staticness.
fn find_method_at(methods: &Vec<MethodSig>, name: &String, is_static: bool) -> (r: Option<usize>)
    ensures
        r matches Some(k) ==> k < methods@.len(),
        match r {
            Some(k) => find_method(methods@, name@, is_static, 0) == Some(k as int),
            None => find_method(methods@, name@, is_static, 0) is None,
        },
{
    let mut k: usize = 0;
    while k < methods.len()
        invariant
            k <= methods@.len(),
            find_method(methods@, name@, is_static, 0) == find_method(methods@, name@, is_static, k as int),
        decreases methods@.len() - k,
    {
        if methods[k].name == *name && methods[k].is_static == is_static {
            return Some(k);
        }
        k = k + 1;
    }
    None
}

/// The position of the first field of the given name.
fn find_field_at(fields: &Vec<FieldType>, name: &String) -> (r: Option<usize>)
    ensures
        r matches Some(k) ==> k < fields@.len(),
        match r {
            Some(k) => find_field(fields@, name@, 0) == Some(k as int),
            None => find_field(fields@, name@, 0) is None,
        },
{
    let mut k: usize = 0;
    while k < fields.len()
        invariant
            k <= fields@.len(),
            find_field(fields@, name@, 0) == find_field(fields@, name@, k as int),
        decreases fields@.len() - k,
    {
        if fields[k].name == *name {
            return Some(k);
        }
        k = k + 1;
    }
    None
}

/// The position of the first given constructor field of the given name.
fn find_given_at(given: &Vec<(String, Expr)>, name: &String) -> (r: Option<usize>)
    ensures
        r matches Some(k) ==> k < given@.len(),
        match r {
            Some(k) => find_given(given@, name@, 0) == Some(k as int),
            None => find_given(given@, name@, 0) is None,
        },
{
    let mut k: usize = 0;
    while k < given.len()
        invariant
            k <= given@.len(),
            find_given(given@, name@, 0) == find_given(given@, name@, k as int),
        decreases given@.len() - k,
    {
        if given[k].0 == *name {
            return Some(k);
        }
        k = k + 1;
    }
    None
}

/// The type of the first constant of the given name.
fn find_const_type(consts: &Vec<(String, ResolvedType)>, name: &String) -> (r: Option<ResolvedType>)
    ensures
        r == find_const(consts@, name@, 0),
{
    let mut k: usize = 0;
    while k < consts.len()
        invariant
            k <= consts@.len(),
            find_const(consts@, name@, 0) == find_const(consts@, name@, k as int),
        decreases consts@.len() - k,
    {
        if consts[k].0 == *name {
            return Some(consts[k].1.duplicate());
        }
        k = k + 1;
    }
    None
}

impl ParamType {
    /// A copy of the parameter.
    pub fn duplicate(&self) -> (p: ParamType)
        ensures
            p == *self,
    {
        ParamType { ty: self.ty.duplicate(), nullable: self.nullable, rest: self.rest }
    }
}

/// A copy of the parameters.
fn duplicate_params(params: &Vec<ParamType>) -> (r: Vec<ParamType>)
    ensures
        r@ == params@,
{
    let mut r: Vec<ParamType> = Vec::new();
    let mut i: usize = 0;
    while i < params.len()
        invariant
            i <= params@.len(),
            r@ == params@.take(i as int),
        decreases params@.len() - i,
    {
        r.push(params[i].duplicate());
        assert(r@ =~= params@.take(i + 1));
        i = i + 1;
    }
    assert(params@.take(params@.len() as int) =~= params@);
    r
}

/// The text made of the parts, the highlighted ones highlighted.
fn compose(parts: &Vec<(&str, bool)>) -> String {
    let mut m = String::new();
    let mut i: usize = 0;
    while i < parts.len()
        decreases parts@.len() - i,
    {
        if parts[i].1 {
            let h = highlighted(parts[i].0);
            push_str(&mut m, h.as_str());
        } else {
            push_str(&mut m, parts[i].0);
        }
        i = i + 1;
    }
    m
}

/// Checking the argument types against the parameters (see `params_check`).
fn check_params(
    params: &Vec<ParamType>,
    args: &Vec<ResolvedType>,
    spans: &Vec<TextSpan>,
    callee: &String,
    callee_span: &TextSpan,
) -> (r: Option<RoanError>)
    requires
        spans@.len() == args@.len(),
    ensures
        match params_check(params@, args@, spans@, *callee_span, 0, 0) {
            None => r is None,
            Some(c) => r matches Some(e) && agrees(e, c),
        },
{
    let mut p: usize = 0;
    let mut a: usize = 0;
    while p < params.len()
        invariant
            p <= params@.len(),
            a <= args@.len(),
            spans@.len() == args@.len(),
            params_check(params@, args@, spans@, *callee_span, 0, 0)
                == params_check(params@, args@, spans@, *callee_span, p as int, a as int),
        decreases params@.len() - p, args@.len() - a,
    {
        if params[p].rest {
            while a < args.len()
                invariant
                    p < params@.len(),
                    params@[p as int].rest,
                    a <= args@.len(),
                    spans@.len() == args@.len(),
                    params_check(params@, args@, spans@, *callee_span, 0, 0)
                        == params_check(params@, args@, spans@, *callee_span, p as int, a as int),
                decreases args@.len() - a,
            {
                if !ResolvedType::matches(params[p].ty.duplicate(), args[a].duplicate()) {
                    let pt = params[p].ty.to_string();
                    let at = args[a].to_string();
                    let parts = vec![("Expected type ", false), (pt.as_str(), true), (" for rest arguments but got ", false), (at.as_str(), true)];
                    return Some(RoanError::TypeMismatch(compose(&parts), spans[a].duplicate()));
                }
                a = a + 1;
            }
            return None;
        } else if a < args.len() {
            if !ResolvedType::matches(params[p].ty.duplicate(), args[a].duplicate()) {
                let pt = params[p].ty.to_string();
                let at = args[a].to_string();
                let parts = vec![("Expected type ", false), (pt.as_str(), true), (" but got ", false), (at.as_str(), true)];
                return Some(RoanError::TypeMismatch(compose(&parts), spans[a].duplicate()));
            }
            a = a + 1;
            p = p + 1;
        } else if !params[p].nullable {
            return Some(RoanError::MissingParameter(highlighted(callee.as_str()), callee_span.duplicate()));
        } else {
            p = p + 1;
        }
    }
    None
}

/// The types of the arguments prefixed with those already found.
pub open spec fn prepend_types(
    acc: Seq<ResolvedType>,
    r: (Result<Seq<ResolvedType>, Checked>, Seq<FnView>),
) -> (Result<Seq<ResolvedType>, Checked>, Seq<FnView>) {
    match r.0 {
        Ok(ts) => (Ok(acc + ts), r.1),
        Err(x) => (Err(x), r.1),
    }
}

/// Checking arguments from `i` on, when it succeeds, gives one type per argument.
pub proof fn lemma_args_types_len(
    sc: Seq<Map<Seq<char>, ResolvedType>>,
    prog: Program,
    fns: Seq<FnView>,
    es: Seq<Expr>,
    i: int,
    ann: Option<Annotation>,
)
    requires
        0 <= i <= es.len(),
    ensures
        args_types(sc, prog, fns, es, i, ann).0 matches Ok(ts) ==> ts.len() == es.len() - i,
    decreases es.len() - i,
{
    if i < es.len() {
        let (c, f1) = expr_type(sc, prog, fns, es[i], ann);
        lemma_args_types_len(sc, prog, f1, es, i + 1, ann);
    }
}

/// The spans of the expressions.
fn spans_vec(es: &Vec<Expr>) -> (r: Vec<TextSpan>)
    ensures
        r@ == spans_of(es@),
{
    let mut r: Vec<TextSpan> = Vec::new();
    let mut i: usize = 0;
    while i < es.len()
        invariant
            i <= es@.len(),
            r@ == spans_of(es@).take(i as int),
        decreases es@.len() - i,
    {
        r.push(es[i].span.duplicate());
        assert(r@ =~= spans_of(es@).take(i + 1));
        i = i + 1;
    }
    assert(spans_of(es@).take(es@.len() as int) =~= spans_of(es@));
    r
}

/// The annotation copied.
fn copy_annotation(ann: &Option<Annotation>) -> (r: Option<Annotation>)
    ensures
        r == *ann,
{
    match ann {
        Some(a) => Some(a.duplicate()),
        None => None,
    }
}

/// The outcome of an index operation (see `index_result`).
fn check_index(bt: ResolvedType, it: ResolvedType, span: &TextSpan) -> (r: Result<ResolvedType, RoanError>)
    ensures
        checked_as(r, index_result(bt, it, *span)),
{
    match (bt, it) {
        (ResolvedType::Vector(t), ResolvedType::Int) => Ok(*t),
        (ResolvedType::String, ResolvedType::Int) => Ok(ResolvedType::Char),
        (ResolvedType::Object(t), ResolvedType::String) => Ok(*t),
        (ResolvedType::Object(_), _) => Err(RoanError::TypeMismatch("Objects can only be indexed with strings".to_owned(), span.duplicate())),
        (ResolvedType::Vector(_), _) => Err(RoanError::TypeMismatch("Vectors can only be indexed with integers".to_owned(), span.duplicate())),
        (ResolvedType::String, _) => Err(RoanError::TypeMismatch("Strings can only be indexed with integers".to_owned(), span.duplicate())),
        (ResolvedType::Any, _) => Ok(ResolvedType::Any),
        (b, i) => {
            let bs = b.to_string();
            let is = i.to_string();
            let parts = vec![("Invalid index operation. Attempted to access ", false), (bs.as_str(), true), (" with ", false), (is.as_str(), true)];
            Err(RoanError::TypeMismatch(compose(&parts), span.duplicate()))
        },
    }
}

/// The struct of the given name in the loaded module of the given id: `None` when the
/// module is not loaded, `Some(None)` when it has no such struct.
fn struct_in_at<'a>(prog: &'a Program, id: &String, name: &String) -> (r: Option<Option<&'a StructTypes>>)
    ensures
        match r {
            None => struct_in(*prog, id@, name@) is None,
            Some(None) => struct_in(*prog, id@, name@) == Some(None::<StructTypes>),
            Some(Some(st)) => struct_in(*prog, id@, name@) == Some(Some(*st)),
        },
{
    match find_module_at(&prog.loaded, id) {
        None => None,
        Some(m) => match find_struct_at(&prog.loaded[m].1, name) {
            Some(k) => Some(Some(&prog.loaded[m].1[k])),
            None => Some(None),
        },
    }
}

/// The outcome of a field access on a base of the given type (see `field_result`).
fn check_field(prog: &Program, bt: ResolvedType, field: &Expr) -> (r: Result<ResolvedType, RoanError>)
    requires
        !(field_result(*prog, bt, *field) is Crash),
    ensures
        checked_as(r, field_result(*prog, bt, *field)),
{
    match &field.kind {
        ExprKind::Call(callee, cspan, _) => match bt {
            ResolvedType::Struct(name, id) => match struct_in_at(prog, &id, &name) {
                None => {
                    proof {
                        assert(false);
                    }
                    Err(RoanError::StructNotFoundError(name, field.span.duplicate()))
                },
                Some(None) => Err(RoanError::StructNotFoundError(name, field.span.duplicate())),
                Some(Some(st)) => match find_method_at(&st.methods, callee, false) {
                    None => Err(RoanError::PropertyNotFoundError(callee.clone(), cspan.duplicate())),
                    Some(k) => Ok(st.methods[k].returns_stored.duplicate()),
                },
            },
            other => {
                let kind = value_kind_of(&other);
                if builtin_method(kind, callee.as_str()).is_some() {
                    Ok(ResolvedType::Any)
                } else {
                    Err(RoanError::PropertyNotFoundError(callee.clone(), cspan.duplicate()))
                }
            },
        },
        ExprKind::Variable(vname, vspan) => match bt {
            ResolvedType::Object(t) => Ok(*t),
            ResolvedType::Struct(name, id) => match struct_in_at(prog, &id, &name) {
                None => {
                    proof {
                        assert(false);
                    }
                    Err(RoanError::StructNotFoundError(name, field.span.duplicate()))
                },
                Some(None) => Err(RoanError::StructNotFoundError(name, field.span.duplicate())),
                Some(Some(st)) => match find_field_at(&st.fields, vname) {
                    None => Err(RoanError::PropertyNotFoundError(vname.clone(), vspan.duplicate())),
                    Some(k) => Ok(st.fields[k].annotation.resolved.duplicate()),
                },
            },
            other => {
                let os = other.to_string();
                let parts = vec![("Cannot access field of ", false), (os.as_str(), true), (" type", false)];
                Err(RoanError::TypeMismatch(compose(&parts), vspan.duplicate()))
            },
        },
        _ => Err(RoanError::TypeMismatch("Invalid field access".to_owned(), field.span.duplicate())),
    }
}

impl TypePass {
    /// The type of an expression, checked as the type pass checks it, with `global_type`
    /// the annotation it is checked under and `fns` the functions the module can call
    /// (which checking a static method call changes; see `expr_type`).
    pub fn validate_and_get_type_expr(
        &self,
        expr: &Expr,
        prog: &Program,
        fns: &mut Vec<FnSig>,
        global_type: &Option<Annotation>,
    ) -> (r: Result<ResolvedType, RoanError>)
        requires
            !(expr_type(self.scopes_view(), *prog, fns_view(old(fns)@), *expr, *global_type).0 is Crash),
        ensures
            checked_as(r, expr_type(self.scopes_view(), *prog, fns_view(old(fns)@), *expr, *global_type).0),
            fns_view(final(fns)@) == expr_type(self.scopes_view(), *prog, fns_view(old(fns)@), *expr, *global_type).1,
        decreases expr, 0int,
    {
        let ghost sc = self.scopes_view();
        let e = expr;
        let ann = global_type;
        match &e.kind {
            ExprKind::Literal(k) => Ok(match k {
                LiteralKind::String => ResolvedType::String,
                LiteralKind::Int => ResolvedType::Int,
                LiteralKind::Float => ResolvedType::Float,
                LiteralKind::Bool => ResolvedType::Bool,
                LiteralKind::Null => ResolvedType::Null,
                LiteralKind::Char => ResolvedType::Char,
            }),
            ExprKind::Null => Ok(ResolvedType::Null),
            ExprKind::Object(fields) => {
                let accepts_any = match ann {
                    Some(a) => a.generic_any_object,
                    None => false,
                };
                self.check_object(fields, prog, fns, ann, accepts_any)
            },
            ExprKind::StructConstructor(name, name_span, given) => match find_struct_at(&prog.structs, name) {
                None => Err(RoanError::StructNotFoundError(name.clone(), name_span.duplicate())),
                Some(k) => {
                    let st = &prog.structs[k];
                    match self.check_constructor(&st.fields, given, prog, fns, name, name_span) {
                        Some(err) => Err(err),
                        None => Ok(ResolvedType::Struct(name.clone(), prog.current.clone())),
                    }
                },
            },
            ExprKind::ThenElse(t, el) => {
                let tt = self.validate_and_get_type_expr(t, prog, fns, ann)?;
                let et = self.validate_and_get_type_expr(el, prog, fns, ann)?;
                let r = then_else_type(tt, et, copy_annotation(ann), e.span.duplicate());
                r
            },
            ExprKind::Vec(es) => {
                let accepts_any = match ann {
                    Some(a) => a.generic_any_vec,
                    None => false,
                };
                self.check_vector(es, prog, fns, ann, accepts_any)
            },
            ExprKind::Unary(op, op_text, inner) => {
                let t = self.validate_and_get_type_expr(inner, prog, fns, ann)?;
                unary_type(*op, t, op_text.as_str(), e.span.duplicate())
            },
            ExprKind::Parenthesized(inner) => self.validate_and_get_type_expr(inner, prog, fns, ann),
            ExprKind::Binary(op, class, l, r) => {
                let lt = self.validate_and_get_type_expr(l, prog, fns, ann)?;
                let rt = self.validate_and_get_type_expr(r, prog, fns, ann)?;
                match class {
                    None => {
                        proof {
                            assert(false);
                        }
                        Ok(ResolvedType::Null)
                    },
                    Some(cls) => check_binary(*op, *cls, &lt, &rt, e.span.duplicate()),
                }
            },
            ExprKind::Assign(op, op_text, l, r) => {
                let lt = self.validate_and_get_type_expr(l, prog, fns, ann)?;
                let rt = self.validate_and_get_type_expr(r, prog, fns, ann)?;
                check_assignment(*op, op_text.as_str(), lt, rt, e.span.duplicate())
            },
            ExprKind::Variable(name, vspan) => {
                let c = find_const_type(&prog.consts, name);
                self.variable_type(name.as_str(), c, vspan.duplicate())
            },
            ExprKind::Call(callee, cspan, args) => match find_fn_at(fns, callee) {
                None => Err(RoanError::UndefinedFunctionError(callee.clone(), cspan.duplicate())),
                Some(k) => {
                    let ghost f0 = fns_view(fns@);
                    let params = duplicate_params(&fns[k].params);
                    let ret_type = fns[k].returns.duplicate();
                    assert(params@ == f0[k as int].params && ret_type == f0[k as int].returns);
                    proof {
                        lemma_args_types_len(sc, *prog, f0, args@, 0, *ann);
                    }
                    let ts = self.check_args(args, prog, fns, ann)?;
                    let spans = spans_vec(args);
                    match check_params(&params, &ts, &spans, callee, cspan) {
                        Some(err) => Err(err),
                        None => Ok(ret_type),
                    }
                },
            },
            ExprKind::Index(base, index) => {
                let bt = self.validate_and_get_type_expr(base, prog, fns, ann)?;
                let it = self.validate_and_get_type_expr(index, prog, fns, ann)?;
                check_index(bt, it, &index.span)
            },
            ExprKind::Field(base, field) => {
                let bt = self.validate_and_get_type_expr(base, prog, fns, ann)?;
                check_field(prog, bt, field)
            },
            ExprKind::StaticMethod(base, member) => match &base.kind {
                ExprKind::Variable(sname, sspan) => match find_struct_at(&prog.structs, sname) {
                    None => Err(RoanError::StructNotFoundError(sname.clone(), sspan.duplicate())),
                    Some(si) => {
                        let st = &prog.structs[si];
                        match &member.kind {
                            ExprKind::Call(mname, mspan, _) => match find_method_at(&st.methods, mname, true) {
                                None => Err(RoanError::UndefinedFunctionError(mname.clone(), mspan.duplicate())),
                                Some(k) => {
                                    let m = &st.methods[k];
                                    let ghost f0 = fns@;
                                    let sig = FnSig {
                                        name: m.name.clone(),
                                        native: false,
                                        params: duplicate_params(&m.params),
                                        returns: m.returns_here.duplicate(),
                                    };
                                    fns.push(sig);
                                    assert(fns_view(fns@) =~= fns_view(f0).push(FnView {
                                        name: m.name@,
                                        native: false,
                                        params: m.params@,
                                        returns: m.returns_here,
                                    }));
                                    let t = self.validate_and_get_type_expr(member, prog, fns, &None)?;
                                    match find_user_fn_at(fns, mname) {
                                        Some(j) => {
                                            let ghost f1 = fns@;
                                            fns.remove(j);
                                            assert(fns_view(fns@) =~= fns_view(f1).remove(j as int));
                                            Ok(t)
                                        },
                                        None => {
                                            proof {
                                                assert(false);
                                            }
                                            Ok(t)
                                        },
                                    }
                                },
                            },
                            _ => Err(RoanError::StaticContext(member.span.duplicate())),
                        }
                    },
                },
                _ => Err(RoanError::StaticMemberAccess(e.span.duplicate())),
            },
            ExprKind::Other => Ok(ResolvedType::Null),
        }
    }

    /// The types of the arguments, checked in order (see `args_types`).
    fn check_args(&self, es: &Vec<Expr>, prog: &Program, fns: &mut Vec<FnSig>, ann: &Option<Annotation>) -> (r: Result<Vec<ResolvedType>, RoanError>)
        requires
            args_types(self.scopes_view(), *prog, fns_view(old(fns)@), es@, 0, *ann).0 matches Err(c) ==> !(c is Crash),
        ensures
            fns_view(final(fns)@) == args_types(self.scopes_view(), *prog, fns_view(old(fns)@), es@, 0, *ann).1,
            match args_types(self.scopes_view(), *prog, fns_view(old(fns)@), es@, 0, *ann).0 {
                Ok(ts) => r matches Ok(v) && v@ == ts,
                Err(c) => r matches Err(err) && checked_as(Err(err), c),
            },
        decreases es, 1int,
    {
        let ghost sc = self.scopes_view();
        let ghost whole = args_types(sc, *prog, fns_view(old(fns)@), es@, 0, *ann);
        let mut ts: Vec<ResolvedType> = Vec::new();
        let mut i: usize = 0;
        while i < es.len()
            invariant
                i <= es@.len(),
                sc == self.scopes_view(),
                whole == args_types(sc, *prog, fns_view(old(fns)@), es@, 0, *ann),
                whole == prepend_types(ts@, args_types(sc, *prog, fns_view(fns@), es@, i as int, *ann)),
                whole.0 matches Err(c) ==> !(c is Crash),
            decreases es@.len() - i,
        {
            let ghost before = fns@;
            proof {
                assert(decreases_to!(es => es@[i as int]));
            }
            let t = self.validate_and_get_type_expr(&es[i], prog, fns, ann)?;
            let ghost acc = ts@;
            ts.push(t);
            proof {
                let rest = args_types(sc, *prog, fns_view(fns@), es@, i + 1, *ann);
                match rest.0 {
                    Ok(more) => assert(acc + (seq![t] + more) =~= ts@ + more),
                    Err(_) => {},
                }
            }
            i = i + 1;
        }
        assert(ts@ + Seq::<ResolvedType>::empty() =~= ts@);
        Ok(ts)
    }

    /// The type of a vector literal's elements checked in order (see `vector_fold`).
    fn check_vector(&self, es: &Vec<Expr>, prog: &Program, fns: &mut Vec<FnSig>, ann: &Option<Annotation>, accepts_any: bool) -> (r: Result<ResolvedType, RoanError>)
        requires
            !(vector_fold(self.scopes_view(), *prog, fns_view(old(fns)@), es@, 0, ResolvedType::Null, *ann, accepts_any).0 is Crash),
        ensures
            checked_as(r, vector_fold(self.scopes_view(), *prog, fns_view(old(fns)@), es@, 0, ResolvedType::Null, *ann, accepts_any).0),
            fns_view(final(fns)@) == vector_fold(self.scopes_view(), *prog, fns_view(old(fns)@), es@, 0, ResolvedType::Null, *ann, accepts_any).1,
        decreases es, 1int,
    {
        let ghost sc = self.scopes_view();
        let ghost whole = vector_fold(sc, *prog, fns_view(old(fns)@), es@, 0, ResolvedType::Null, *ann, accepts_any);
        let mut current = ResolvedType::Null;
        let mut i: usize = 0;
        while i < es.len()
            invariant
                i <= es@.len(),
                sc == self.scopes_view(),
                whole == vector_fold(sc, *prog, fns_view(old(fns)@), es@, 0, ResolvedType::Null, *ann, accepts_any),
                whole == vector_fold(sc, *prog, fns_view(fns@), es@, i as int, current, *ann, accepts_any),
                !(whole.0 is Crash),
            decreases es@.len() - i,
        {
            proof {
                assert(decreases_to!(es => es@[i as int]));
            }
            let t = self.validate_and_get_type_expr(&es[i], prog, fns, ann)?;
            if matches!(current, ResolvedType::Null) {
                current = t;
            } else {
                match ann {
                    Some(a) => match &a.element {
                        None => {
                            proof {
                                assert(false);
                            }
                        },
                        Some(g) => {
                            if !(ResolvedType::matches(current.duplicate(), g.duplicate())
                                && ResolvedType::matches(t, g.duplicate())) {
                                let mut m = "All elements of a vector must match type annotation: ".to_owned();
                                push_str(&mut m, a.written_as.as_str());
                                proof {
                                    reveal_strlit("All elements of a vector must match type annotation: ");
                                }
                                return Err(RoanError::TypeMismatch(m, es[i].span.duplicate()));
                            }
                        },
                    },
                    None => {
                        if !ResolvedType::matches(current.duplicate(), t) && !accepts_any {
                            return Err(RoanError::TypeMismatch(
                                "All elements of a vector must have the same type".to_owned(),
                                es[i].span.duplicate(),
                            ));
                        }
                    },
                }
            }
            if accepts_any {
                current = ResolvedType::Any;
            }
            i = i + 1;
        }
        Ok(ResolvedType::Vector(Box::new(current)))
    }

    /// The type of an object literal's fields checked in order (see `object_fold`).
    fn check_object(&self, fields: &Vec<(String, Expr)>, prog: &Program, fns: &mut Vec<FnSig>, ann: &Option<Annotation>, accepts_any: bool) -> (r: Result<ResolvedType, RoanError>)
        requires
            !(object_fold(self.scopes_view(), *prog, fns_view(old(fns)@), fields@, 0, ResolvedType::Null, *ann, accepts_any).0 is Crash),
        ensures
            checked_as(r, object_fold(self.scopes_view(), *prog, fns_view(old(fns)@), fields@, 0, ResolvedType::Null, *ann, accepts_any).0),
            fns_view(final(fns)@) == object_fold(self.scopes_view(), *prog, fns_view(old(fns)@), fields@, 0, ResolvedType::Null, *ann, accepts_any).1,
        decreases fields, 1int,
    {
        let ghost sc = self.scopes_view();
        let ghost whole = object_fold(sc, *prog, fns_view(old(fns)@), fields@, 0, ResolvedType::Null, *ann, accepts_any);
        let mut current = ResolvedType::Null;
        let mut i: usize = 0;
        while i < fields.len()
            invariant
                i <= fields@.len(),
                sc == self.scopes_view(),
                whole == object_fold(sc, *prog, fns_view(old(fns)@), fields@, 0, ResolvedType::Null, *ann, accepts_any),
                whole == object_fold(sc, *prog, fns_view(fns@), fields@, i as int, current, *ann, accepts_any),
                !(whole.0 is Crash),
            decreases fields@.len() - i,
        {
            proof {
                assert(decreases_to!(fields => fields@[i as int].1));
            }
            let t = self.validate_and_get_type_expr(&fields[i].1, prog, fns, ann)?;
            if !matches!(current, ResolvedType::Null) && !ResolvedType::matches(current.duplicate(), t.duplicate()) && !accepts_any {
                return Err(RoanError::TypeMismatch(
                    "All fields of an object must have the same type".to_owned(),
                    fields[i].1.span.duplicate(),
                ));
            }
            if accepts_any {
                current = ResolvedType::Any;
            } else if matches!(current, ResolvedType::Null) {
                current = t;
            }
            i = i + 1;
        }
        Ok(ResolvedType::Object(Box::new(current)))
    }

    /// Checks a struct constructor against the struct's fields (see `constructor_fold`).
    fn check_constructor(
        &self,
        declared: &Vec<FieldType>,
        given: &Vec<(String, Expr)>,
        prog: &Program,
        fns: &mut Vec<FnSig>,
        name: &String,
        name_span: &TextSpan,
    ) -> (r: Option<RoanError>)
        requires
            constructor_fold(self.scopes_view(), *prog, fns_view(old(fns)@), declared@, given@, 0, *name_span).0 matches Some(c) ==> !(c is Crash),
        ensures
            fns_view(final(fns)@) == constructor_fold(self.scopes_view(), *prog, fns_view(old(fns)@), declared@, given@, 0, *name_span).1,
            match constructor_fold(self.scopes_view(), *prog, fns_view(old(fns)@), declared@, given@, 0, *name_span).0 {
                None => r is None,
                Some(c) => r matches Some(e) && checked_as(Err(e), c),
            },
        decreases given, 1int,
    {
        let ghost sc = self.scopes_view();
        let ghost whole = constructor_fold(sc, *prog, fns_view(old(fns)@), declared@, given@, 0, *name_span);
        let mut k: usize = 0;
        while k < declared.len()
            invariant
                k <= declared@.len(),
                sc == self.scopes_view(),
                whole == constructor_fold(sc, *prog, fns_view(old(fns)@), declared@, given@, 0, *name_span),
                whole == constructor_fold(sc, *prog, fns_view(fns@), declared@, given@, k as int, *name_span),
                whole.0 matches Some(c) ==> !(c is Crash),
            decreases declared@.len() - k,
        {
            match find_given_at(given, &declared[k].name) {
                Some(j) => {
                    proof {
                        lemma_find_given_bound(given@, declared@[k as int].name@, 0);
                        assert(decreases_to!(given => given@[j as int].1));
                    }
                    let field_ann = Some(declared[k].annotation.duplicate());
                    let t = match self.validate_and_get_type_expr(&given[j].1, prog, fns, &field_ann) {
                        Ok(t) => t,
                        Err(e) => return Some(e),
                    };
                    if !ResolvedType::matches(t, declared[k].annotation.resolved.duplicate()) {
                        let parts = vec![
                            ("Field ", false),
                            (given[j].0.as_str(), true),
                            (" of struct ", false),
                            (name.as_str(), true),
                            (" must be of type ", false),
                            (declared[k].annotation.written_as.as_str(), true),
                        ];
                        return Some(RoanError::TypeMismatch(compose(&parts), given[j].1.span.duplicate()));
                    }
                },
                None => {
                    if !declared[k].nullable {
                        return Some(RoanError::MissingField(
                            highlighted(declared[k].name.as_str()),
                            highlighted(name.as_str()),
                            name_span.duplicate(),
                        ));
                    }
                },
            }
            k = k + 1;
        }
        None
    }
}

/// A statement of a Roan program as the type pass reads it.
#[derive(Debug)]
pub enum Stmt {
    /// A return: the type pass checks nothing of it.
    Return,
    Block(Vec<Stmt>),
    /// The then block, the blocks of the `else if` branches, and the else block.
    If(Vec<Stmt>, Vec<Vec<Stmt>>, Option<Vec<Stmt>>),
    While(Vec<Stmt>),
    Loop(Vec<Stmt>),
    Expr(Expr),
    /// The variable's name, its annotation if it has one (the annotation the initializer is
    /// checked under, and the type the variable is declared with, as the annotation is
    /// written), and the initializer.
    Let(String, Option<(Annotation, ResolvedType)>, Expr),
    /// A function: its parameters (names and types) and its body.
    Fn(Vec<(String, ResolvedType)>, Vec<Stmt>),
    /// Any other statement: the type pass checks nothing of it.
    Other,
}

/// The scopes after the innermost one is closed (no change when there is none).
pub open spec fn exit(sc: Seq<Map<Seq<char>, ResolvedType>>) -> Seq<Map<Seq<char>, ResolvedType>> {
    if sc.len() == 0 {
        sc
    } else {
        sc.drop_last()
    }
}

/// The scopes after the parameters are declared in order.
pub open spec fn declare_params(sc: Seq<Map<Seq<char>, ResolvedType>>, params: Seq<(String, ResolvedType)>) -> Seq<Map<Seq<char>, ResolvedType>>
    decreases params.len(),
{
    if params.len() == 0 {
        sc
    } else {
        declare(declare_params(sc, params.drop_last()), params.last().0@, params.last().1)
    }
}

/// Checking a statement: `None` when it passes, the error (or crash) otherwise, with the
/// scopes and the module's functions afterwards. A block opens a scope and closes it when
/// it passes (an error leaves it open); a `let` declares its variable with the type its
/// annotation is written with, or else with the initializer's type as read back in the
/// module; a function's parameters are declared in a new scope around its body.
pub open spec fn stmt_check(
    sc: Seq<Map<Seq<char>, ResolvedType>>,
    prog: Program,
    fns: Seq<FnView>,
    s: Stmt,
) -> (Option<Checked>, Seq<Map<Seq<char>, ResolvedType>>, Seq<FnView>)
    decreases s, 0int,
{
    match s {
        Stmt::Block(b) => block_run(sc, prog, fns, b@),
        Stmt::If(then_block, else_ifs, else_block) => {
            let (r1, sc1, f1) = block_run(sc, prog, fns, then_block@);
            if r1 is Some {
                (r1, sc1, f1)
            } else {
                let (r2, sc2, f2) = blocks_run(sc1, prog, f1, else_ifs@, 0);
                if r2 is Some {
                    (r2, sc2, f2)
                } else {
                    match else_block {
                        Some(eb) => block_run(sc2, prog, f2, eb@),
                        None => (None, sc2, f2),
                    }
                }
            }
        },
        Stmt::While(b) => block_run(sc, prog, fns, b@),
        Stmt::Loop(b) => block_run(sc, prog, fns, b@),
        Stmt::Expr(e) => {
            let (c, f) = expr_type(sc, prog, fns, e, None);
            match c {
                Checked::Type(_) => (None, sc, f),
                _ => (Some(c), sc, f),
            }
        },
        Stmt::Let(name, annotation, init) => match annotation {
            Some((a, declared)) => {
                let (c, f) = expr_type(sc, prog, fns, init, Some(a));
                match c {
                    Checked::Type(_) => (None, declare(sc, name@, declared), f),
                    _ => (Some(c), sc, f),
                }
            },
            None => {
                let (c, f) = expr_type(sc, prog, fns, init, None);
                match c {
                    Checked::Type(t) => match rebase(t, prog.current) {
                        Some(d) => (None, declare(sc, name@, d), f),
                        None => (Some(Checked::Crash), sc, f),
                    },
                    _ => (Some(c), sc, f),
                }
            },
        },
        Stmt::Fn(params, body) => {
            let inner = declare_params(sc.push(Map::empty()), params@);
            let (r, sc1, f1) = stmts_run(inner, prog, fns, body@, 0);
            if r is Some {
                (r, sc1, f1)
            } else {
                (None, exit(sc1), f1)
            }
        },
        _ => (None, sc, fns),
    }
}

/// Checking a block: a new scope, the statements in order, and the scope closed when they pass.
pub open spec fn block_run(
    sc: Seq<Map<Seq<char>, ResolvedType>>,
    prog: Program,
    fns: Seq<FnView>,
    b: Seq<Stmt>,
) -> (Option<Checked>, Seq<Map<Seq<char>, ResolvedType>>, Seq<FnView>)
    decreases b, b.len() + 1,
{
    let (r, sc1, f1) = stmts_run(sc.push(Map::empty()), prog, fns, b, 0);
    if r is Some {
        (r, sc1, f1)
    } else {
        (None, exit(sc1), f1)
    }
}

/// Checking statements from `i` on, in order, stopping at the first that fails.
pub open spec fn stmts_run(
    sc: Seq<Map<Seq<char>, ResolvedType>>,
    prog: Program,
    fns: Seq<FnView>,
    ss: Seq<Stmt>,
    i: int,
) -> (Option<Checked>, Seq<Map<Seq<char>, ResolvedType>>, Seq<FnView>)
    decreases ss, ss.len() - i,
{
    if i < 0 || i >= ss.len() {
        (None, sc, fns)
    } else {
        let (r, sc1, f1) = stmt_check(sc, prog, fns, ss[i]);
        if r is Some {
            (r, sc1, f1)
        } else {
            stmts_run(sc1, prog, f1, ss, i + 1)
        }
    }
}

/// Checking blocks from `i` on, in order, stopping at the first that fails.
pub open spec fn blocks_run(
    sc: Seq<Map<Seq<char>, ResolvedType>>,
    prog: Program,
    fns: Seq<FnView>,
    bs: Seq<Vec<Stmt>>,
    i: int,
) -> (Option<Checked>, Seq<Map<Seq<char>, ResolvedType>>, Seq<FnView>)
    decreases bs, bs.len() - i,
{
    if i < 0 || i >= bs.len() {
        (None, sc, fns)
    } else {
        let (r, sc1, f1) = block_run(sc, prog, fns, bs[i]@);
        if r is Some {
            (r, sc1, f1)
        } else {
            blocks_run(sc1, prog, f1, bs, i + 1)
        }
    }
}

/// Whether a statement's outcome is the one described.
pub open spec fn stmt_outcome(r: Result<(), RoanError>, c: Option<Checked>) -> bool {
    match c {
        None => r is Ok,
        Some(c) => r matches Err(e) && checked_as(Err(e), c),
    }
}

impl TypePass {
    /// Checks a statement as the type pass checks it (see `stmt_check`), updating the
    /// scopes and the module's functions.
    pub fn validate_stmt(&mut self, stmt: &Stmt, prog: &Program, fns: &mut Vec<FnSig>) -> (r: Result<(), RoanError>)
        requires
            !(stmt_check(old(self).scopes_view(), *prog, fns_view(old(fns)@), *stmt).0 == Some(Checked::Crash)),
        ensures
            stmt_outcome(r, stmt_check(old(self).scopes_view(), *prog, fns_view(old(fns)@), *stmt).0),
            final(self).scopes_view() == stmt_check(old(self).scopes_view(), *prog, fns_view(old(fns)@), *stmt).1,
            fns_view(final(fns)@) == stmt_check(old(self).scopes_view(), *prog, fns_view(old(fns)@), *stmt).2,
        decreases stmt, 0int,
    {
        match stmt {
            Stmt::Block(b) => self.run_block(b, prog, fns),
            Stmt::If(then_block, else_ifs, else_block) => {
                self.run_block(then_block, prog, fns)?;
                self.run_blocks(else_ifs, prog, fns)?;
                match else_block {
                    Some(eb) => self.run_block(eb, prog, fns),
                    None => Ok(()),
                }
            },
            Stmt::While(b) => self.run_block(b, prog, fns),
            Stmt::Loop(b) => self.run_block(b, prog, fns),
            Stmt::Expr(e) => {
                self.validate_and_get_type_expr(e, prog, fns, &None)?;
                Ok(())
            },
            Stmt::Let(name, annotation, init) => match annotation {
                Some((a, declared)) => {
                    let ann = Some(a.duplicate());
                    self.validate_and_get_type_expr(init, prog, fns, &ann)?;
                    self.declare_variable(name.clone(), declared.duplicate());
                    Ok(())
                },
                None => {
                    let t = self.validate_and_get_type_expr(init, prog, fns, &None)?;
                    match rebase_exec(&t, &prog.current) {
                        Some(d) => {
                            self.declare_variable(name.clone(), d);
                            Ok(())
                        },
                        None => {
                            proof {
                                assert(false);
                            }
                            Ok(())
                        },
                    }
                },
            },
            Stmt::Fn(params, body) => {
                self.enter_scope();
                let mut i: usize = 0;
                let ghost start = self.scopes_view();
                assert(params@.take(0) =~= Seq::<(String, ResolvedType)>::empty());
                while i < params.len()
                    invariant
                        i <= params@.len(),
                        self.scopes_view() == declare_params(start, params@.take(i as int)),
                    decreases params@.len() - i,
                {
                    self.declare_variable(params[i].0.clone(), params[i].1.duplicate());
                    assert(params@.take(i + 1).drop_last() =~= params@.take(i as int));
                    i = i + 1;
                }
                assert(params@.take(params@.len() as int) =~= params@);
                self.run_stmts(body, prog, fns)?;
                self.exit_scope();
                Ok(())
            },
            _ => Ok(()),
        }
    }

    /// Checks a block (see `block_run`).
    fn run_block(&mut self, b: &Vec<Stmt>, prog: &Program, fns: &mut Vec<FnSig>) -> (r: Result<(), RoanError>)
        requires
            !(block_run(old(self).scopes_view(), *prog, fns_view(old(fns)@), b@).0 == Some(Checked::Crash)),
        ensures
            stmt_outcome(r, block_run(old(self).scopes_view(), *prog, fns_view(old(fns)@), b@).0),
            final(self).scopes_view() == block_run(old(self).scopes_view(), *prog, fns_view(old(fns)@), b@).1,
            fns_view(final(fns)@) == block_run(old(self).scopes_view(), *prog, fns_view(old(fns)@), b@).2,
        decreases b@, b@.len() + 1,
    {
        self.enter_scope();
        self.run_stmts(b, prog, fns)?;
        self.exit_scope();
        Ok(())
    }

    /// Checks statements in order (see `stmts_run`).
    fn run_stmts(&mut self, ss: &Vec<Stmt>, prog: &Program, fns: &mut Vec<FnSig>) -> (r: Result<(), RoanError>)
        requires
            !(stmts_run(old(self).scopes_view(), *prog, fns_view(old(fns)@), ss@, 0).0 == Some(Checked::Crash)),
        ensures
            stmt_outcome(r, stmts_run(old(self).scopes_view(), *prog, fns_view(old(fns)@), ss@, 0).0),
            final(self).scopes_view() == stmts_run(old(self).scopes_view(), *prog, fns_view(old(fns)@), ss@, 0).1,
            fns_view(final(fns)@) == stmts_run(old(self).scopes_view(), *prog, fns_view(old(fns)@), ss@, 0).2,
        decreases ss@, ss@.len(),
    {
        let ghost whole = stmts_run(self.scopes_view(), *prog, fns_view(fns@), ss@, 0);
        let mut i: usize = 0;
        while i < ss.len()
            invariant
                i <= ss@.len(),
                whole == stmts_run(old(self).scopes_view(), *prog, fns_view(old(fns)@), ss@, 0),
                whole == stmts_run(self.scopes_view(), *prog, fns_view(fns@), ss@, i as int),
                !(whole.0 == Some(Checked::Crash)),
            decreases ss@.len() - i,
        {
            proof {
                assert(decreases_to!(ss@ => ss@[i as int]));
            }
            self.validate_stmt(&ss[i], prog, fns)?;
            i = i + 1;
        }
        Ok(())
    }

    /// Checks blocks in order (see `blocks_run`).
    fn run_blocks(&mut self, bs: &Vec<Vec<Stmt>>, prog: &Program, fns: &mut Vec<FnSig>) -> (r: Result<(), RoanError>)
        requires
            !(blocks_run(old(self).scopes_view(), *prog, fns_view(old(fns)@), bs@, 0).0 == Some(Checked::Crash)),
        ensures
            stmt_outcome(r, blocks_run(old(self).scopes_view(), *prog, fns_view(old(fns)@), bs@, 0).0),
            final(self).scopes_view() == blocks_run(old(self).scopes_view(), *prog, fns_view(old(fns)@), bs@, 0).1,
            fns_view(final(fns)@) == blocks_run(old(self).scopes_view(), *prog, fns_view(old(fns)@), bs@, 0).2,
        decreases bs@, bs@.len(),
    {
        let ghost whole = blocks_run(self.scopes_view(), *prog, fns_view(fns@), bs@, 0);
        let mut i: usize = 0;
        while i < bs.len()
            invariant
                i <= bs@.len(),
                whole == blocks_run(old(self).scopes_view(), *prog, fns_view(old(fns)@), bs@, 0),
                whole == blocks_run(self.scopes_view(), *prog, fns_view(fns@), bs@, i as int),
                !(whole.0 == Some(Checked::Crash)),
            decreases bs@.len() - i,
        {
            proof {
                assert(decreases_to!(bs@ => bs@[i as int]));
            }
            self.run_block(&bs[i], prog, fns)?;
            i = i + 1;
        }
        Ok(())
    }
}

/// The type read back in the module (see `rebase`).
fn rebase_exec(t: &ResolvedType, module: &String) -> (r: Option<ResolvedType>)
    ensures
        r == rebase(*t, *module),
    decreases t,
{
    match t {
        ResolvedType::Struct(name, _) => {
            let n = name.clone();
            if n == "int".to_owned() {
                Some(ResolvedType::Int)
            } else if n == "float".to_owned() {
                Some(ResolvedType::Float)
            } else if n == "bool".to_owned() {
                Some(ResolvedType::Bool)
            } else if n == "string".to_owned() {
                Some(ResolvedType::String)
            } else if n == "char".to_owned() {
                Some(ResolvedType::Char)
            } else if n == "null".to_owned() {
                Some(ResolvedType::Null)
            } else if n == "anytype".to_owned() {
                Some(ResolvedType::Any)
            } else if n == "void".to_owned() {
                Some(ResolvedType::Void)
            } else if n == "object".to_owned() || n == "vec".to_owned() {
                None
            } else {
                Some(ResolvedType::Struct(n, module.clone()))
            }
        },
        ResolvedType::Object(inner) => match rebase_exec(inner, module) {
            Some(i) => Some(ResolvedType::Object(Box::new(i))),
            None => None,
        },
        ResolvedType::Vector(inner) => match rebase_exec(inner, module) {
            Some(i) => Some(ResolvedType::Vector(Box::new(i))),
            None => None,
        },
        other => Some(other.duplicate()),
    }
}

/// Whether `after` has the scopes of `before`, but for the innermost one.
pub open spec fn same_outer_scopes(before: Seq<Map<Seq<char>, ResolvedType>>, after: Seq<Map<Seq<char>, ResolvedType>>) -> bool {
    after.len() == before.len() && after.drop_last() == before.drop_last()
}

/// Declaring parameters changes only the innermost scope.
proof fn lemma_declare_params_inner(sc: Seq<Map<Seq<char>, ResolvedType>>, params: Seq<(String, ResolvedType)>)
    requires
        sc.len() > 0,
    ensures
        same_outer_scopes(sc, declare_params(sc, params)),
    decreases params.len(),
{
    if params.len() > 0 {
        lemma_declare_params_inner(sc, params.drop_last());
        let before = declare_params(sc, params.drop_last());
        assert(declare(before, params.last().0@, params.last().1).drop_last() =~= before.drop_last());
    }
}

/// A statement that passes changes only the innermost scope.
pub proof fn lemma_stmt_keeps_outer_scopes(sc: Seq<Map<Seq<char>, ResolvedType>>, prog: Program, fns: Seq<FnView>, s: Stmt)
    requires
        sc.len() > 0,
    ensures
        stmt_check(sc, prog, fns, s).0 is None ==> same_outer_scopes(sc, stmt_check(sc, prog, fns, s).1),
    decreases s, 0int,
{
    match s {
        Stmt::Block(b) => lemma_block_restores_scopes(sc, prog, fns, b@),
        Stmt::If(then_block, else_ifs, else_block) => {
            lemma_block_restores_scopes(sc, prog, fns, then_block@);
            let (r1, sc1, f1) = block_run(sc, prog, fns, then_block@);
            lemma_blocks_restore_scopes(sc1, prog, f1, else_ifs@, 0);
            let (r2, sc2, f2) = blocks_run(sc1, prog, f1, else_ifs@, 0);
            match else_block {
                Some(eb) => lemma_block_restores_scopes(sc2, prog, f2, eb@),
                None => {},
            }
        },
        Stmt::While(b) => lemma_block_restores_scopes(sc, prog, fns, b@),
        Stmt::Loop(b) => lemma_block_restores_scopes(sc, prog, fns, b@),
        Stmt::Let(name, _, _) => {
            let r = stmt_check(sc, prog, fns, s).1;
            if r != sc {
                assert(r.drop_last() =~= sc.drop_last());
            }
        },
        Stmt::Fn(params, body) => {
            let inner = declare_params(sc.push(Map::empty()), params@);
            lemma_declare_params_inner(sc.push(Map::empty()), params@);
            lemma_stmts_keep_outer_scopes(inner, prog, fns, body@, 0);
            let (r, sc1, f1) = stmts_run(inner, prog, fns, body@, 0);
            assert(sc.push(Map::empty()).drop_last() =~= sc);
        },
        _ => {},
    }
}

/// A block that passes leaves the scopes as they were: what it declares goes with it.
pub proof fn lemma_block_restores_scopes(sc: Seq<Map<Seq<char>, ResolvedType>>, prog: Program, fns: Seq<FnView>, b: Seq<Stmt>)
    ensures
        block_run(sc, prog, fns, b).0 is None ==> block_run(sc, prog, fns, b).1 == sc,
    decreases b, b.len() + 1,
{
    lemma_stmts_keep_outer_scopes(sc.push(Map::empty()), prog, fns, b, 0);
    assert(sc.push(Map::empty()).drop_last() =~= sc);
}

/// Statements that pass change only the innermost scope.
proof fn lemma_stmts_keep_outer_scopes(sc: Seq<Map<Seq<char>, ResolvedType>>, prog: Program, fns: Seq<FnView>, ss: Seq<Stmt>, i: int)
    requires
        sc.len() > 0,
    ensures
        stmts_run(sc, prog, fns, ss, i).0 is None ==> same_outer_scopes(sc, stmts_run(sc, prog, fns, ss, i).1),
    decreases ss, ss.len() - i,
{
    if 0 <= i < ss.len() {
        lemma_stmt_keeps_outer_scopes(sc, prog, fns, ss[i]);
        let (r, sc1, f1) = stmt_check(sc, prog, fns, ss[i]);
        if r is None {
            lemma_stmts_keep_outer_scopes(sc1, prog, f1, ss, i + 1);
        }
    }
}

/// Blocks that pass leave the scopes as they were.
proof fn lemma_blocks_restore_scopes(sc: Seq<Map<Seq<char>, ResolvedType>>, prog: Program, fns: Seq<FnView>, bs: Seq<Vec<Stmt>>, i: int)
    ensures
        blocks_run(sc, prog, fns, bs, i).0 is None ==> blocks_run(sc, prog, fns, bs, i).1 == sc,
    decreases bs, bs.len() - i,
{
    if 0 <= i < bs.len() {
        lemma_block_restores_scopes(sc, prog, fns, bs[i]@);
        let (r, sc1, f1) = block_run(sc, prog, fns, bs[i]@);
        if r is None {
            lemma_blocks_restore_scopes(sc1, prog, f1, bs, i + 1);
        }
    }
}


/// Operators on literal operands: a number operator on an int and a float gives a float
/// and on two ints an int, a boolean operator on two numbers a bool, whichever operator
/// it is; the module's functions stay.
pub proof fn lemma_operators_on_literals(
    sc: Seq<Map<Seq<char>, ResolvedType>>,
    prog: Program,
    fns: Seq<FnView>,
    op: BinOpKind,
    span: TextSpan,
    ls: TextSpan,
    rs: TextSpan,
    ann: Option<Annotation>,
)
    ensures
        expr_type(sc, prog, fns, Expr { kind: ExprKind::Binary(op, Some(OperatorClass::Number),
            Box::new(Expr { kind: ExprKind::Literal(LiteralKind::Int), span: ls }),
            Box::new(Expr { kind: ExprKind::Literal(LiteralKind::Float), span: rs })), span }, ann)
            == (Checked::Type(ResolvedType::Float), fns),
        expr_type(sc, prog, fns, Expr { kind: ExprKind::Binary(op, Some(OperatorClass::Number),
            Box::new(Expr { kind: ExprKind::Literal(LiteralKind::Int), span: ls }),
            Box::new(Expr { kind: ExprKind::Literal(LiteralKind::Int), span: rs })), span }, ann)
            == (Checked::Type(ResolvedType::Int), fns),
        expr_type(sc, prog, fns, Expr { kind: ExprKind::Binary(op, Some(OperatorClass::Boolean),
            Box::new(Expr { kind: ExprKind::Literal(LiteralKind::Float), span: ls }),
            Box::new(Expr { kind: ExprKind::Literal(LiteralKind::Int), span: rs })), span }, ann)
            == (Checked::Type(ResolvedType::Bool), fns),
        expr_type(sc, prog, fns, Expr { kind: ExprKind::Binary(op, Some(OperatorClass::Number),
            Box::new(Expr { kind: ExprKind::Literal(LiteralKind::Bool), span: ls }),
            Box::new(Expr { kind: ExprKind::Literal(LiteralKind::Int), span: rs })), span }, ann)
            == (Checked::Failed(CheckError::Mismatch(None, span)), fns),
{
    lemma_literal_types(sc, prog, fns, ls, ann);
    lemma_literal_types(sc, prog, fns, rs, ann);
}

/// Empty literals: an empty vector is a vector of null and an empty object an object of
/// null, without an annotation.
pub proof fn lemma_empty_literals(
    sc: Seq<Map<Seq<char>, ResolvedType>>,
    prog: Program,
    fns: Seq<FnView>,
    es: Vec<Expr>,
    fields: Vec<(String, Expr)>,
    span: TextSpan,
)
    requires
        es@.len() == 0,
        fields@.len() == 0,
    ensures
        expr_type(sc, prog, fns, Expr { kind: ExprKind::Vec(es), span }, None)
            == (Checked::Type(ResolvedType::Vector(Box::new(ResolvedType::Null))), fns),
        expr_type(sc, prog, fns, Expr { kind: ExprKind::Object(fields), span }, None)
            == (Checked::Type(ResolvedType::Object(Box::new(ResolvedType::Null))), fns),
{
    assert(vector_fold(sc, prog, fns, es@, 0, ResolvedType::Null, None, false)
        == (Checked::Type(ResolvedType::Vector(Box::new(ResolvedType::Null))), fns));
    assert(object_fold(sc, prog, fns, fields@, 0, ResolvedType::Null, None, false)
        == (Checked::Type(ResolvedType::Object(Box::new(ResolvedType::Null))), fns));
}

/// A `let` whose initializer passes declares its variable in the innermost scope, with the
/// type its annotation is written with, or else with the initializer's type (for an int,
/// a float or a string, that type); after it the variable has that type.
pub proof fn lemma_let_declares(
    sc: Seq<Map<Seq<char>, ResolvedType>>,
    prog: Program,
    fns: Seq<FnView>,
    name: String,
    a: Annotation,
    declared: ResolvedType,
    kind: LiteralKind,
    span: TextSpan,
)
    requires
        sc.len() > 0,
    ensures
        stmt_check(sc, prog, fns, Stmt::Let(name, Some((a, declared)), Expr { kind: ExprKind::Literal(kind), span }))
            == (None::<Checked>, declare(sc, name@, declared), fns),
        lookup(stmt_check(sc, prog, fns, Stmt::Let(name, Some((a, declared)), Expr { kind: ExprKind::Literal(kind), span })).1, name@)
            == Some(declared),
        stmt_check(sc, prog, fns, Stmt::Let(name, None, Expr { kind: ExprKind::Literal(LiteralKind::Int), span }))
            == (None::<Checked>, declare(sc, name@, ResolvedType::Int), fns),
        stmt_check(sc, prog, fns, Stmt::Let(name, None, Expr { kind: ExprKind::Literal(LiteralKind::Float), span }))
            == (None::<Checked>, declare(sc, name@, ResolvedType::Float), fns),
        stmt_check(sc, prog, fns, Stmt::Let(name, None, Expr { kind: ExprKind::Literal(LiteralKind::String), span }))
            == (None::<Checked>, declare(sc, name@, ResolvedType::String), fns),
{
    crate::interpreter::types::lemma_declare_then_find(sc, name@, declared);
}

/// Calling a static method `Struct::method()` without arguments, of a struct of the
/// module, whose static method takes no parameters, has the type the method returns in
/// the module, and leaves the module's functions as they were (the method is added for
/// the call and taken away again), when the module has no function of the method's name.
pub proof fn lemma_static_call(
    sc: Seq<Map<Seq<char>, ResolvedType>>,
    prog: Program,
    fns: Seq<FnView>,
    sname: String,
    sspan: TextSpan,
    bspan: TextSpan,
    mname: String,
    mspan: TextSpan,
    args: Vec<Expr>,
    cspan: TextSpan,
    span: TextSpan,
    ann: Option<Annotation>,
    st: StructTypes,
    k: int,
)
    requires
        struct_here(prog, sname@) == Some(st),
        find_method(st.methods@, mname@, true, 0) == Some(k),
        st.methods@[k].params@.len() == 0,
        st.methods@[k].name@ == mname@,
        args@.len() == 0,
        forall|i: int| 0 <= i < fns.len() ==> fns[i].name != mname@,
    ensures
        expr_type(sc, prog, fns, Expr {
            kind: ExprKind::StaticMethod(
                Box::new(Expr { kind: ExprKind::Variable(sname, sspan), span: bspan }),
                Box::new(Expr { kind: ExprKind::Call(mname, mspan, args), span: cspan }),
            ),
            span,
        }, ann) == (Checked::Type(st.methods@[k].returns_here), fns),
{
    let m = st.methods@[k];
    let pushed = fns.push(FnView { name: m.name@, native: false, params: m.params@, returns: m.returns_here });
    assert forall|i: int| 0 <= i < fns.len() implies pushed[i].name != mname@ by {
        assert(pushed[i] == fns[i]);
    }
    lemma_find_fn_first(pushed, mname@, 0, fns.len() as int);
    lemma_calls(sc, prog, pushed, mname, mspan, args, cspan, None, fns.len() as int);
    lemma_pass_searches_find_first(seq![], seq![], seq![], pushed, mname@, true, 0);
    assert forall|i: int| 0 <= i < fns.len() implies !(pushed[i].name == mname@ && !pushed[i].native) by {
        assert(pushed[i] == fns[i]);
    }
    assert(find_user_fn(pushed, mname@, 0) == Some(fns.len() as int));
    assert(pushed.remove(fns.len() as int) =~= fns);
}

/// A constructor that gives no fields, from field `k` on: it passes when every field left
/// may be left out, and is a missing field at the struct's name when one may not.
proof fn lemma_constructor_without_fields(
    sc: Seq<Map<Seq<char>, ResolvedType>>,
    prog: Program,
    fns: Seq<FnView>,
    declared: Seq<FieldType>,
    given: Seq<(String, Expr)>,
    k: int,
    name_span: TextSpan,
)
    requires
        given.len() == 0,
        0 <= k,
    ensures
        (forall|i: int| k <= i < declared.len() ==> (#[trigger] declared[i]).nullable)
            ==> constructor_fold(sc, prog, fns, declared, given, k, name_span) == (None::<Checked>, fns),
        (exists|i: int| k <= i < declared.len() && !(#[trigger] declared[i]).nullable)
            ==> constructor_fold(sc, prog, fns, declared, given, k, name_span)
                == (Some(Checked::Failed(CheckError::MissingField(name_span))), fns),
    decreases declared.len() - k,
{
    if k < declared.len() {
        assert(find_given(given, declared[k].name@, 0) is None);
        lemma_constructor_without_fields(sc, prog, fns, declared, given, k + 1, name_span);
        if exists|i: int| k <= i < declared.len() && !(#[trigger] declared[i]).nullable {
            if declared[k].nullable {
                let i = choose|i: int| k <= i < declared.len() && !(#[trigger] declared[i]).nullable;
                assert(k + 1 <= i);
            }
        }
    }
}

/// A struct constructor that gives no fields: of a struct the module does not declare it
/// is a struct-not-found at the name; of one it declares, it has the struct's type (in
/// the module) when every field may be left out, and is a missing field at the name when
/// one may not.
pub proof fn lemma_constructor_types(
    sc: Seq<Map<Seq<char>, ResolvedType>>,
    prog: Program,
    fns: Seq<FnView>,
    name: String,
    name_span: TextSpan,
    given: Vec<(String, Expr)>,
    span: TextSpan,
    ann: Option<Annotation>,
)
    requires
        given@.len() == 0,
    ensures
        struct_here(prog, name@) is None
            ==> expr_type(sc, prog, fns, Expr { kind: ExprKind::StructConstructor(name, name_span, given), span }, ann)
                == (Checked::Failed(CheckError::StructNotFound(name@, name_span)), fns),
        struct_here(prog, name@) matches Some(st) && (forall|i: int| 0 <= i < st.fields@.len() ==> (#[trigger] st.fields@[i]).nullable)
            ==> expr_type(sc, prog, fns, Expr { kind: ExprKind::StructConstructor(name, name_span, given), span }, ann)
                == (Checked::Type(ResolvedType::Struct(name, prog.current)), fns),
        struct_here(prog, name@) matches Some(st) && (exists|i: int| 0 <= i < st.fields@.len() && !(#[trigger] st.fields@[i]).nullable)
            ==> expr_type(sc, prog, fns, Expr { kind: ExprKind::StructConstructor(name, name_span, given), span }, ann)
                == (Checked::Failed(CheckError::MissingField(name_span)), fns),
{
    match struct_here(prog, name@) {
        Some(st) => lemma_constructor_without_fields(sc, prog, fns, st.fields@, given@, 0, name_span),
        None => {},
    }
}

/// Vector literals without an annotation: elements of one literal kind give a vector of
/// that type, and an element whose type does not match the first's is a mismatch at that
/// element, with the message that all elements must have the same type.
pub proof fn lemma_vector_literals(
    sc: Seq<Map<Seq<char>, ResolvedType>>,
    prog: Program,
    fns: Seq<FnView>,
    es: Vec<Expr>,
    span: TextSpan,
)
    requires
        es@.len() == 2,
        es@[0].kind == ExprKind::Literal(LiteralKind::Int),
    ensures
        es@[1].kind == ExprKind::Literal(LiteralKind::Int) ==> expr_type(sc, prog, fns, Expr { kind: ExprKind::Vec(es), span }, None)
            == (Checked::Type(ResolvedType::Vector(Box::new(ResolvedType::Int))), fns),
        es@[1].kind == ExprKind::Literal(LiteralKind::String) ==> expr_type(sc, prog, fns, Expr { kind: ExprKind::Vec(es), span }, None)
            == (Checked::Failed(CheckError::Mismatch(Some("All elements of a vector must have the same type"@), es@[1].span)), fns),
{
    lemma_literal_types(sc, prog, fns, es@[0].span, None);
    lemma_literal_types(sc, prog, fns, es@[1].span, None);
    assert(es@[0] == Expr { kind: ExprKind::Literal(LiteralKind::Int), span: es@[0].span });
    if es@[1].kind == ExprKind::Literal(LiteralKind::Int) {
        assert(es@[1] == Expr { kind: ExprKind::Literal(LiteralKind::Int), span: es@[1].span });
    }
    if es@[1].kind == ExprKind::Literal(LiteralKind::String) {
        assert(es@[1] == Expr { kind: ExprKind::Literal(LiteralKind::String), span: es@[1].span });
    }
    assert(vector_fold(sc, prog, fns, es@, 2, ResolvedType::Int, None, false)
        == (Checked::Type(ResolvedType::Vector(Box::new(ResolvedType::Int))), fns));
    if es@[1].kind == ExprKind::Literal(LiteralKind::Int) {
        assert(vector_fold(sc, prog, fns, es@, 1, ResolvedType::Int, None, false)
            == (Checked::Type(ResolvedType::Vector(Box::new(ResolvedType::Int))), fns));
    }
    if es@[1].kind == ExprKind::Literal(LiteralKind::String) {
        assert(vector_fold(sc, prog, fns, es@, 1, ResolvedType::Int, None, false)
            == (Checked::Failed(CheckError::Mismatch(Some("All elements of a vector must have the same type"@), es@[1].span)), fns));
    }
    assert(vector_fold(sc, prog, fns, es@, 0, ResolvedType::Null, None, false)
        == vector_fold(sc, prog, fns, es@, 1, ResolvedType::Int, None, false));
}

} // verus!
