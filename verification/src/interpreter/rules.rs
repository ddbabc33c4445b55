use vstd::prelude::*;
use crate::error::RoanError;
use crate::interpreter::types::{types_match, ResolvedType};
use crate::span::TextSpan;
use crate::text::push_str;

verus! {

/// A binary operator of Roan expressions.
#[derive(Debug, Clone, Copy, PartialEq, Eq)]
pub enum BinOpKind {
    Plus,
    Minus,
    Multiply,
    Divide,
    Modulo,
    Power,
    Equals,
    BangEquals,
    GreaterThan,
    GreaterThanOrEqual,
    LessThan,
    LessThanOrEqual,
    And,
    Or,
    BitwiseAnd,
    BitwiseOr,
    BitwiseXor,
    ShiftLeft,
    ShiftRight,
}

/// The family a binary operator belongs to, as the syntax tree classifies it: operators
/// that compute numbers, and operators that compute truth values.
#[derive(Debug, Clone, Copy, PartialEq, Eq)]
pub enum OperatorClass {
    Number,
    Boolean,
}

/// A unary operator of Roan expressions.
#[derive(Debug, Clone, Copy, PartialEq, Eq)]
pub enum UnOpKind {
    Minus,
    BitwiseNot,
    LogicalNot,
}

/// An assignment operator of Roan expressions.
#[derive(Debug, Clone, Copy, PartialEq, Eq)]
pub enum AssignOperator {
    Assign,
    PlusEquals,
    MinusEquals,
    MultiplyEquals,
    DivideEquals,
}

/// A type annotation as the type pass reads it: whether it admits anything, the type it
/// stands for, the name of the type it is written with, whether it is the generic object
/// or vector type with an `anytype` argument, and the type its first generic argument
/// stands for, if it has one.
#[derive(Debug)]
pub struct Annotation {
    pub is_any: bool,
    pub resolved: ResolvedType,
    pub written_as: String,
    pub generic_any_object: bool,
    pub generic_any_vec: bool,
    pub element: Option<ResolvedType>,
}

impl Annotation {
    /// A copy of the annotation.
    pub fn duplicate(&self) -> (a: Annotation)
        ensures
            a == *self,
    {
        Annotation {
            is_any: self.is_any,
            resolved: self.resolved.duplicate(),
            written_as: self.written_as.clone(),
            generic_any_object: self.generic_any_object,
            generic_any_vec: self.generic_any_vec,
            element: match &self.element {
                Some(t) => Some(t.duplicate()),
                None => None,
            },
        }
    }
}

/// An outcome of type checking, with a type mismatch taken by its message and span
/// (`None` for any other error).
pub open spec fn outcome(r: Result<ResolvedType, RoanError>) -> Result<ResolvedType, Option<(Seq<char>, TextSpan)>> {
    match r {
        Ok(t) => Ok(t),
        Err(RoanError::TypeMismatch(m, s)) => Err(Some((m@, s))),
        Err(_) => Err(None),
    }
}

/// The message of a type mismatch (empty for any other result).
pub open spec fn message_of(r: Result<ResolvedType, RoanError>) -> Seq<char> {
    match r {
        Err(RoanError::TypeMismatch(m, _)) => m@,
        _ => Seq::empty(),
    }
}

/// Whether the type is one of text: a string or a char.
pub open spec fn is_text(t: ResolvedType) -> bool {
    t is String || t is Char
}

/// Whether the type is a number: an int or a float.
pub open spec fn is_number(t: ResolvedType) -> bool {
    t is Int || t is Float
}

/// The type of a binary operation on operands of the given types, if it is allowed.
/// Number operators: `+` on two texts gives a string, two ints give an int, and a float
/// with an int or a float gives a float. Boolean operators: `==` on two texts, two
/// numbers, two bools, two nulls or two vectors give a bool.
pub open spec fn binary_result(op: BinOpKind, class: OperatorClass, left: ResolvedType, right: ResolvedType) -> Option<ResolvedType> {
    match class {
        OperatorClass::Number => if is_text(left) && op == BinOpKind::Plus && is_text(right) {
            Some(ResolvedType::String)
        } else if left is Int && right is Int {
            Some(ResolvedType::Int)
        } else if is_number(left) && is_number(right) {
            Some(ResolvedType::Float)
        } else {
            None
        },
        OperatorClass::Boolean => if (is_text(left) && op == BinOpKind::Equals && is_text(right))
            || (is_number(left) && is_number(right)) || (left is Bool && right is Bool)
            || (left is Null && right is Null) || (left is Vector && right is Vector) {
            Some(ResolvedType::Bool)
        } else {
            None
        },
    }
}

/// Number operators on numbers: whatever the operator of the number family, two numbers
/// give an int when both are ints and a float otherwise (so `1.5 + 2.5` is a float).
pub proof fn lemma_number_operands(op: BinOpKind, left: ResolvedType, right: ResolvedType)
    requires
        left is Int || left is Float,
        right is Int || right is Float,
    ensures
        binary_result(op, OperatorClass::Number, left, right) == Some(
            if left is Int && right is Int { ResolvedType::Int } else { ResolvedType::Float },
        ),
        binary_result(op, OperatorClass::Boolean, left, right) == Some(ResolvedType::Bool),
{
}

/// The message of a binary operation that is not allowed, with the operand types as shown.
pub open spec fn binary_mismatch(class: OperatorClass, left_shown: Seq<char>, right_shown: Seq<char>) -> Seq<char> {
    match class {
        OperatorClass::Number => "Invalid binary operation between "@ + left_shown + " and "@ + right_shown,
        OperatorClass::Boolean => "Invalid boolean operation between "@ + left_shown + " and "@ + right_shown,
    }
}

/// The type of a unary operation: `-` and `~` keep an int or a float and allow nothing
/// else; `!` gives a bool whatever its operand.
pub open spec fn unary_result(op: UnOpKind, operand: ResolvedType) -> Option<ResolvedType> {
    match op {
        UnOpKind::LogicalNot => Some(ResolvedType::Bool),
        _ => if is_number(operand) {
            Some(operand)
        } else {
            None
        },
    }
}

/// Whether an assignment with the operator is allowed between the types: `=` when they
/// match; `-=`, `*=` and `/=` between numbers or `any`; `+=` between numbers, texts or `any`.
pub open spec fn assignment_allowed(op: AssignOperator, left: ResolvedType, right: ResolvedType) -> bool {
    match op {
        AssignOperator::Assign => types_match(left, right),
        AssignOperator::PlusEquals => (is_number(left) || is_text(left) || left is Any)
            && (is_number(right) || is_text(right) || right is Any),
        _ => (is_number(left) || left is Any) && (is_number(right) || right is Any),
    }
}

/// The message of an assignment that is not allowed.
pub open spec fn assignment_mismatch(op: AssignOperator, op_shown: Seq<char>, left_shown: Seq<char>, right_shown: Seq<char>) -> Seq<char> {
    match op {
        AssignOperator::Assign => "Cannot assign "@ + right_shown + " to "@ + left_shown,
        _ => "Invalid "@ + op_shown + " assignment between "@ + left_shown + " and "@ + right_shown,
    }
}

/// The type of a then-else expression: with an annotation, the annotated type when it
/// admits anything or both branches match it; without, the type of the first branch when
/// the branches match.
pub open spec fn then_else_result(then_type: ResolvedType, else_type: ResolvedType, annotation: Option<(bool, ResolvedType, Seq<char>)>) -> Result<ResolvedType, Seq<char>> {
    match annotation {
        Some((is_any, t, name)) => if is_any || (types_match(then_type, t) && types_match(else_type, t)) {
            Ok(t)
        } else {
            Err("Both branches of a then-else expression must match type annotation: "@ + name)
        },
        None => if types_match(then_type, else_type) {
            Ok(then_type)
        } else {
            Err("Two branches of a then-else expression must have the same type"@)
        },
    }
}

/// The type of a vector literal whose elements have the given types and spans, checked
/// from element `i` on with `current` as the type found so far (null before the first
/// element). With an annotation (its element type and its name) every later element
/// must match it together with the type found so far; without, it must match the type
/// found so far unless the vector admits anything, in which case the type becomes `any`.
pub open spec fn vector_from(
    current: ResolvedType,
    elems: Seq<(ResolvedType, TextSpan)>,
    i: int,
    annotation: Option<(ResolvedType, Seq<char>)>,
    accepts_any: bool,
) -> Result<ResolvedType, (Seq<char>, TextSpan)>
    decreases elems.len() - i,
{
    if i < 0 || i >= elems.len() {
        Ok(ResolvedType::Vector(Box::new(current)))
    } else {
        let (t, span) = elems[i];
        let step: Result<ResolvedType, (Seq<char>, TextSpan)> = if current is Null {
            Ok(t)
        } else {
            match annotation {
                Some((g, name)) => if types_match(current, g) && types_match(t, g) {
                    Ok(current)
                } else {
                    Err(("All elements of a vector must match type annotation: "@ + name, span))
                },
                None => if !types_match(current, t) && !accepts_any {
                    Err(("All elements of a vector must have the same type"@, span))
                } else {
                    Ok(current)
                },
            }
        };
        match step {
            Err(e) => Err(e),
            Ok(c) => vector_from(if accepts_any { ResolvedType::Any } else { c }, elems, i + 1, annotation, accepts_any),
        }
    }
}

/// Which operands each family of operators allows. A number operator allows two numbers,
/// and `+` also allows two texts (strings or chars); nothing else. A boolean operator
/// allows two numbers, two bools, two nulls or two vectors, and `==` also two texts;
/// nothing else. An allowed number operation on texts gives a string, an allowed boolean
/// operation a bool.
pub proof fn lemma_operands_allowed(op: BinOpKind, left: ResolvedType, right: ResolvedType)
    ensures
        binary_result(op, OperatorClass::Number, left, right) is Some <==> (
            ((left is Int || left is Float) && (right is Int || right is Float))
            || (op == BinOpKind::Plus && (left is String || left is Char) && (right is String || right is Char))),
        (left is String || left is Char) && (right is String || right is Char) && op == BinOpKind::Plus
            ==> binary_result(op, OperatorClass::Number, left, right) == Some(ResolvedType::String),
        binary_result(op, OperatorClass::Boolean, left, right) is Some <==> (
            ((left is Int || left is Float) && (right is Int || right is Float))
            || (left is Bool && right is Bool) || (left is Null && right is Null)
            || (left is Vector && right is Vector)
            || (op == BinOpKind::Equals && (left is String || left is Char) && (right is String || right is Char))),
        binary_result(op, OperatorClass::Boolean, left, right) is Some
            ==> binary_result(op, OperatorClass::Boolean, left, right) == Some(ResolvedType::Bool),
{
}

/// `!` gives a bool on any operand; `-` and `~` keep an int or a float as it is and refuse
/// any other operand.
pub proof fn lemma_unary_operands(op: UnOpKind, operand: ResolvedType)
    ensures
        unary_result(UnOpKind::LogicalNot, operand) == Some(ResolvedType::Bool),
        op != UnOpKind::LogicalNot ==> (unary_result(op, operand) is Some <==> (operand is Int || operand is Float)),
        op != UnOpKind::LogicalNot && (operand is Int || operand is Float) ==> unary_result(op, operand) == Some(operand),
{
}

/// Assignments: `=` is allowed exactly when the types match, and then in either
/// direction; every assignment operator allows two numbers, and any operand of `any`
/// beside a number; `+=` also allows texts; no compound operator allows a bool, a null,
/// a struct, an object or a vector.
pub proof fn lemma_assignments_allowed(op: AssignOperator, left: ResolvedType, right: ResolvedType)
    ensures
        assignment_allowed(AssignOperator::Assign, left, right) == types_match(left, right),
        assignment_allowed(AssignOperator::Assign, left, right) == assignment_allowed(AssignOperator::Assign, right, left),
        (left is Int || left is Float || left is Any) && (right is Int || right is Float || right is Any)
            ==> assignment_allowed(op, left, right),
        (left is String || left is Char) && (right is String || right is Char)
            ==> assignment_allowed(AssignOperator::PlusEquals, left, right),
        op != AssignOperator::Assign && (left is Bool || left is Null || left is Struct || left is Object || left is Vector)
            ==> !assignment_allowed(op, left, right),
        op != AssignOperator::Assign && op != AssignOperator::PlusEquals && (left is String || left is Char)
            ==> !assignment_allowed(op, left, right),
{
    crate::interpreter::types::lemma_matches_symmetric(left, right);
    if left is Any || right is Any {
    }
}

/// Then-else expressions: without an annotation, branches that match give the first
/// branch's type and branches that do not are refused; with an annotation that admits
/// anything, or that both branches match, the annotated type is given.
pub proof fn lemma_then_else(then_type: ResolvedType, else_type: ResolvedType, t: ResolvedType, name: Seq<char>)
    ensures
        types_match(then_type, else_type) ==> then_else_result(then_type, else_type, None) == Ok::<ResolvedType, Seq<char>>(then_type),
        !types_match(then_type, else_type) ==> then_else_result(then_type, else_type, None) is Err,
        then_else_result(then_type, else_type, Some((true, t, name))) == Ok::<ResolvedType, Seq<char>>(t),
        types_match(then_type, t) && types_match(else_type, t)
            ==> then_else_result(then_type, else_type, Some((false, t, name))) == Ok::<ResolvedType, Seq<char>>(t),
        !(types_match(then_type, t) && types_match(else_type, t))
            ==> then_else_result(then_type, else_type, Some((false, t, name))) is Err,
{
}

/// Elements from `i` on that all have the type found so far keep it.
proof fn lemma_vector_keeps_type(t: ResolvedType, elems: Seq<(ResolvedType, TextSpan)>, i: int)
    requires
        types_match(t, t),
        !(t is Null),
        0 <= i,
        forall|j: int| 0 <= j < elems.len() ==> (#[trigger] elems[j]).0 == t,
    ensures
        vector_from(t, elems, i, None, false) == Ok::<ResolvedType, (Seq<char>, TextSpan)>(ResolvedType::Vector(Box::new(t))),
    decreases elems.len() - i,
{
    if i < elems.len() {
        lemma_vector_keeps_type(t, elems, i + 1);
    }
}

/// Vector literals: an empty one is a vector of null, and one whose elements all have one
/// type that matches itself (without an annotation) is a vector of that type.
pub proof fn lemma_vector_of_one_type(t: ResolvedType, elems: Seq<(ResolvedType, TextSpan)>)
    requires
        types_match(t, t),
        !(t is Null),
        elems.len() > 0,
        forall|j: int| 0 <= j < elems.len() ==> (#[trigger] elems[j]).0 == t,
    ensures
        vector_from(ResolvedType::Null, Seq::empty(), 0, None, false) == Ok::<ResolvedType, (Seq<char>, TextSpan)>(ResolvedType::Vector(Box::new(ResolvedType::Null))),
        vector_from(ResolvedType::Null, elems, 0, None, false) == Ok::<ResolvedType, (Seq<char>, TextSpan)>(ResolvedType::Vector(Box::new(t))),
{
    lemma_vector_keeps_type(t, elems, 1);
    assert(elems[0].0 == t);
}

/// Whether the type is an int or a float.
fn number_type(t: &ResolvedType) -> (b: bool)
    ensures
        b == is_number(*t),
{
    match t {
        ResolvedType::Int | ResolvedType::Float => true,
        _ => false,
    }
}

/// Whether the type is a string or a char.
fn text_type(t: &ResolvedType) -> (b: bool)
    ensures
        b == is_text(*t),
{
    match t {
        ResolvedType::String | ResolvedType::Char => true,
        _ => false,
    }
}

/// A type mismatch error with a message made of the parts.
fn mismatch(parts: &Vec<&str>, span: TextSpan) -> (e: RoanError)
    ensures
        e matches RoanError::TypeMismatch(m, s) && s == span && m@ == concat_parts(parts@),
{
    let mut m = String::new();
    let mut i: usize = 0;
    assert(parts@.take(0) =~= Seq::<&str>::empty());
    while i < parts.len()
        invariant
            i <= parts@.len(),
            m@ == concat_parts(parts@.take(i as int)),
        decreases parts@.len() - i,
    {
        push_str(&mut m, parts[i]);
        assert(parts@.take(i + 1).drop_last() =~= parts@.take(i as int));
        i = i + 1;
    }
    assert(parts@.take(parts@.len() as int) =~= parts@);
    RoanError::TypeMismatch(m, span)
}

/// The texts concatenated in order.
pub open spec fn concat_parts(parts: Seq<&str>) -> Seq<char>
    decreases parts.len(),
{
    if parts.len() == 0 {
        seq![]
    } else {
        concat_parts(parts.drop_last()) + parts.last()@
    }
}

/// The type of a binary operation between operands of the given types; a type mismatch
/// at the span when the operation is not allowed, its message showing the operand types
/// as given.
pub fn binary_type(
    op: BinOpKind,
    class: OperatorClass,
    left: &ResolvedType,
    right: &ResolvedType,
    left_shown: &str,
    right_shown: &str,
    span: TextSpan,
) -> (r: Result<ResolvedType, RoanError>)
    ensures
        outcome(r) == match binary_result(op, class, *left, *right) {
            Some(t) => Ok(t),
            None => Err(Some((binary_mismatch(class, left_shown@, right_shown@), span))),
        },
{
    let allowed: Option<ResolvedType> = match class {
        OperatorClass::Number => if text_type(left) && matches!(op, BinOpKind::Plus) && text_type(right) {
            Some(ResolvedType::String)
        } else if matches!(left, ResolvedType::Int) && matches!(right, ResolvedType::Int) {
            Some(ResolvedType::Int)
        } else if number_type(left) && number_type(right) {
            Some(ResolvedType::Float)
        } else {
            None
        },
        OperatorClass::Boolean => if (text_type(left) && matches!(op, BinOpKind::Equals) && text_type(right))
            || (number_type(left) && number_type(right))
            || (matches!(left, ResolvedType::Bool) && matches!(right, ResolvedType::Bool))
            || (matches!(left, ResolvedType::Null) && matches!(right, ResolvedType::Null))
            || (matches!(left, ResolvedType::Vector(_)) && matches!(right, ResolvedType::Vector(_))) {
            Some(ResolvedType::Bool)
        } else {
            None
        },
    };
    match allowed {
        Some(t) => Ok(t),
        None => {
            let head = match class {
                OperatorClass::Number => "Invalid binary operation between ",
                OperatorClass::Boolean => "Invalid boolean operation between ",
            };
            let parts = vec![head, left_shown, " and ", right_shown];
            let e = mismatch(&parts, span);
            proof {
                reveal_with_fuel(concat_parts, 5);
            }
            Err(e)
        },
    }
}

/// The type of a unary operation on an operand of the given type; a type mismatch at the
/// span, naming the operator as shown, when `-` or `~` is applied to anything but a number.
pub fn unary_type(op: UnOpKind, operand: ResolvedType, op_shown: &str, span: TextSpan) -> (r: Result<ResolvedType, RoanError>)
    ensures
        outcome(r) == match unary_result(op, operand) {
            Some(t) => Ok(t),
            None => Err(Some(("Unary operator "@ + op_shown@ + " can only be applied to int or float"@, span))),
        },
{
    match op {
        UnOpKind::LogicalNot => Ok(ResolvedType::Bool),
        _ => if number_type(&operand) {
            Ok(operand)
        } else {
            let parts = vec!["Unary operator ", op_shown, " can only be applied to int or float"];
            let e = mismatch(&parts, span);
            proof {
                reveal_with_fuel(concat_parts, 4);
            }
            Err(e)
        },
    }
}

/// The type of an assignment between the types: the type assigned to, when the
/// assignment is allowed; a type mismatch at the span otherwise.
pub fn assignment_type(
    op: AssignOperator,
    left: ResolvedType,
    right: ResolvedType,
    op_shown: &str,
    left_shown: &str,
    right_shown: &str,
    span: TextSpan,
) -> (r: Result<ResolvedType, RoanError>)
    ensures
        outcome(r) == if assignment_allowed(op, left, right) {
            Ok::<ResolvedType, Option<(Seq<char>, TextSpan)>>(left)
        } else {
            Err(Some((assignment_mismatch(op, op_shown@, left_shown@, right_shown@), span)))
        },
{
    let allowed = match op {
        AssignOperator::Assign => ResolvedType::matches(left.duplicate(), right.duplicate()),
        AssignOperator::PlusEquals => (number_type(&left) || text_type(&left) || matches!(left, ResolvedType::Any))
            && (number_type(&right) || text_type(&right) || matches!(right, ResolvedType::Any)),
        _ => (number_type(&left) || matches!(left, ResolvedType::Any))
            && (number_type(&right) || matches!(right, ResolvedType::Any)),
    };
    if allowed {
        Ok(left)
    } else {
        let parts = match op {
            AssignOperator::Assign => vec!["Cannot assign ", right_shown, " to ", left_shown],
            _ => vec!["Invalid ", op_shown, " assignment between ", left_shown, " and ", right_shown],
        };
        let e = mismatch(&parts, span);
        proof {
            reveal_with_fuel(concat_parts, 7);
        }
        Err(e)
    }
}

/// The annotation taken by its plain parts.
pub open spec fn annotation_view(a: Option<Annotation>) -> Option<(bool, ResolvedType, Seq<char>)> {
    match a {
        Some(a) => Some((a.is_any, a.resolved, a.written_as@)),
        None => None,
    }
}

/// The type of a then-else expression whose branches have the given types, under an
/// optional annotation; a type mismatch at the span when the branches do not fit.
pub fn then_else_type(then_type: ResolvedType, else_type: ResolvedType, annotation: Option<Annotation>, span: TextSpan) -> (r: Result<ResolvedType, RoanError>)
    ensures
        outcome(r) == match then_else_result(then_type, else_type, annotation_view(annotation)) {
            Ok(t) => Ok(t),
            Err(m) => Err(Some((m, span))),
        },
{
    match annotation {
        Some(a) => {
            if a.is_any || (ResolvedType::matches(then_type, a.resolved.duplicate())
                && ResolvedType::matches(else_type, a.resolved.duplicate())) {
                Ok(a.resolved)
            } else {
                let parts = vec!["Both branches of a then-else expression must match type annotation: ", a.written_as.as_str()];
                let e = mismatch(&parts, span);
                proof {
                    reveal_with_fuel(concat_parts, 3);
                }
                Err(e)
            }
        },
        None => {
            if ResolvedType::matches(then_type.duplicate(), else_type) {
                Ok(then_type)
            } else {
                let parts = vec!["Two branches of a then-else expression must have the same type"];
                let e = mismatch(&parts, span);
                proof {
                    reveal_with_fuel(concat_parts, 2);
                }
                Err(e)
            }
        },
    }
}

/// The element annotation of a vector taken by its plain parts: the element type and the
/// name the annotation is written with.
pub open spec fn element_annotation_view(a: Option<(ResolvedType, String)>) -> Option<(ResolvedType, Seq<char>)> {
    match a {
        Some((t, n)) => Some((t, n@)),
        None => None,
    }
}

/// The type of a vector literal whose elements have the given types and spans (see
/// `vector_from`); a type mismatch at the span of the first element that does not fit.
pub fn vector_type(
    elems: &Vec<(ResolvedType, TextSpan)>,
    annotation: Option<(ResolvedType, String)>,
    accepts_any: bool,
) -> (r: Result<ResolvedType, RoanError>)
    ensures
        outcome(r) == match vector_from(ResolvedType::Null, elems@, 0, element_annotation_view(annotation), accepts_any) {
            Ok(t) => Ok(t),
            Err(e) => Err(Some(e)),
        },
{
    let ghost av = element_annotation_view(annotation);
    let mut current = ResolvedType::Null;
    let mut i: usize = 0;
    while i < elems.len()
        invariant
            i <= elems@.len(),
            av == element_annotation_view(annotation),
            vector_from(ResolvedType::Null, elems@, 0, av, accepts_any)
                == vector_from(current, elems@, i as int, av, accepts_any),
        decreases elems@.len() - i,
    {
        let t = elems[i].0.duplicate();
        let span = elems[i].1.duplicate();
        let ghost before = current;
        if matches!(current, ResolvedType::Null) {
            current = t;
        } else {
            match &annotation {
                Some((g, name)) => {
                    if !(ResolvedType::matches(current.duplicate(), g.duplicate())
                        && ResolvedType::matches(t, g.duplicate())) {
                        let parts = vec!["All elements of a vector must match type annotation: ", name.as_str()];
                        let e = mismatch(&parts, span);
                        proof {
                            reveal_with_fuel(concat_parts, 3);
                        }
                        return Err(e);
                    }
                },
                None => {
                    if !ResolvedType::matches(current.duplicate(), t) && !accepts_any {
                        let parts = vec!["All elements of a vector must have the same type"];
                        let e = mismatch(&parts, span);
                        proof {
                            reveal_with_fuel(concat_parts, 2);
                        }
                        return Err(e);
                    }
                },
            }
        }
        if accepts_any {
            current = ResolvedType::Any;
        }
        i = i + 1;
    }
    Ok(ResolvedType::Vector(Box::new(current)))
}

/// The text highlighted for the terminal.
///
/// Calls `colored::Colorize::bright_magenta` and renders the result; whether it holds
/// escape sequences depends on the environment the program runs in, so nothing of the
/// text is stated.
#[verifier::external_body]
pub(crate) fn highlighted(text: &str) -> String {
    colored::Colorize::bright_magenta(text).to_string()
}

/// The type of a binary operation between operands of the given types, as the type pass
/// checks it: the operand types are shown highlighted in the message of a mismatch.
pub fn check_binary(op: BinOpKind, class: OperatorClass, left: &ResolvedType, right: &ResolvedType, span: TextSpan) -> (r: Result<ResolvedType, RoanError>)
    ensures
        match binary_result(op, class, *left, *right) {
            Some(t) => r == Ok::<ResolvedType, RoanError>(t),
            None => (r matches Err(RoanError::TypeMismatch(_, s)) && s == span)
                && (exists|l: Seq<char>, rt: Seq<char>| #[trigger] binary_mismatch(class, l, rt) == message_of(r)),
        },
{
    let l = highlighted(left.to_string().as_str());
    let rt = highlighted(right.to_string().as_str());
    let r = binary_type(op, class, left, right, l.as_str(), rt.as_str(), span);
    proof {
        if binary_result(op, class, *left, *right) is None {
            assert(binary_mismatch(class, l@, rt@) == message_of(r));
        }
    }
    r
}

/// The type of an assignment between the types, as the type pass checks it: the
/// operator (as written) and the types are shown highlighted in the message of a mismatch.
pub fn check_assignment(op: AssignOperator, op_text: &str, left: ResolvedType, right: ResolvedType, span: TextSpan) -> (r: Result<ResolvedType, RoanError>)
    ensures
        if assignment_allowed(op, left, right) {
            r == Ok::<ResolvedType, RoanError>(left)
        } else {
            (r matches Err(RoanError::TypeMismatch(_, s)) && s == span)
                && (exists|o: Seq<char>, l: Seq<char>, rt: Seq<char>| #[trigger] assignment_mismatch(op, o, l, rt) == message_of(r))
        },
{
    let o = highlighted(op_text);
    let l = highlighted(left.to_string().as_str());
    let rt = highlighted(right.to_string().as_str());
    let r = assignment_type(op, left, right, o.as_str(), l.as_str(), rt.as_str(), span);
    proof {
        if !assignment_allowed(op, left, right) {
            assert(assignment_mismatch(op, o@, l@, rt@) == message_of(r));
        }
    }
    r
}

} // verus!
