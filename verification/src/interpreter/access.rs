use vstd::prelude::*;
use crate::error::RoanError;
use crate::methods::table::{builtin_method, method_table, BuiltinMethod, ValueKind};
use crate::span::TextSpan;

verus! {

/// The element an assignment `v[index] = ..` writes, for a vector of `len` elements: the
/// index read as a `usize` (a negative index wraps, as a cast does), which must be below
/// the length; `IndexOutOfBounds` at the span otherwise.
pub fn vec_index_target(index: i64, len: usize, span: TextSpan) -> (r: Result<usize, RoanError>)
    ensures
        (index as usize) < len ==> r == Ok::<usize, RoanError>(index as usize),
        !((index as usize) < len) ==> (r matches Err(RoanError::IndexOutOfBounds(i, n, s))
            && i == index as usize && n == len && s == span),
{
    let idx = index as usize;
    if idx >= len {
        Err(RoanError::IndexOutOfBounds(idx, len, span))
    } else {
        Ok(idx)
    }
}

/// The message of an assignment whose target is not bound to a variable.
pub open spec fn no_variable_message() -> Seq<char> {
    "Unable to determine variable for assignment"@
}

/// The element an assignment `base[index] = ..` writes, checked as the evaluator checks it:
/// the base must be a vector and the index an int (`index` is `None` for an index of any
/// other kind), the index must be in bounds, and the base must name a variable to write
/// back to.
pub fn index_assignment_check(
    base_is_vec: bool,
    index: Option<i64>,
    len: usize,
    has_variable: bool,
    index_span: TextSpan,
    base_span: TextSpan,
) -> (r: Result<usize, RoanError>)
    ensures
        match (base_is_vec, index) {
            (true, Some(i)) => if !((i as usize) < len) {
                r matches Err(RoanError::IndexOutOfBounds(k, n, s)) && k == i as usize && n == len && s == index_span
            } else if !has_variable {
                r matches Err(RoanError::InvalidAssignment(m, s)) && m@ == no_variable_message() && s == base_span
            } else {
                r == Ok::<usize, RoanError>(i as usize)
            },
            _ => r matches Err(RoanError::TypeMismatch(m, s))
                && m@ == "Left side of assignment must be a vector with integer index"@ && s == base_span,
        },
{
    proof {
        reveal_strlit("Unable to determine variable for assignment");
        reveal_strlit("Left side of assignment must be a vector with integer index");
    }
    match (base_is_vec, index) {
        (true, Some(i)) => {
            let idx = vec_index_target(i, len, index_span)?;
            if has_variable {
                Ok(idx)
            } else {
                Err(RoanError::InvalidAssignment("Unable to determine variable for assignment".to_owned(), base_span))
            }
        },
        _ => Err(RoanError::TypeMismatch("Left side of assignment must be a vector with integer index".to_owned(), base_span)),
    }
}

/// The kind of value an assignment `base.field = ..` writes into.
#[derive(Debug, Clone, Copy, PartialEq, Eq)]
pub enum AssignBase {
    Object,
    Struct,
    /// Any other value.
    Other,
}

/// How an assignment `base.field = ..` goes on once checked.
#[derive(Debug, Clone, Copy, PartialEq, Eq)]
pub enum FieldAssignment {
    /// The field is set (or added) on the object.
    SetObjectField,
    /// The field is set on the struct, which declares it.
    SetStructField,
    /// The struct declares no field of that name: the evaluator reports a property
    /// assignment error, which the error type has no variant for.
    UnknownStructField,
}

/// Whether the name is among the names.
fn has_name(names: &Vec<String>, name: &str) -> (b: bool)
    ensures
        b == exists|i: int| 0 <= i < names@.len() && #[trigger] names@[i]@ == name@,
{
    let n = name.to_owned();
    let mut k: usize = 0;
    while k < names.len()
        invariant
            k <= names@.len(),
            n@ == name@,
            forall|i: int| 0 <= i < k ==> #[trigger] names@[i]@ != name@,
        decreases names@.len() - k,
    {
        if names[k] == n {
            return true;
        }
        k = k + 1;
    }
    false
}

/// An assignment `base.field = ..`, checked as the evaluator checks it: the base must name
/// a variable to write back to, and must be an object (any field may be set) or a struct
/// (only a declared field, by `declared_fields`).
pub fn field_assignment_check(
    base: AssignBase,
    declared_fields: &Vec<String>,
    field: &str,
    has_variable: bool,
    base_span: TextSpan,
) -> (r: Result<FieldAssignment, RoanError>)
    ensures
        !has_variable ==> (r matches Err(RoanError::InvalidAssignment(m, s)) && m@ == no_variable_message() && s == base_span),
        has_variable ==> match base {
            AssignBase::Object => r == Ok::<FieldAssignment, RoanError>(FieldAssignment::SetObjectField),
            AssignBase::Struct => if exists|i: int| 0 <= i < declared_fields@.len() && #[trigger] declared_fields@[i]@ == field@ {
                r == Ok::<FieldAssignment, RoanError>(FieldAssignment::SetStructField)
            } else {
                r == Ok::<FieldAssignment, RoanError>(FieldAssignment::UnknownStructField)
            },
            AssignBase::Other => r matches Err(RoanError::TypeMismatch(m, s))
                && m@ == "Left side of assignment must be a struct or object"@ && s == base_span,
        },
{
    proof {
        reveal_strlit("Unable to determine variable for assignment");
        reveal_strlit("Left side of assignment must be a struct or object");
    }
    if !has_variable {
        return Err(RoanError::InvalidAssignment("Unable to determine variable for assignment".to_owned(), base_span));
    }
    match base {
        AssignBase::Object => Ok(FieldAssignment::SetObjectField),
        AssignBase::Struct => if has_name(declared_fields, field) {
            Ok(FieldAssignment::SetStructField)
        } else {
            Ok(FieldAssignment::UnknownStructField)
        },
        AssignBase::Other => Err(RoanError::TypeMismatch("Left side of assignment must be a struct or object".to_owned(), base_span)),
    }
}

/// What follows `.` in an access: a call, a name, or another expression.
#[derive(Debug, Clone, Copy, PartialEq, Eq)]
pub enum AccessMember {
    Call,
    Name,
    Other,
}

/// How an access `value.member` is evaluated.
#[derive(Debug, Clone, Copy, PartialEq, Eq)]
pub enum AccessPlan {
    /// Call the struct's method at this position of its methods.
    StructMethod(usize),
    /// Call the built-in method of the value's kind.
    Builtin(BuiltinMethod),
    /// Read the field at this position of the value's fields.
    Field(usize),
    /// Evaluate the member expression itself.
    Evaluate,
}

/// The first method of the name that is called on a value (not static), from `k` on.
pub open spec fn find_instance_method(methods: Seq<(String, bool)>, name: Seq<char>, k: int) -> Option<int>
    decreases methods.len() - k,
{
    if k < 0 || k >= methods.len() {
        None
    } else if methods[k].0@ == name && !methods[k].1 {
        Some(k)
    } else {
        find_instance_method(methods, name, k + 1)
    }
}

/// The first field of the name, from `k` on.
pub open spec fn find_field_named(fields: Seq<String>, name: Seq<char>, k: int) -> Option<int>
    decreases fields.len() - k,
{
    if k < 0 || k >= fields.len() {
        None
    } else if fields[k]@ == name {
        Some(k)
    } else {
        find_field_named(fields, name, k + 1)
    }
}

/// What an access `value.member` comes to, as the evaluator decides it: a call on a struct
/// calls its first non-static method of the name (its `impl` blocks' methods, then its
/// trait implementations'), a call on any other value the built-in method of its kind; a
/// name on a struct or an object reads the field of that name; anything else is evaluated.
/// A method or field that is not there is `PropertyNotFoundError` at the span.
pub open spec fn access_result(
    kind: ValueKind,
    struct_methods: Seq<(String, bool)>,
    fields: Seq<String>,
    member: AccessMember,
    name: Seq<char>,
    span: TextSpan,
) -> Result<AccessPlan, (Seq<char>, TextSpan)> {
    match member {
        AccessMember::Call => if kind == ValueKind::Struct {
            match find_instance_method(struct_methods, name, 0) {
                Some(k) => Ok(AccessPlan::StructMethod(k as usize)),
                None => Err((name, span)),
            }
        } else {
            match method_table(kind, name) {
                Some(m) => Ok(AccessPlan::Builtin(m)),
                None => Err((name, span)),
            }
        },
        AccessMember::Name => if kind == ValueKind::Struct || kind == ValueKind::Object {
            match find_field_named(fields, name, 0) {
                Some(k) => Ok(AccessPlan::Field(k as usize)),
                None => Err((name, span)),
            }
        } else {
            Err((name, span))
        },
        AccessMember::Other => Ok(AccessPlan::Evaluate),
    }
}

/// The field search finds a field of the name exactly when one is there, and what it
/// finds has that name.
proof fn lemma_find_field(fields: Seq<String>, name: Seq<char>, k: int)
    requires
        0 <= k,
    ensures
        match find_field_named(fields, name, k) {
            Some(j) => k <= j < fields.len() && fields[j]@ == name
                && forall|i: int| k <= i < j ==> fields[i]@ != name,
            None => forall|i: int| k <= i < fields.len() ==> fields[i]@ != name,
        },
    decreases fields.len() - k,
{
    if k < fields.len() {
        lemma_find_field(fields, name, k + 1);
    }
}

/// The method search finds a non-static method of the name exactly when one is there,
/// and what it finds is such a method.
proof fn lemma_find_instance_method(methods: Seq<(String, bool)>, name: Seq<char>, k: int)
    requires
        0 <= k,
    ensures
        match find_instance_method(methods, name, k) {
            Some(j) => k <= j < methods.len() && methods[j].0@ == name && !methods[j].1
                && forall|i: int| k <= i < j ==> !(methods[i].0@ == name && !methods[i].1),
            None => forall|i: int| k <= i < methods.len() ==> !(methods[i].0@ == name && !methods[i].1),
        },
    decreases methods.len() - k,
{
    if k < methods.len() {
        lemma_find_instance_method(methods, name, k + 1);
    }
}

/// Reading a name on a struct or an object reads a field of that name when the value has
/// one, and is `PropertyNotFoundError` at the span when it has none; reading a name on
/// any other value is that error too.
pub proof fn lemma_field_reads(kind: ValueKind, methods: Seq<(String, bool)>, fields: Seq<String>, name: Seq<char>, span: TextSpan)
    requires
        fields.len() <= usize::MAX,
        methods.len() <= usize::MAX,
    ensures
        (kind == ValueKind::Struct || kind == ValueKind::Object) && (exists|i: int| 0 <= i < fields.len() && fields[i]@ == name)
            ==> (access_result(kind, methods, fields, AccessMember::Name, name, span) matches Ok(AccessPlan::Field(k))
                && k < fields.len() && fields[k as int]@ == name),
        !(exists|i: int| 0 <= i < fields.len() && fields[i]@ == name)
            ==> access_result(kind, methods, fields, AccessMember::Name, name, span) == Err::<AccessPlan, (Seq<char>, TextSpan)>((name, span)),
        !(kind == ValueKind::Struct || kind == ValueKind::Object)
            ==> access_result(kind, methods, fields, AccessMember::Name, name, span) == Err::<AccessPlan, (Seq<char>, TextSpan)>((name, span)),
{
    lemma_find_field(fields, name, 0);
}

/// Calling a method on a struct calls a non-static method of that name when the struct
/// has one, and is `PropertyNotFoundError` at the span when it has none; on any other
/// value it calls the built-in method of that name for the value's kind.
pub proof fn lemma_method_calls(kind: ValueKind, methods: Seq<(String, bool)>, fields: Seq<String>, name: Seq<char>, span: TextSpan)
    requires
        fields.len() <= usize::MAX,
        methods.len() <= usize::MAX,
    ensures
        kind == ValueKind::Struct && (exists|i: int| 0 <= i < methods.len() && methods[i].0@ == name && !methods[i].1)
            ==> (access_result(kind, methods, fields, AccessMember::Call, name, span) matches Ok(AccessPlan::StructMethod(k))
                && k < methods.len() && methods[k as int].0@ == name && !methods[k as int].1),
        kind == ValueKind::Struct && !(exists|i: int| 0 <= i < methods.len() && methods[i].0@ == name && !methods[i].1)
            ==> access_result(kind, methods, fields, AccessMember::Call, name, span) == Err::<AccessPlan, (Seq<char>, TextSpan)>((name, span)),
        kind != ValueKind::Struct ==> access_result(kind, methods, fields, AccessMember::Call, name, span) == match method_table(kind, name) {
            Some(m) => Ok::<AccessPlan, (Seq<char>, TextSpan)>(AccessPlan::Builtin(m)),
            None => Err((name, span)),
        },
{
    lemma_find_instance_method(methods, name, 0);
}

/// How an access `value.member` is evaluated (see `access_result`), given the kind of the
/// value, the methods of its struct (name and whether static, in the order they are
/// searched), the names of its fields, the form of the member, and the member's name and
/// span.
pub fn access_plan(
    kind: ValueKind,
    struct_methods: &Vec<(String, bool)>,
    fields: &Vec<String>,
    member: AccessMember,
    name: &str,
    span: TextSpan,
) -> (r: Result<AccessPlan, RoanError>)
    ensures
        match access_result(kind, struct_methods@, fields@, member, name@, span) {
            Ok(p) => r == Ok::<AccessPlan, RoanError>(p),
            Err((n, s)) => r matches Err(RoanError::PropertyNotFoundError(n2, s2)) && n2@ == n && s2 == s,
        },
{
    let n = name.to_owned();
    match member {
        AccessMember::Call => if matches!(kind, ValueKind::Struct) {
            let mut k: usize = 0;
            while k < struct_methods.len()
                invariant
                    k <= struct_methods@.len(),
                    n@ == name@,
                    member == AccessMember::Call,
                    kind == ValueKind::Struct,
                    find_instance_method(struct_methods@, name@, 0) == find_instance_method(struct_methods@, name@, k as int),
                decreases struct_methods@.len() - k,
            {
                if struct_methods[k].0 == n && !struct_methods[k].1 {
                    return Ok(AccessPlan::StructMethod(k));
                }
                k = k + 1;
            }
            Err(RoanError::PropertyNotFoundError(n, span))
        } else {
            match builtin_method(kind, name) {
                Some(m) => Ok(AccessPlan::Builtin(m)),
                None => Err(RoanError::PropertyNotFoundError(n, span)),
            }
        },
        AccessMember::Name => if matches!(kind, ValueKind::Struct) || matches!(kind, ValueKind::Object) {
            let mut k: usize = 0;
            while k < fields.len()
                invariant
                    k <= fields@.len(),
                    n@ == name@,
                    member == AccessMember::Name,
                    kind == ValueKind::Struct || kind == ValueKind::Object,
                    find_field_named(fields@, name@, 0) == find_field_named(fields@, name@, k as int),
                decreases fields@.len() - k,
            {
                if fields[k] == n {
                    return Ok(AccessPlan::Field(k));
                }
                k = k + 1;
            }
            Err(RoanError::PropertyNotFoundError(n, span))
        } else {
            Err(RoanError::PropertyNotFoundError(n, span))
        },
        AccessMember::Other => Ok(AccessPlan::Evaluate),
    }
}

/// The first static method of the name, from `k` on.
pub open spec fn find_static_method(methods: Seq<(String, bool)>, name: Seq<char>, k: int) -> Option<int>
    decreases methods.len() - k,
{
    if k < 0 || k >= methods.len() {
        None
    } else if methods[k].0@ == name && methods[k].1 {
        Some(k)
    } else {
        find_static_method(methods, name, k + 1)
    }
}

/// The static method search finds a static method of the name exactly when there is one,
/// and the first such.
pub proof fn lemma_find_static_method(methods: Seq<(String, bool)>, name: Seq<char>, k: int)
    requires
        0 <= k,
    ensures
        match find_static_method(methods, name, k) {
            Some(j) => k <= j < methods.len() && methods[j].0@ == name && methods[j].1
                && forall|i: int| k <= i < j ==> !(methods[i].0@ == name && methods[i].1),
            None => forall|i: int| k <= i < methods.len() ==> !(methods[i].0@ == name && methods[i].1),
        },
    decreases methods.len() - k,
{
    if k < methods.len() {
        lemma_find_static_method(methods, name, k + 1);
    }
}

/// The static method an access `Base::member(..)` calls, as the evaluator decides it: the
/// base must be a variable (`base_name`), naming a struct of the module (`struct_methods`,
/// `None` when there is none), and the member a call (`call_name`) of one of its static
/// methods.
pub fn static_access_plan(
    base_name: Option<&str>,
    base_span: TextSpan,
    access_span: TextSpan,
    struct_methods: Option<&Vec<(String, bool)>>,
    call_name: Option<&str>,
    call_span: TextSpan,
    member_span: TextSpan,
) -> (r: Result<usize, RoanError>)
    ensures
        match base_name {
            None => r matches Err(RoanError::StaticMemberAccess(s)) && s == access_span,
            Some(b) => match struct_methods {
                None => r matches Err(RoanError::StructNotFoundError(n, s)) && n@ == b@ && s == base_span,
                Some(ms) => match call_name {
                    None => r matches Err(RoanError::StaticContext(s)) && s == member_span,
                    Some(c) => match find_static_method(ms@, c@, 0) {
                        Some(k) => r == Ok::<usize, RoanError>(k as usize),
                        None => r matches Err(RoanError::UndefinedFunctionError(n, s)) && n@ == c@ && s == call_span,
                    },
                },
            },
        },
{
    let b = match base_name {
        None => return Err(RoanError::StaticMemberAccess(access_span)),
        Some(b) => b,
    };
    let ms = match struct_methods {
        None => return Err(RoanError::StructNotFoundError(b.to_owned(), base_span)),
        Some(ms) => ms,
    };
    let c = match call_name {
        None => return Err(RoanError::StaticContext(member_span)),
        Some(c) => c.to_owned(),
    };
    assert(base_name == Some(b) && struct_methods == Some(ms) && (call_name matches Some(c0) && c0@ == c@));
    let mut k: usize = 0;
    while k < ms.len()
        invariant
            k <= ms@.len(),
            base_name == Some(b),
            struct_methods == Some(ms),
            (call_name matches Some(c0) && c0@ == c@),
            find_static_method(ms@, c@, 0) == find_static_method(ms@, c@, k as int),
        decreases ms@.len() - k,
    {
        if ms[k].0 == c && ms[k].1 {
            return Ok(k);
        }
        k = k + 1;
    }
    Err(RoanError::UndefinedFunctionError(c, call_span))
}

} // verus!
