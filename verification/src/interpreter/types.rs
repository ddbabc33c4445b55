use vstd::prelude::*;
use vstd::hash_map::StringHashMap;
use crate::error::RoanError;
use crate::span::TextSpan;
use crate::text::push_str;

verus! {

/// The static type of a Roan expression.
#[derive(Debug, PartialEq)]
pub enum ResolvedType {
    Int,
    Float,
    Bool,
    String,
    Char,
    /// Name of a struct - defining module
    Struct(String, String),
    Null,
    /// Object value type can be any type
    Object(Box<ResolvedType>),
    Vector(Box<ResolvedType>),
    Any,
    Void,
}

/// Whether a value of one type may stand where the other is expected: numbers match
/// numbers, strings and chars match each other, structs match when their name and
/// defining module agree, vectors and objects match when their element types match,
/// `any` matches everything, and `void` matches `void`. No other pair matches.
pub open spec fn types_match(t1: ResolvedType, t2: ResolvedType) -> bool
    decreases t1,
{
    match (t1, t2) {
        (ResolvedType::Int, ResolvedType::Float) | (ResolvedType::Float, ResolvedType::Int)
        | (ResolvedType::Int, ResolvedType::Int) | (ResolvedType::Float, ResolvedType::Float) => true,
        (ResolvedType::String, ResolvedType::Char) | (ResolvedType::Char, ResolvedType::String)
        | (ResolvedType::String, ResolvedType::String) => true,
        (ResolvedType::Struct(n1, m1), ResolvedType::Struct(n2, m2)) => n1@ == n2@ && m1@ == m2@,
        (ResolvedType::Vector(a), ResolvedType::Vector(b)) => types_match(*a, *b),
        (ResolvedType::Object(a), ResolvedType::Object(b)) => types_match(*a, *b),
        (ResolvedType::Any, _) | (_, ResolvedType::Any) => true,
        (ResolvedType::Void, ResolvedType::Void) => true,
        _ => false,
    }
}

/// The name a type is shown by.
pub open spec fn type_text(t: ResolvedType) -> Seq<char>
    decreases t,
{
    match t {
        ResolvedType::Int => "int"@,
        ResolvedType::Float => "float"@,
        ResolvedType::Bool => "bool"@,
        ResolvedType::String => "string"@,
        ResolvedType::Char => "char"@,
        ResolvedType::Struct(name, _) => name@,
        ResolvedType::Null => "null"@,
        ResolvedType::Object(t) => "object<"@ + type_text(*t) + ">"@,
        ResolvedType::Vector(t) => "vec<"@ + type_text(*t) + ">"@,
        ResolvedType::Any => "any"@,
        ResolvedType::Void => "void"@,
    }
}

impl ResolvedType {
    /// Whether the two types match (see [`types_match`]).
    pub fn matches(type1: ResolvedType, type2: ResolvedType) -> (b: bool)
        ensures
            b == types_match(type1, type2),
        decreases type1,
    {
        match (type1, type2) {
            (ResolvedType::Int, ResolvedType::Float) | (ResolvedType::Float, ResolvedType::Int)
            | (ResolvedType::Int, ResolvedType::Int) | (ResolvedType::Float, ResolvedType::Float) => true,
            (ResolvedType::String, ResolvedType::Char) | (ResolvedType::Char, ResolvedType::String)
            | (ResolvedType::String, ResolvedType::String) => true,
            (ResolvedType::Struct(name1, def_module1), ResolvedType::Struct(name2, def_module2)) =>
                name1 == name2 && def_module1 == def_module2,
            (ResolvedType::Vector(a), ResolvedType::Vector(b)) => ResolvedType::matches(*a, *b),
            (ResolvedType::Object(a), ResolvedType::Object(b)) => ResolvedType::matches(*a, *b),
            (ResolvedType::Any, _) | (_, ResolvedType::Any) => true,
            (ResolvedType::Void, ResolvedType::Void) => true,
            _ => false,
        }
    }

    /// Whether both types match the target type.
    pub fn matches_to(type1: ResolvedType, type2: ResolvedType, to: ResolvedType) -> (b: bool)
        ensures
            b == (types_match(type1, to) && types_match(type2, to)),
    {
        let to2 = to.duplicate();
        ResolvedType::matches(type1, to2) && ResolvedType::matches(type2, to)
    }

    /// A copy of the type.
    pub fn duplicate(&self) -> (t: ResolvedType)
        ensures
            t == *self,
        decreases self,
    {
        match self {
            ResolvedType::Int => ResolvedType::Int,
            ResolvedType::Float => ResolvedType::Float,
            ResolvedType::Bool => ResolvedType::Bool,
            ResolvedType::String => ResolvedType::String,
            ResolvedType::Char => ResolvedType::Char,
            ResolvedType::Struct(n, m) => ResolvedType::Struct(n.clone(), m.clone()),
            ResolvedType::Null => ResolvedType::Null,
            ResolvedType::Object(t) => ResolvedType::Object(Box::new(t.duplicate())),
            ResolvedType::Vector(t) => ResolvedType::Vector(Box::new(t.duplicate())),
            ResolvedType::Any => ResolvedType::Any,
            ResolvedType::Void => ResolvedType::Void,
        }
    }

    /// The name the type is shown by, such as `int`, `vec<string>` or a struct's name.
    pub fn to_string(&self) -> (s: String)
        ensures
            s@ == type_text(*self),
        decreases self,
    {
        match self {
            ResolvedType::Int => "int".to_owned(),
            ResolvedType::Float => "float".to_owned(),
            ResolvedType::Bool => "bool".to_owned(),
            ResolvedType::String => "string".to_owned(),
            ResolvedType::Char => "char".to_owned(),
            ResolvedType::Struct(name, _) => name.clone(),
            ResolvedType::Null => "null".to_owned(),
            ResolvedType::Object(t) => {
                let mut s = "object<".to_owned();
                let inner = t.to_string();
                push_str(&mut s, inner.as_str());
                push_str(&mut s, ">");
                s
            },
            ResolvedType::Vector(t) => {
                let mut s = "vec<".to_owned();
                let inner = t.to_string();
                push_str(&mut s, inner.as_str());
                push_str(&mut s, ">");
                s
            },
            ResolvedType::Any => "any".to_owned(),
            ResolvedType::Void => "void".to_owned(),
        }
    }
}

/// Type matching is symmetric: it does not matter which type is the expected one.
pub proof fn lemma_matches_symmetric(t1: ResolvedType, t2: ResolvedType)
    ensures
        types_match(t1, t2) == types_match(t2, t1),
    decreases t1,
{
    match (t1, t2) {
        (ResolvedType::Vector(a), ResolvedType::Vector(b)) => lemma_matches_symmetric(*a, *b),
        (ResolvedType::Object(a), ResolvedType::Object(b)) => lemma_matches_symmetric(*a, *b),
        _ => {},
    }
}

/// Which simple types match: `any` matches every type, on either side; numbers match
/// numbers; texts match texts, except a char another char; numbers never match texts;
/// `void` matches `void`; a bool or a null matches only `any`; a vector never matches an
/// object.
pub proof fn lemma_which_types_match(t: ResolvedType, u: ResolvedType)
    ensures
        types_match(ResolvedType::Any, t) && types_match(t, ResolvedType::Any),
        (t is Int || t is Float) && (u is Int || u is Float) ==> types_match(t, u),
        (t is String || t is Char) && (u is String || u is Char) ==> types_match(t, u) == !(t is Char && u is Char),
        (t is Int || t is Float) && (u is String || u is Char) ==> !types_match(t, u) && !types_match(u, t),
        (t is Bool || t is Null) && !(u is Any) ==> !types_match(t, u) && !types_match(u, t),
        types_match(ResolvedType::Void, ResolvedType::Void),
        t is Vector && u is Object ==> !types_match(t, u),
{
}

/// Structs match exactly when their names and defining modules agree; vectors match
/// vectors, and objects objects, exactly when their element types match.
pub proof fn lemma_compound_types_match(n1: String, m1: String, n2: String, m2: String, a: ResolvedType, b: ResolvedType)
    ensures
        types_match(ResolvedType::Struct(n1, m1), ResolvedType::Struct(n2, m2)) == (n1@ == n2@ && m1@ == m2@),
        types_match(ResolvedType::Vector(Box::new(a)), ResolvedType::Vector(Box::new(b))) == types_match(a, b),
        types_match(ResolvedType::Object(Box::new(a)), ResolvedType::Object(Box::new(b))) == types_match(a, b),
{
}

/// The variable a name denotes in a stack of scopes: its entry in the innermost scope
/// that declares it.
pub open spec fn lookup(scopes: Seq<Map<Seq<char>, ResolvedType>>, name: Seq<char>) -> Option<ResolvedType>
    decreases scopes.len(),
{
    if scopes.len() == 0 {
        None
    } else if scopes.last().contains_key(name) {
        Some(scopes.last()[name])
    } else {
        lookup(scopes.drop_last(), name)
    }
}

/// The index of the innermost scope that declares the name, if any.
pub open spec fn declaring_scope(scopes: Seq<Map<Seq<char>, ResolvedType>>, name: Seq<char>) -> Option<int>
    decreases scopes.len(),
{
    if scopes.len() == 0 {
        None
    } else if scopes.last().contains_key(name) {
        Some(scopes.len() - 1)
    } else {
        declaring_scope(scopes.drop_last(), name)
    }
}

/// The scopes after declaring a variable in the innermost scope (no change when there is no scope).
pub open spec fn declare(scopes: Seq<Map<Seq<char>, ResolvedType>>, name: Seq<char>, t: ResolvedType) -> Seq<Map<Seq<char>, ResolvedType>> {
    if scopes.len() == 0 {
        scopes
    } else {
        scopes.update(scopes.len() - 1, scopes.last().insert(name, t))
    }
}

/// A variable declared in the innermost scope is found with the type it was declared with.
pub proof fn lemma_declare_then_find(scopes: Seq<Map<Seq<char>, ResolvedType>>, name: Seq<char>, t: ResolvedType)
    requires
        scopes.len() > 0,
    ensures
        lookup(declare(scopes, name, t), name) == Some(t),
{
}

/// Declaring a variable leaves what every other name denotes unchanged.
pub proof fn lemma_declare_keeps_others(
    scopes: Seq<Map<Seq<char>, ResolvedType>>,
    name: Seq<char>,
    other: Seq<char>,
    t: ResolvedType,
)
    requires
        other != name,
    ensures
        lookup(declare(scopes, name, t), other) == lookup(scopes, other),
{
    if scopes.len() > 0 {
        let d = declare(scopes, name, t);
        assert(d.drop_last() =~= scopes.drop_last());
    }
}

/// Opening a scope hides nothing, and closing it again restores the scopes as they were:
/// a variable declared inside is gone afterwards and the outer one it shadowed is back.
pub proof fn lemma_enter_exit_scope(scopes: Seq<Map<Seq<char>, ResolvedType>>, name: Seq<char>, t: ResolvedType)
    ensures
        lookup(scopes.push(Map::empty()), name) == lookup(scopes, name),
        declare(scopes.push(Map::empty()), name, t).drop_last() == scopes,
        lookup(declare(scopes.push(Map::empty()), name, t), name) == Some(t),
{
    assert(scopes.push(Map::empty()).drop_last() =~= scopes);
    assert(declare(scopes.push(Map::empty()), name, t).drop_last() =~= scopes);
}

/// The scopes after each of the declarations is made in order.
pub open spec fn declare_all(scopes: Seq<Map<Seq<char>, ResolvedType>>, decls: Seq<(Seq<char>, ResolvedType)>) -> Seq<Map<Seq<char>, ResolvedType>>
    decreases decls.len(),
{
    if decls.len() == 0 {
        scopes
    } else {
        declare(declare_all(scopes, decls.drop_last()), decls.last().0, decls.last().1)
    }
}

/// Opening a scope, declaring any number of variables, and closing the scope again gives
/// back the scopes as they were.
pub proof fn lemma_scope_round_trip(scopes: Seq<Map<Seq<char>, ResolvedType>>, decls: Seq<(Seq<char>, ResolvedType)>)
    ensures
        declare_all(scopes.push(Map::empty()), decls).len() == scopes.len() + 1,
        declare_all(scopes.push(Map::empty()), decls).drop_last() == scopes,
    decreases decls.len(),
{
    if decls.len() == 0 {
        assert(scopes.push(Map::empty()).drop_last() =~= scopes);
    } else {
        lemma_scope_round_trip(scopes, decls.drop_last());
        let before = declare_all(scopes.push(Map::empty()), decls.drop_last());
        let after = declare(before, decls.last().0, decls.last().1);
        assert(after.drop_last() =~= before.drop_last());
    }
}

/// The scope that declares a name is where the name is looked up, and no inner scope declares it.
pub proof fn lemma_declaring_scope(scopes: Seq<Map<Seq<char>, ResolvedType>>, name: Seq<char>)
    ensures
        declaring_scope(scopes, name) matches Some(i) ==> {
            &&& 0 <= i < scopes.len()
            &&& scopes[i].contains_key(name)
            &&& lookup(scopes, name) == Some(scopes[i][name])
            &&& forall|j: int| i < j < scopes.len() ==> !scopes[j].contains_key(name)
        },
        declaring_scope(scopes, name) is None <==> lookup(scopes, name) is None,
    decreases scopes.len(),
{
    if scopes.len() > 0 && !scopes.last().contains_key(name) {
        let rest = scopes.drop_last();
        lemma_declaring_scope(rest, name);
        if let Some(i) = declaring_scope(scopes, name) {
            assert(rest[i] == scopes[i]);
            assert forall|j: int| i < j < scopes.len() implies !scopes[j].contains_key(name) by {
                if j < rest.len() {
                    assert(rest[j] == scopes[j]);
                }
            }
        }
    }
}

/// After a variable is set, looking it up gives the new type.
pub proof fn lemma_set_then_find(scopes: Seq<Map<Seq<char>, ResolvedType>>, name: Seq<char>, t: ResolvedType)
    requires
        declaring_scope(scopes, name) is Some,
    ensures
        lookup(scopes.update(declaring_scope(scopes, name)->0, scopes[declaring_scope(scopes, name)->0].insert(name, t)), name)
            == Some(t),
    decreases scopes.len(),
{
    lemma_declaring_scope(scopes, name);
    let i = declaring_scope(scopes, name)->0;
    let u = scopes.update(i, scopes[i].insert(name, t));
    if i == scopes.len() - 1 {
    } else {
        assert(u.drop_last() =~= scopes.drop_last().update(i, scopes[i].insert(name, t)));
        lemma_set_then_find(scopes.drop_last(), name, t);
    }
}

/// The pass that checks the types of a module's statements, tracking the types of the
/// variables in a stack of scopes.
pub struct TypePass {
    pub scopes: Vec<StringHashMap<ResolvedType>>,
}

impl TypePass {
    /// The scopes, innermost last, each a map from variable names to types.
    pub open spec fn scopes_view(&self) -> Seq<Map<Seq<char>, ResolvedType>> {
        self.scopes@.map_values(|m: StringHashMap<ResolvedType>| m@)
    }

    /// Creates a type pass with one empty scope.
    pub fn new() -> (pass: Self)
        ensures
            pass.scopes_view() == seq![Map::<Seq<char>, ResolvedType>::empty()],
    {
        let mut scopes: Vec<StringHashMap<ResolvedType>> = Vec::new();
        scopes.push(StringHashMap::new());
        let pass = Self { scopes };
        assert(pass.scopes_view() =~= seq![Map::<Seq<char>, ResolvedType>::empty()]);
        pass
    }

    /// Opens a new, empty, innermost scope.
    pub fn enter_scope(&mut self)
        ensures
            final(self).scopes_view() == old(self).scopes_view().push(Map::empty()),
    {
        self.scopes.push(StringHashMap::new());
        assert(self.scopes_view() =~= old(self).scopes_view().push(Map::empty()));
    }

    /// Closes the innermost scope, if there is one.
    pub fn exit_scope(&mut self)
        ensures
            final(self).scopes_view() == (if old(self).scopes_view().len() == 0 {
                old(self).scopes_view()
            } else {
                old(self).scopes_view().drop_last()
            }),
    {
        let _ = self.scopes.pop();
        assert(self.scopes_view() =~= (if old(self).scopes_view().len() == 0 {
            old(self).scopes_view()
        } else {
            old(self).scopes_view().drop_last()
        }));
    }

    /// Declares a variable of the given type in the innermost scope, replacing any
    /// variable of that name there.
    pub fn declare_variable(&mut self, name: String, typ: ResolvedType)
        ensures
            final(self).scopes_view() == declare(old(self).scopes_view(), name@, typ),
    {
        let n = self.scopes.len();
        if n > 0 {
            let mut scope = self.scopes.remove(n - 1);
            scope.insert(name, typ);
            self.scopes.push(scope);
            assert(self.scopes_view() =~= declare(old(self).scopes_view(), name@, typ));
        }
    }

    /// Gives a new type to the variable of that name in the innermost scope that declares
    /// it; an error when no scope declares it.
    pub fn set_variable(&mut self, name: &str, val: ResolvedType) -> (r: Result<(), RoanError>)
        ensures
            match declaring_scope(old(self).scopes_view(), name@) {
                Some(i) => r is Ok && final(self).scopes_view()
                    == old(self).scopes_view().update(i, old(self).scopes_view()[i].insert(name@, val)),
                None => {
                    &&& final(self).scopes_view() == old(self).scopes_view()
                    &&& r matches Err(RoanError::VariableNotFoundError(n, span))
                    &&& n@ == name@
                    &&& span.start.line == 1 && span.start.column == 1 && span.start.index == 0
                    &&& span.end == span.start && span.literal@.len() == 0
                },
            },
    {
        let ghost sv = self.scopes_view();
        let mut i = self.scopes.len();
        assert(sv.take(i as int) =~= sv);
        while i > 0
            invariant
                i <= self.scopes@.len(),
                self.scopes_view() == sv,
                sv == old(self).scopes_view(),
                declaring_scope(sv, name@) == declaring_scope(sv.take(i as int), name@),
            decreases i,
        {
            assert(sv.take(i as int).last() == sv[i - 1]);
            if self.scopes[i - 1].contains_key(name) {
                assert(declaring_scope(sv.take(i as int), name@) == Some(i - 1));
                let mut scope = self.scopes.remove(i - 1);
                scope.insert(name.to_owned(), val);
                self.scopes.insert(i - 1, scope);
                assert(self.scopes_view() =~= sv.update(i - 1, sv[i - 1].insert(name@, val)));
                return Ok(());
            }
            assert(sv.take(i as int).drop_last() =~= sv.take(i - 1));
            i = i - 1;
        }
        Err(RoanError::VariableNotFoundError(name.to_owned(), TextSpan::default()))
    }

    /// The type of a variable expression: the variable's type when a scope declares it,
    /// else the type of the module constant of that name (given by the caller, who holds
    /// the module's constants), else a variable-not-found error at the span.
    pub fn variable_type(&self, name: &str, constant: Option<ResolvedType>, span: TextSpan) -> (r: Result<ResolvedType, RoanError>)
        ensures
            match lookup(self.scopes_view(), name@) {
                Some(t) => r == Ok::<ResolvedType, RoanError>(t),
                None => match constant {
                    Some(c) => r == Ok::<ResolvedType, RoanError>(c),
                    None => r matches Err(RoanError::VariableNotFoundError(n, s)) && n@ == name@ && s == span,
                },
            },
    {
        match self.find_variable(name) {
            Some(t) => Ok(t.duplicate()),
            None => match constant {
                Some(c) => Ok(c),
                None => Err(RoanError::VariableNotFoundError(name.to_owned(), span)),
            },
        }
    }

    /// Finds the type of a variable by name, searching from the innermost scope outward.
    pub fn find_variable(&self, name: &str) -> (t: Option<&ResolvedType>)
        ensures
            match t {
                Some(t) => lookup(self.scopes_view(), name@) == Some(*t),
                None => lookup(self.scopes_view(), name@) is None,
            },
    {
        let ghost sv = self.scopes_view();
        let mut i = self.scopes.len();
        assert(sv.take(i as int) =~= sv);
        while i > 0
            invariant
                i <= self.scopes@.len(),
                sv == self.scopes_view(),
                lookup(sv, name@) == lookup(sv.take(i as int), name@),
            decreases i,
        {
            assert(sv.take(i as int).last() == sv[i - 1]);
            match self.scopes[i - 1].get(name) {
                Some(t) => return Some(t),
                None => {},
            }
            assert(sv.take(i as int).drop_last() =~= sv.take(i - 1));
            i = i - 1;
        }
        None
    }
}

} // verus!
