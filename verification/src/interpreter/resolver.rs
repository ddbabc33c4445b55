use vstd::prelude::*;
use crate::error::RoanError;
use crate::span::TextSpan;
use crate::text::string_views;

verus! {

/// A trait implementation as a struct stores it: the trait's name, the names of the
/// methods it implements, and the id of the module it was written in.
#[derive(Debug)]
pub struct StoredTraitImpl {
    pub trait_name: String,
    pub methods: Vec<String>,
    pub defining_module: String,
}

/// An `impl` block as a struct stores it: the names of its methods and the id of the
/// module it was written in.
#[derive(Debug)]
pub struct StoredImpl {
    pub methods: Vec<String>,
    pub defining_module: String,
}

/// A struct declared in a module, with the `impl` blocks and trait implementations found
/// for it.
#[derive(Debug)]
pub struct StoredStruct {
    pub name: String,
    pub public: bool,
    pub defining_module: String,
    pub impls: Vec<StoredImpl>,
    pub trait_impls: Vec<StoredTraitImpl>,
}

/// A trait declared in a module: its name, whether it is exported, and the names of the
/// methods an implementation must provide.
#[derive(Debug)]
pub struct TraitDef {
    pub name: String,
    pub public: bool,
    pub methods: Vec<String>,
}

/// What a module exports under a name: a struct, a trait, or something the resolver
/// does not change (a function or a constant).
#[derive(Debug)]
pub enum ExportType {
    Struct(StoredStruct),
    Trait(TraitDef),
    Other,
}

/// The declarations of a module as the resolver pass keeps them: its id, its structs and
/// traits, and its exports by name.
#[derive(Debug)]
pub struct ModuleDecls {
    pub id: String,
    pub structs: Vec<StoredStruct>,
    pub traits: Vec<TraitDef>,
    pub exports: Vec<(String, ExportType)>,
}

/// An `impl Trait for Struct` statement: the struct's name and its span, the trait's name
/// and its span, and the names of the methods it implements.
#[derive(Debug)]
pub struct TraitImpl {
    pub struct_name: String,
    pub struct_span: TextSpan,
    pub trait_name: String,
    pub trait_span: TextSpan,
    pub methods: Vec<String>,
}

/// An `impl Struct` statement: the struct's name and its span, and the names of the
/// methods it defines.
#[derive(Debug)]
pub struct StructImpl {
    pub struct_name: String,
    pub struct_span: TextSpan,
    pub methods: Vec<String>,
}

/// A struct declaration as the resolver pass reads it: its name and whether it is exported.
#[derive(Debug)]
pub struct StructDecl {
    pub name: String,
    pub public: bool,
}

/// The pass that records a module's declarations before its code runs.
#[derive(Debug)]
pub struct ResolverPass;

/// The first struct of the given name, from position `k` on.
pub open spec fn find_struct_named(structs: Seq<StoredStruct>, name: Seq<char>, k: int) -> Option<int>
    decreases structs.len() - k,
{
    if k < 0 || k >= structs.len() {
        None
    } else if structs[k].name@ == name {
        Some(k)
    } else {
        find_struct_named(structs, name, k + 1)
    }
}

/// The first trait of the given name, from position `k` on.
pub open spec fn find_trait_named(traits: Seq<TraitDef>, name: Seq<char>, k: int) -> Option<int>
    decreases traits.len() - k,
{
    if k < 0 || k >= traits.len() {
        None
    } else if traits[k].name@ == name {
        Some(k)
    } else {
        find_trait_named(traits, name, k + 1)
    }
}

/// The first export of the given name, from position `k` on.
pub open spec fn find_export_named(exports: Seq<(String, ExportType)>, name: Seq<char>, k: int) -> Option<int>
    decreases exports.len() - k,
{
    if k < 0 || k >= exports.len() {
        None
    } else if exports[k].0@ == name {
        Some(k)
    } else {
        find_export_named(exports, name, k + 1)
    }
}

/// Whether one of the stored implementations is of the named trait.
pub open spec fn implements(impls: Seq<StoredTraitImpl>, trait_name: Seq<char>) -> bool {
    exists|i: int| 0 <= i < impls.len() && #[trigger] impls[i].trait_name@ == trait_name
}

/// The required method names that are not among the given ones, in the order required.
pub open spec fn missing_methods(required: Seq<Seq<char>>, given: Seq<Seq<char>>) -> Seq<Seq<char>>
    decreases required.len(),
{
    if required.len() == 0 {
        seq![]
    } else {
        let rest = missing_methods(required.drop_last(), given);
        if given.contains(required.last()) {
            rest
        } else {
            rest.push(required.last())
        }
    }
}

/// Why a trait implementation is refused.
pub enum ImplFailure {
    StructNotFound,
    TraitNotFound,
    AlreadyImplemented,
    /// The trait's methods the implementation leaves out, in the trait's order.
    MissingMethods(Seq<Seq<char>>),
}

/// Why the module refuses the trait implementation, checked in this order: the struct
/// must be declared, the trait must be declared, the struct must not implement the trait
/// already, and every method of the trait must be implemented. `None` when it is accepted.
pub open spec fn trait_impl_failure(m: ModuleDecls, s: TraitImpl) -> Option<ImplFailure> {
    match find_struct_named(m.structs@, s.struct_name@, 0) {
        None => Some(ImplFailure::StructNotFound),
        Some(k) => match find_trait_named(m.traits@, s.trait_name@, 0) {
            None => Some(ImplFailure::TraitNotFound),
            Some(t) => if implements(m.structs@[k].trait_impls@, s.trait_name@) {
                Some(ImplFailure::AlreadyImplemented)
            } else {
                let missing = missing_methods(string_views(m.traits@[t].methods@), string_views(s.methods@));
                if missing.len() > 0 {
                    Some(ImplFailure::MissingMethods(missing))
                } else {
                    None
                }
            },
        },
    }
}

/// The missing methods are exactly the required ones that are not given.
proof fn lemma_missing_methods(required: Seq<Seq<char>>, given: Seq<Seq<char>>, x: Seq<char>)
    ensures
        missing_methods(required, given).contains(x) <==> (required.contains(x) && !given.contains(x)),
    decreases required.len(),
{
    if required.len() > 0 {
        let init = required.drop_last();
        lemma_missing_methods(init, given, x);
        assert(required =~= init.push(required.last()));
        if init.contains(x) {
            let i = choose|i: int| 0 <= i < init.len() && init[i] == x;
            assert(required[i] == x);
        }
        if required.contains(x) && x != required.last() {
            let i = choose|i: int| 0 <= i < required.len() && required[i] == x;
            assert(init[i] == x);
        }
        if required.contains(x) && x == required.last() {
            assert(required[required.len() - 1] == x);
        }
        let rest = missing_methods(init, given);
        if !given.contains(required.last()) {
            if rest.push(required.last()).contains(x) && x != required.last() {
                let i = choose|i: int| 0 <= i < rest.push(required.last()).len() && rest.push(required.last())[i] == x;
                assert(rest[i] == x);
            }
            if rest.contains(x) {
                let i = choose|i: int| 0 <= i < rest.len() && rest[i] == x;
                assert(rest.push(required.last())[i] == x);
            }
            assert(rest.push(required.last())[rest.len() as int] == required.last());
        }
    }
}

/// A trait implementation the module accepts implements every method of the trait; one
/// that leaves a method of the trait out (for a declared struct and trait the struct does
/// not implement yet) is refused, with the left-out methods listed: each is a method of
/// the trait that the implementation does not give, and the one left out is among them.
pub proof fn lemma_trait_methods_required(m: ModuleDecls, s: TraitImpl, method: Seq<char>)
    ensures
        trait_impl_failure(m, s) is None ==> {
            let t = find_trait_named(m.traits@, s.trait_name@, 0)->0;
            &&& find_trait_named(m.traits@, s.trait_name@, 0) is Some
            &&& string_views(m.traits@[t].methods@).contains(method) ==> string_views(s.methods@).contains(method)
        },
        ({
            &&& find_struct_named(m.structs@, s.struct_name@, 0) is Some
            &&& find_trait_named(m.traits@, s.trait_name@, 0) is Some
            &&& !implements(m.structs@[find_struct_named(m.structs@, s.struct_name@, 0)->0].trait_impls@, s.trait_name@)
            &&& string_views(m.traits@[find_trait_named(m.traits@, s.trait_name@, 0)->0].methods@).contains(method)
            &&& !string_views(s.methods@).contains(method)
        }) ==> (trait_impl_failure(m, s) matches Some(ImplFailure::MissingMethods(ms)) && ms.contains(method)
            && forall|x: Seq<char>| ms.contains(x) ==> string_views(m.traits@[find_trait_named(m.traits@, s.trait_name@, 0)->0].methods@).contains(x)
                && !string_views(s.methods@).contains(x)),
{
    match find_trait_named(m.traits@, s.trait_name@, 0) {
        Some(t) => {
            let req = string_views(m.traits@[t].methods@);
            let given = string_views(s.methods@);
            lemma_missing_methods(req, given, method);
            assert forall|x: Seq<char>| missing_methods(req, given).contains(x) implies req.contains(x) && !given.contains(x) by {
                lemma_missing_methods(req, given, x);
            }
            if missing_methods(req, given).contains(method) {
                let i = choose|i: int| 0 <= i < missing_methods(req, given).len() && missing_methods(req, given)[i] == method;
                assert(missing_methods(req, given).len() > 0);
            }
        },
        None => {},
    }
}

/// A trait implementation is refused, in this order, when the struct is not declared, when
/// the trait is not declared, and when the struct implements the trait already, whatever
/// methods it gives.
pub proof fn lemma_trait_impl_refusals(m: ModuleDecls, s: TraitImpl)
    ensures
        find_struct_named(m.structs@, s.struct_name@, 0) is None
            ==> trait_impl_failure(m, s) == Some(ImplFailure::StructNotFound),
        find_struct_named(m.structs@, s.struct_name@, 0) is Some && find_trait_named(m.traits@, s.trait_name@, 0) is None
            ==> trait_impl_failure(m, s) == Some(ImplFailure::TraitNotFound),
        find_struct_named(m.structs@, s.struct_name@, 0) matches Some(k) && find_trait_named(m.traits@, s.trait_name@, 0) is Some
            && implements(m.structs@[k].trait_impls@, s.trait_name@)
            ==> trait_impl_failure(m, s) == Some(ImplFailure::AlreadyImplemented),
{
}

/// The searches by name find the first struct, trait and export of the name, and nothing
/// when there is none.
pub proof fn lemma_searches_find_first(m: ModuleDecls, name: Seq<char>, k: int)
    requires
        0 <= k,
    ensures
        match find_struct_named(m.structs@, name, k) {
            Some(j) => k <= j < m.structs@.len() && m.structs@[j].name@ == name
                && forall|i: int| k <= i < j ==> m.structs@[i].name@ != name,
            None => forall|i: int| k <= i < m.structs@.len() ==> m.structs@[i].name@ != name,
        },
        match find_trait_named(m.traits@, name, k) {
            Some(j) => k <= j < m.traits@.len() && m.traits@[j].name@ == name
                && forall|i: int| k <= i < j ==> m.traits@[i].name@ != name,
            None => forall|i: int| k <= i < m.traits@.len() ==> m.traits@[i].name@ != name,
        },
        match find_export_named(m.exports@, name, k) {
            Some(j) => k <= j < m.exports@.len() && m.exports@[j].0@ == name
                && forall|i: int| k <= i < j ==> m.exports@[i].0@ != name,
            None => forall|i: int| k <= i < m.exports@.len() ==> m.exports@[i].0@ != name,
        },
    decreases m.structs@.len() + m.traits@.len() + m.exports@.len() - k,
{
    if k < m.structs@.len() || k < m.traits@.len() || k < m.exports@.len() {
        lemma_searches_find_first(m, name, k + 1);
    }
}

/// Whether the error is the one the failure calls for.
pub open spec fn impl_error(e: RoanError, f: ImplFailure, s: TraitImpl) -> bool {
    match f {
        ImplFailure::StructNotFound => e matches RoanError::StructNotFoundError(n, sp)
            && n@ == s.struct_name@ && sp == s.struct_span,
        ImplFailure::TraitNotFound => e matches RoanError::TraitNotFoundError(n, sp)
            && n@ == s.trait_name@ && sp == s.trait_span,
        ImplFailure::AlreadyImplemented => e matches RoanError::StructAlreadyImplementsTrait(n, t, sp)
            && n@ == s.struct_name@ && t@ == s.trait_name@ && sp == s.trait_span,
        ImplFailure::MissingMethods(ms) => e matches RoanError::TraitMethodNotImplemented(t, v, sp)
            && t@ == s.trait_name@ && string_views(v@) == ms && sp == s.trait_span,
    }
}

/// Whether the stored implementation records the statement, written in the given module.
pub open spec fn records(r: StoredTraitImpl, s: TraitImpl, module_id: Seq<char>) -> bool {
    &&& r.trait_name@ == s.trait_name@
    &&& string_views(r.methods@) == string_views(s.methods@)
    &&& r.defining_module@ == module_id
}

/// Whether `after` is `before` with the implementation recorded after its others.
pub open spec fn struct_with_impl(before: StoredStruct, after: StoredStruct, s: TraitImpl, module_id: Seq<char>) -> bool {
    &&& after.name == before.name
    &&& after.public == before.public
    &&& after.defining_module == before.defining_module
    &&& after.impls == before.impls
    &&& after.trait_impls@.len() == before.trait_impls@.len() + 1
    &&& after.trait_impls@.drop_last() == before.trait_impls@
    &&& records(after.trait_impls@.last(), s, module_id)
}

/// Whether `after` is the export `before` once the implementation is recorded: an exported
/// struct records it, any other export stays as it is.
pub open spec fn export_with_impl(before: ExportType, after: ExportType, s: TraitImpl, module_id: Seq<char>) -> bool {
    match before {
        ExportType::Struct(b) => after matches ExportType::Struct(a) && struct_with_impl(b, a, s, module_id),
        _ => after == before,
    }
}

/// Whether the sequences have the same length and agree everywhere but at position `k`.
pub open spec fn same_but_at<T>(before: Seq<T>, after: Seq<T>, k: int) -> bool {
    &&& after.len() == before.len()
    &&& 0 <= k < before.len()
    &&& forall|i: int| 0 <= i < before.len() && i != k ==> #[trigger] after[i] == before[i]
}

/// Whether `after` is the module `before` with the accepted implementation recorded: on
/// the first struct of the implemented name, and on the first export of that name when it
/// is a struct.
pub open spec fn module_with_impl(before: ModuleDecls, after: ModuleDecls, s: TraitImpl) -> bool {
    let k = find_struct_named(before.structs@, s.struct_name@, 0)->0;
    &&& after.id == before.id
    &&& after.traits == before.traits
    &&& same_but_at(before.structs@, after.structs@, k)
    &&& struct_with_impl(before.structs@[k], after.structs@[k], s, before.id@)
    &&& match find_export_named(before.exports@, s.struct_name@, 0) {
        None => after.exports == before.exports,
        Some(j) => {
            &&& same_but_at(before.exports@, after.exports@, j)
            &&& after.exports@[j].0 == before.exports@[j].0
            &&& export_with_impl(before.exports@[j].1, after.exports@[j].1, s, before.id@)
        },
    }
}

/// Whether the stored struct is the one a declaration makes in the module of the given
/// id: with the declaration's name and visibility, and no implementations yet.
pub open spec fn declared_struct(r: StoredStruct, d: StructDecl, module_id: Seq<char>) -> bool {
    &&& r.name@ == d.name@
    &&& r.public == d.public
    &&& r.defining_module@ == module_id
    &&& r.impls@.len() == 0
    &&& r.trait_impls@.len() == 0
}

/// Whether the stored `impl` block records the statement, written in the given module.
pub open spec fn records_impl(r: StoredImpl, s: StructImpl, module_id: Seq<char>) -> bool {
    &&& string_views(r.methods@) == string_views(s.methods@)
    &&& r.defining_module@ == module_id
}

/// Whether `after` is `before` with the `impl` block recorded after its others.
pub open spec fn struct_with_block(before: StoredStruct, after: StoredStruct, s: StructImpl, module_id: Seq<char>) -> bool {
    &&& after.name == before.name
    &&& after.public == before.public
    &&& after.defining_module == before.defining_module
    &&& after.trait_impls == before.trait_impls
    &&& after.impls@.len() == before.impls@.len() + 1
    &&& after.impls@.drop_last() == before.impls@
    &&& records_impl(after.impls@.last(), s, module_id)
}

/// Whether `after` is `before` with the `impl` block recorded on the first struct of its
/// name, and on the first export of that name when it is a struct.
pub open spec fn module_with_block(before: ModuleDecls, after: ModuleDecls, s: StructImpl) -> bool {
    let k = find_struct_named(before.structs@, s.struct_name@, 0)->0;
    &&& after.id == before.id
    &&& after.traits == before.traits
    &&& same_but_at(before.structs@, after.structs@, k)
    &&& struct_with_block(before.structs@[k], after.structs@[k], s, before.id@)
    &&& match find_export_named(before.exports@, s.struct_name@, 0) {
        None => after.exports == before.exports,
        Some(j) => {
            &&& same_but_at(before.exports@, after.exports@, j)
            &&& after.exports@[j].0 == before.exports@[j].0
            &&& match before.exports@[j].1 {
                ExportType::Struct(b) => after.exports@[j].1 matches ExportType::Struct(a) && struct_with_block(b, a, s, before.id@),
                _ => after.exports@[j].1 == before.exports@[j].1,
            }
        },
    }
}

/// Finding by name gives the same answer in sequences whose names agree.
proof fn lemma_find_same_names(a: Seq<StoredStruct>, b: Seq<StoredStruct>, name: Seq<char>, k: int)
    requires
        a.len() == b.len(),
        forall|i: int| 0 <= i < a.len() ==> #[trigger] a[i].name@ == b[i].name@,
    ensures
        find_struct_named(a, name, k) == find_struct_named(b, name, k),
    decreases a.len() - k,
{
    if 0 <= k < a.len() {
        lemma_find_same_names(a, b, name, k + 1);
    }
}

/// A trait implementation the module accepts is refused when it comes again: the struct
/// then implements the trait already.
pub proof fn lemma_trait_impl_once(before: ModuleDecls, after: ModuleDecls, s: TraitImpl)
    requires
        trait_impl_failure(before, s) is None,
        module_with_impl(before, after, s),
    ensures
        trait_impl_failure(after, s) == Some(ImplFailure::AlreadyImplemented),
{
    let k = find_struct_named(before.structs@, s.struct_name@, 0)->0;
    assert forall|i: int| 0 <= i < before.structs@.len() implies #[trigger] before.structs@[i].name@ == after.structs@[i].name@ by {
        if i != k {
            assert(after.structs@[i] == before.structs@[i]);
        }
    }
    lemma_find_same_names(before.structs@, after.structs@, s.struct_name@, 0);
    let impls = after.structs@[k].trait_impls@;
    assert(impls[impls.len() - 1].trait_name@ == s.trait_name@);
    assert(implements(impls, s.trait_name@));
}

/// The position of the first struct of the given name.
fn struct_position(structs: &Vec<StoredStruct>, name: &String) -> (r: Option<usize>)
    ensures
        match r {
            Some(k) => find_struct_named(structs@, name@, 0) == Some(k as int) && k < structs@.len(),
            None => find_struct_named(structs@, name@, 0) is None,
        },
{
    let mut k: usize = 0;
    while k < structs.len()
        invariant
            k <= structs@.len(),
            find_struct_named(structs@, name@, 0) == find_struct_named(structs@, name@, k as int),
        decreases structs@.len() - k,
    {
        if structs[k].name == *name {
            return Some(k);
        }
        k = k + 1;
    }
    None
}

/// The position of the first trait of the given name.
fn trait_position(traits: &Vec<TraitDef>, name: &String) -> (r: Option<usize>)
    ensures
        match r {
            Some(k) => find_trait_named(traits@, name@, 0) == Some(k as int) && k < traits@.len(),
            None => find_trait_named(traits@, name@, 0) is None,
        },
{
    let mut k: usize = 0;
    while k < traits.len()
        invariant
            k <= traits@.len(),
            find_trait_named(traits@, name@, 0) == find_trait_named(traits@, name@, k as int),
        decreases traits@.len() - k,
    {
        if traits[k].name == *name {
            return Some(k);
        }
        k = k + 1;
    }
    None
}

/// The position of the first export of the given name.
fn export_position(exports: &Vec<(String, ExportType)>, name: &String) -> (r: Option<usize>)
    ensures
        match r {
            Some(k) => find_export_named(exports@, name@, 0) == Some(k as int) && k < exports@.len(),
            None => find_export_named(exports@, name@, 0) is None,
        },
{
    let mut k: usize = 0;
    while k < exports.len()
        invariant
            k <= exports@.len(),
            find_export_named(exports@, name@, 0) == find_export_named(exports@, name@, k as int),
        decreases exports@.len() - k,
    {
        if exports[k].0 == *name {
            return Some(k);
        }
        k = k + 1;
    }
    None
}

/// Whether a stored implementation is of the named trait.
fn implements_trait(impls: &Vec<StoredTraitImpl>, trait_name: &String) -> (b: bool)
    ensures
        b == implements(impls@, trait_name@),
{
    let mut k: usize = 0;
    while k < impls.len()
        invariant
            k <= impls@.len(),
            forall|i: int| 0 <= i < k ==> #[trigger] impls@[i].trait_name@ != trait_name@,
        decreases impls@.len() - k,
    {
        if impls[k].trait_name == *trait_name {
            return true;
        }
        k = k + 1;
    }
    false
}

/// Whether the name is among the strings.
fn contains_name(names: &Vec<String>, name: &String) -> (b: bool)
    ensures
        b == string_views(names@).contains(name@),
{
    let mut k: usize = 0;
    while k < names.len()
        invariant
            k <= names@.len(),
            forall|i: int| 0 <= i < k ==> #[trigger] names@[i]@ != name@,
        decreases names@.len() - k,
    {
        if names[k] == *name {
            assert(string_views(names@)[k as int] == name@);
            return true;
        }
        k = k + 1;
    }
    assert forall|i: int| 0 <= i < string_views(names@).len() implies string_views(names@)[i] != name@ by {
        assert(string_views(names@)[i] == names@[i]@);
    }
    false
}

/// The required method names that are not among the given ones, in the order required.
fn methods_missing(required: &Vec<String>, given: &Vec<String>) -> (r: Vec<String>)
    ensures
        string_views(r@) == missing_methods(string_views(required@), string_views(given@)),
{
    let ghost req = string_views(required@);
    let mut r: Vec<String> = Vec::new();
    let mut k: usize = 0;
    while k < required.len()
        invariant
            k <= required@.len(),
            req == string_views(required@),
            string_views(r@) == missing_methods(req.take(k as int), string_views(given@)),
        decreases required@.len() - k,
    {
        proof {
            assert(req.take(k + 1).drop_last() =~= req.take(k as int));
            assert(req.take(k + 1).last() == required@[k as int]@);
        }
        if !contains_name(given, &required[k]) {
            let ghost before = r@;
            r.push(required[k].clone());
            assert(string_views(r@) =~= string_views(before).push(required@[k as int]@));
        }
        k = k + 1;
    }
    assert(req.take(required@.len() as int) =~= req);
    r
}

/// A copy of the strings.
fn copy_strings(v: &Vec<String>) -> (r: Vec<String>)
    ensures
        r@ == v@,
{
    let mut r: Vec<String> = Vec::new();
    let mut k: usize = 0;
    while k < v.len()
        invariant
            k <= v@.len(),
            r@ == v@.take(k as int),
        decreases v@.len() - k,
    {
        r.push(v[k].clone());
        assert(r@ =~= v@.take(k + 1));
        k = k + 1;
    }
    assert(v@.take(v@.len() as int) =~= v@);
    r
}

/// The record of the implementation, written in the module of the given id.
fn record_of(s: &TraitImpl, module_id: &String) -> (r: StoredTraitImpl)
    ensures
        records(r, *s, module_id@),
{
    StoredTraitImpl {
        trait_name: s.trait_name.clone(),
        methods: copy_strings(&s.methods),
        defining_module: module_id.clone(),
    }
}

impl ResolverPass {
    /// Records a trait implementation on the struct it is for, and on that struct's export,
    /// after checking that the struct and the trait are declared, that the struct does not
    /// implement the trait already, and that every method of the trait is implemented. A
    /// refused implementation leaves the module as it was.
    pub fn interpret_trait_impl(&mut self, module: &mut ModuleDecls, impl_stmt: TraitImpl) -> (r: Result<(), RoanError>)
        ensures
            match trait_impl_failure(*old(module), impl_stmt) {
                Some(f) => r matches Err(e) && impl_error(e, f, impl_stmt),
                None => r is Ok,
            },
            r is Err ==> *final(module) == *old(module),
            r is Ok ==> module_with_impl(*old(module), *final(module), impl_stmt),
    {
        let k = match struct_position(&module.structs, &impl_stmt.struct_name) {
            Some(k) => k,
            None => return Err(RoanError::StructNotFoundError(impl_stmt.struct_name, impl_stmt.struct_span)),
        };
        let t = match trait_position(&module.traits, &impl_stmt.trait_name) {
            Some(t) => t,
            None => return Err(RoanError::TraitNotFoundError(impl_stmt.trait_name, impl_stmt.trait_span)),
        };
        if implements_trait(&module.structs[k].trait_impls, &impl_stmt.trait_name) {
            return Err(RoanError::StructAlreadyImplementsTrait(
                impl_stmt.struct_name,
                impl_stmt.trait_name,
                impl_stmt.trait_span,
            ));
        }
        let missing = methods_missing(&module.traits[t].methods, &impl_stmt.methods);
        if missing.len() > 0 {
            return Err(RoanError::TraitMethodNotImplemented(impl_stmt.trait_name, missing, impl_stmt.trait_span));
        }
        assert(string_views(missing@).len() == 0);
        let ghost before = *module;
        let stored = record_of(&impl_stmt, &module.id);
        let mut st = module.structs.remove(k);
        let ghost st_before = st;
        st.trait_impls.push(stored);
        assert(st.trait_impls@.drop_last() =~= st_before.trait_impls@);
        module.structs.insert(k, st);
        assert(module.structs@ =~= before.structs@.update(k as int, module.structs@[k as int]));
        match export_position(&module.exports, &impl_stmt.struct_name) {
            None => {},
            Some(j) => {
                let (name, export) = module.exports.remove(j);
                let updated = match export {
                    ExportType::Struct(mut s) => {
                        let ghost s_before = s;
                        s.trait_impls.push(record_of(&impl_stmt, &module.id));
                        assert(s.trait_impls@.drop_last() =~= s_before.trait_impls@);
                        ExportType::Struct(s)
                    },
                    other => other,
                };
                module.exports.insert(j, (name, updated));
                assert(module.exports@ =~= before.exports@.update(j as int, module.exports@[j as int]));
            },
        }
        Ok(())
    }

    /// Records a struct declaration: the struct is added to the module, with no
    /// implementations yet, and exported too when it is public.
    pub fn interpret_struct(&mut self, module: &mut ModuleDecls, struct_stmt: StructDecl) -> (r: Result<(), RoanError>)
        ensures
            r is Ok,
            final(module).id == old(module).id,
            final(module).traits == old(module).traits,
            final(module).structs@.len() == old(module).structs@.len() + 1,
            final(module).structs@.drop_last() == old(module).structs@,
            declared_struct(final(module).structs@.last(), struct_stmt, old(module).id@),
            !struct_stmt.public ==> final(module).exports == old(module).exports,
            struct_stmt.public ==> {
                &&& final(module).exports@.len() == old(module).exports@.len() + 1
                &&& final(module).exports@.drop_last() == old(module).exports@
                &&& final(module).exports@.last().0@ == struct_stmt.name@
                &&& final(module).exports@.last().1 matches ExportType::Struct(e) && declared_struct(e, struct_stmt, old(module).id@)
            },
    {
        let ghost before = *module;
        let stored = StoredStruct {
            name: struct_stmt.name.clone(),
            public: struct_stmt.public,
            defining_module: module.id.clone(),
            impls: Vec::new(),
            trait_impls: Vec::new(),
        };
        module.structs.push(stored);
        assert(module.structs@.drop_last() =~= before.structs@);
        if struct_stmt.public {
            let exported = StoredStruct {
                name: struct_stmt.name.clone(),
                public: struct_stmt.public,
                defining_module: module.id.clone(),
                impls: Vec::new(),
                trait_impls: Vec::new(),
            };
            module.exports.push((struct_stmt.name, ExportType::Struct(exported)));
            assert(module.exports@.drop_last() =~= before.exports@);
        }
        Ok(())
    }

    /// Records a trait declaration: the trait is added to the module, and exported too
    /// when it is public.
    pub fn interpret_trait(&mut self, module: &mut ModuleDecls, trait_stmt: TraitDef) -> (r: Result<(), RoanError>)
        ensures
            r is Ok,
            final(module).id == old(module).id,
            final(module).structs == old(module).structs,
            final(module).traits@ == old(module).traits@.push(trait_stmt),
            !trait_stmt.public ==> final(module).exports == old(module).exports,
            trait_stmt.public ==> {
                &&& final(module).exports@.len() == old(module).exports@.len() + 1
                &&& final(module).exports@.drop_last() == old(module).exports@
                &&& final(module).exports@.last().0@ == trait_stmt.name@
                &&& final(module).exports@.last().1 matches ExportType::Trait(t)
                    && t.name@ == trait_stmt.name@ && t.public == trait_stmt.public && t.methods@ == trait_stmt.methods@
            },
    {
        let ghost before = *module;
        if trait_stmt.public {
            let copy = TraitDef {
                name: trait_stmt.name.clone(),
                public: trait_stmt.public,
                methods: copy_strings(&trait_stmt.methods),
            };
            let name = trait_stmt.name.clone();
            module.traits.push(trait_stmt);
            module.exports.push((name, ExportType::Trait(copy)));
            assert(module.exports@.drop_last() =~= before.exports@);
        } else {
            module.traits.push(trait_stmt);
        }
        Ok(())
    }

    /// Records an `impl` block on the struct it is for, and on that struct's export; a
    /// struct that is not declared is an error, which leaves the module as it was.
    pub fn interpret_struct_impl(&mut self, module: &mut ModuleDecls, impl_stmt: StructImpl) -> (r: Result<(), RoanError>)
        ensures
            match find_struct_named(old(module).structs@, impl_stmt.struct_name@, 0) {
                None => r matches Err(RoanError::StructNotFoundError(n, sp))
                    && n@ == impl_stmt.struct_name@ && sp == impl_stmt.struct_span
                    && *final(module) == *old(module),
                Some(_) => r is Ok && module_with_block(*old(module), *final(module), impl_stmt),
            },
    {
        let k = match struct_position(&module.structs, &impl_stmt.struct_name) {
            Some(k) => k,
            None => return Err(RoanError::StructNotFoundError(impl_stmt.struct_name, impl_stmt.struct_span)),
        };
        let ghost before = *module;
        let stored = StoredImpl { methods: copy_strings(&impl_stmt.methods), defining_module: module.id.clone() };
        let mut st = module.structs.remove(k);
        let ghost st_before = st;
        st.impls.push(stored);
        assert(st.impls@.drop_last() =~= st_before.impls@);
        module.structs.insert(k, st);
        assert(module.structs@ =~= before.structs@.update(k as int, module.structs@[k as int]));
        match export_position(&module.exports, &impl_stmt.struct_name) {
            None => {},
            Some(j) => {
                let (name, export) = module.exports.remove(j);
                let updated = match export {
                    ExportType::Struct(mut s) => {
                        let ghost s_before = s;
                        s.impls.push(StoredImpl { methods: copy_strings(&impl_stmt.methods), defining_module: module.id.clone() });
                        assert(s.impls@.drop_last() =~= s_before.impls@);
                        ExportType::Struct(s)
                    },
                    other => other,
                };
                module.exports.insert(j, (name, updated));
                assert(module.exports@ =~= before.exports@.update(j as int, module.exports@[j as int]));
            },
        }
        Ok(())
    }
}

} // verus!
