use vstd::prelude::*;
use crate::interpreter::types::{ResolvedType, TypePass};
use crate::interpreter::walk::rebase;

verus! {

/// A type annotation as written in a Roan program: the type's name, whether it is a
/// vector, whether it may be null, the module it is read in (once the type pass has seen
/// it), whether it has generic arguments, and those arguments.
#[derive(Debug)]
pub struct TypeAnnotation {
    pub name: String,
    pub is_array: bool,
    pub is_nullable: bool,
    pub module_id: Option<String>,
    pub is_generic: bool,
    pub generics: Vec<TypeAnnotation>,
}

/// The name an annotation of the type is written with.
pub open spec fn written_name(t: ResolvedType) -> Seq<char> {
    match t {
        ResolvedType::Int => "int"@,
        ResolvedType::Float => "float"@,
        ResolvedType::Bool => "bool"@,
        ResolvedType::String => "string"@,
        ResolvedType::Char => "char"@,
        ResolvedType::Struct(name, _) => name@,
        ResolvedType::Null => "null"@,
        ResolvedType::Object(_) => "object"@,
        ResolvedType::Vector(_) => "vec"@,
        ResolvedType::Any => "anytype"@,
        ResolvedType::Void => "void"@,
    }
}

/// Whether the annotation is the one the type is written as: its name, a vector flag for
/// a vector, not nullable, no module yet, and for an object or a vector one generic
/// argument, written for the element type.
pub open spec fn writes(a: TypeAnnotation, t: ResolvedType) -> bool
    decreases t,
{
    &&& a.name@ == written_name(t)
    &&& (t matches ResolvedType::Struct(name, _) ==> a.name == name)
    &&& a.is_array == (t is Vector)
    &&& !a.is_nullable
    &&& a.module_id is None
    &&& match t {
        ResolvedType::Object(inner) | ResolvedType::Vector(inner) => {
            &&& a.is_generic
            &&& a.generics@.len() == 1
            &&& writes(a.generics@[0], *inner)
        },
        _ => !a.is_generic && a.generics@.len() == 0,
    }
}

/// Whether every `object` and `vec` annotation in it has a generic argument, so that it
/// can be read as a type.
pub open spec fn readable(a: TypeAnnotation) -> bool
    decreases a,
{
    if a.name@ == "object"@ || a.name@ == "vec"@ {
        a.generics@.len() > 0 && {
            proof {
                assert(decreases_to!(a => a.generics));
                assert(decreases_to!(a.generics => a.generics@));
                assert(decreases_to!(a.generics@ => a.generics@[0]));
            }
            readable(a.generics@[0])
        }
    } else {
        true
    }
}

/// The type an annotation stands for: the built-in type of its name, an object or a vector
/// of its first generic argument's type, or a struct of the module it is read in (`any`
/// when it has not been read in a module yet).
pub open spec fn read_type(a: TypeAnnotation) -> ResolvedType
    decreases a,
{
    if a.name@ == "int"@ {
        ResolvedType::Int
    } else if a.name@ == "float"@ {
        ResolvedType::Float
    } else if a.name@ == "bool"@ {
        ResolvedType::Bool
    } else if a.name@ == "string"@ {
        ResolvedType::String
    } else if a.name@ == "char"@ {
        ResolvedType::Char
    } else if a.name@ == "null"@ {
        ResolvedType::Null
    } else if a.name@ == "object"@ || a.name@ == "vec"@ {
        if a.generics@.len() > 0 {
            proof {
                assert(decreases_to!(a => a.generics));
                assert(decreases_to!(a.generics => a.generics@));
                assert(decreases_to!(a.generics@ => a.generics@[0]));
            }
            let inner = read_type(a.generics@[0]);
            if a.name@ == "object"@ {
                ResolvedType::Object(Box::new(inner))
            } else {
                ResolvedType::Vector(Box::new(inner))
            }
        } else {
            ResolvedType::Any
        }
    } else if a.name@ == "anytype"@ {
        ResolvedType::Any
    } else if a.name@ == "void"@ {
        ResolvedType::Void
    } else {
        match a.module_id {
            Some(m) => ResolvedType::Struct(a.name, m),
            None => ResolvedType::Any,
        }
    }
}

/// Whether `after` is the annotation `before` once checked in the module: it is read in
/// that module, and so are its generic arguments when it is generic and has any.
pub open spec fn checked_in(before: TypeAnnotation, after: TypeAnnotation, module_id: String) -> bool
    decreases before,
{
    &&& after.name == before.name
    &&& after.is_array == before.is_array
    &&& after.is_nullable == before.is_nullable
    &&& after.is_generic == before.is_generic
    &&& after.module_id == Some(module_id)
    &&& if before.is_generic && before.generics@.len() > 0 {
        &&& after.generics@.len() == before.generics@.len()
        &&& forall|i: int| #![trigger after.generics@[i]] 0 <= i < before.generics@.len() ==> {
            proof {
                assert(decreases_to!(before => before.generics));
                assert(decreases_to!(before.generics => before.generics@));
                assert(decreases_to!(before.generics@ => before.generics@[i]));
            }
            checked_in(before.generics@[i], after.generics@[i], module_id)
        }
    } else {
        after.generics == before.generics
    }
}

impl ResolvedType {
    /// The annotation the type is written as (see `writes`).
    pub fn to_type_annotation(&self) -> (a: TypeAnnotation)
        ensures
            writes(a, *self),
        decreases *self,
    {
        let (generics, is_generic) = match self {
            ResolvedType::Object(t) | ResolvedType::Vector(t) => {
                let inner = t.to_type_annotation();
                (vec![inner], true)
            },
            _ => (Vec::new(), false),
        };
        let name = match self {
            ResolvedType::Int => "int".to_owned(),
            ResolvedType::Float => "float".to_owned(),
            ResolvedType::Bool => "bool".to_owned(),
            ResolvedType::String => "string".to_owned(),
            ResolvedType::Char => "char".to_owned(),
            ResolvedType::Struct(name, _) => name.clone(),
            ResolvedType::Null => "null".to_owned(),
            ResolvedType::Object(_) => "object".to_owned(),
            ResolvedType::Vector(_) => "vec".to_owned(),
            ResolvedType::Any => "anytype".to_owned(),
            ResolvedType::Void => "void".to_owned(),
        };
        TypeAnnotation {
            name,
            is_array: matches!(self, ResolvedType::Vector(_)),
            is_nullable: false,
            module_id: None,
            is_generic,
            generics,
        }
    }

    /// The type the annotation stands for (see `read_type`). An `object` or `vec`
    /// annotation without a generic argument is not read (`readable`).
    pub fn from_type_annotation(typ: &TypeAnnotation) -> (t: ResolvedType)
        requires
            readable(*typ),
        ensures
            t == read_type(*typ),
        decreases *typ,
    {
        let name = typ.name.clone();
        if name == "int".to_owned() {
            ResolvedType::Int
        } else if name == "float".to_owned() {
            ResolvedType::Float
        } else if name == "bool".to_owned() {
            ResolvedType::Bool
        } else if name == "string".to_owned() {
            ResolvedType::String
        } else if name == "char".to_owned() {
            ResolvedType::Char
        } else if name == "null".to_owned() {
            ResolvedType::Null
        } else if name == "object".to_owned() {
            proof {
                assert(decreases_to!(*typ => typ.generics));
                assert(decreases_to!(typ.generics => typ.generics@));
                assert(decreases_to!(typ.generics@ => typ.generics@[0]));
            }
            ResolvedType::Object(Box::new(ResolvedType::from_type_annotation(&typ.generics[0])))
        } else if name == "vec".to_owned() {
            proof {
                assert(decreases_to!(*typ => typ.generics));
                assert(decreases_to!(typ.generics => typ.generics@));
                assert(decreases_to!(typ.generics@ => typ.generics@[0]));
            }
            ResolvedType::Vector(Box::new(ResolvedType::from_type_annotation(&typ.generics[0])))
        } else if name == "anytype".to_owned() {
            ResolvedType::Any
        } else if name == "void".to_owned() {
            ResolvedType::Void
        } else {
            match &typ.module_id {
                Some(m) => ResolvedType::Struct(name, m.clone()),
                None => ResolvedType::Any,
            }
        }
    }
}

impl TypePass {
    /// Reads the annotation, and its generic arguments when it is generic, in the module of
    /// the given id (see `checked_in`).
    pub fn check_type_annotation(&self, typ: &mut TypeAnnotation, module_id: &String)
        ensures
            checked_in(*old(typ), *final(typ), *module_id),
        decreases *old(typ),
    {
        typ.module_id = Some(module_id.clone());
        if typ.is_generic && typ.generics.len() > 0 {
            let mut rest: Vec<TypeAnnotation> = Vec::new();
            std::mem::swap(&mut rest, &mut typ.generics);
            let ghost before = rest@;
            let mut done: Vec<TypeAnnotation> = Vec::new();
            let n = rest.len();
            while rest.len() > 0
                invariant
                    n == before.len(),
                    done@.len() + rest@.len() == n,
                    rest@ == before.skip(done@.len() as int),
                    forall|i: int| 0 <= i < done@.len() ==> #[trigger] checked_in(before[i], done@[i], *module_id),
                    decreases_to!(*old(typ) => old(typ).generics),
                    old(typ).generics@ == before,
                decreases rest@.len(),
            {
                let mut g = rest.remove(0);
                proof {
                    let k = done@.len() as int;
                    assert(g == before[k]);
                    assert(decreases_to!(old(typ).generics => old(typ).generics@));
                    assert(decreases_to!(old(typ).generics@ => old(typ).generics@[k]));
                }
                self.check_type_annotation(&mut g, module_id);
                done.push(g);
                proof {
                    assert(rest@ =~= before.skip(done@.len() as int));
                }
            }
            let ghost d = done@;
            typ.generics = done;
            assert forall|i: int| 0 <= i < before.len() implies checked_in(before[i], #[trigger] typ.generics@[i], *module_id) by {
                assert(typ.generics@ == d);
            }
            assert(old(typ).generics@ == before);
        }
    }
}

/// Writing a type as an annotation, checking it in a module and reading it back gives the
/// type the type pass declares a variable with when it has no annotation (`rebase`): the
/// same type, with structs moved to that module and a struct named after a built-in type
/// read as that type.
pub proof fn lemma_write_check_read(t: ResolvedType, a: TypeAnnotation, c: TypeAnnotation, module_id: String)
    requires
        writes(a, t),
        checked_in(a, c, module_id),
        rebase(t, module_id) is Some,
    ensures
        readable(c),
        read_type(c) == rebase(t, module_id)->0,
    decreases t,
{
    reveal_strlit("int");
    reveal_strlit("float");
    reveal_strlit("bool");
    reveal_strlit("string");
    reveal_strlit("char");
    reveal_strlit("null");
    reveal_strlit("object");
    reveal_strlit("vec");
    reveal_strlit("anytype");
    reveal_strlit("void");
    // Literals of one length differ in their first char.
    assert("int"@.len() == 3 && "vec"@.len() == 3 && "float"@.len() == 5 && "anytype"@.len() == 7);
    assert("bool"@.len() == 4 && "char"@.len() == 4 && "null"@.len() == 4 && "void"@.len() == 4);
    assert("string"@.len() == 6 && "object"@.len() == 6);
    assert("int"@[0] == 'i' && "vec"@[0] == 'v');
    assert("string"@[0] == 's' && "object"@[0] == 'o');
    assert("char"@[0] == 'c' && "null"@[0] == 'n' && "void"@[0] == 'v' && "bool"@[0] == 'b');
    match t {
        ResolvedType::Object(inner) | ResolvedType::Vector(inner) => {
            assert(checked_in(a.generics@[0], c.generics@[0], module_id));
            lemma_write_check_read(*inner, a.generics@[0], c.generics@[0], module_id);
        },
        ResolvedType::Struct(name, _) => {
            assert(c.name == name);
        },
        _ => {},
    }
}

} // verus!
