use roan::interpreter::annotation::TypeAnnotation;
use roan::interpreter::types::{ResolvedType, TypePass};

fn plain(name: &str, module_id: Option<&str>) -> TypeAnnotation {
    TypeAnnotation {
        name: name.to_string(),
        is_array: false,
        is_nullable: false,
        module_id: module_id.map(|m| m.to_string()),
        is_generic: false,
        generics: vec![],
    }
}

#[test]
fn types_are_written_as_annotations() {
    let a = ResolvedType::Vector(Box::new(ResolvedType::Int)).to_type_annotation();
    assert_eq!(a.name, "vec");
    assert!(a.is_array);
    assert!(a.is_generic);
    assert!(!a.is_nullable);
    assert_eq!(a.module_id, None);
    assert_eq!(a.generics.len(), 1);
    assert_eq!(a.generics[0].name, "int");
    let s = ResolvedType::Struct("Point".to_string(), "geo".to_string()).to_type_annotation();
    assert_eq!(s.name, "Point");
    assert!(!s.is_generic && s.generics.is_empty());
    assert_eq!(ResolvedType::Any.to_type_annotation().name, "anytype");
}

#[test]
fn annotations_are_read_as_types() {
    assert_eq!(ResolvedType::from_type_annotation(&plain("float", None)), ResolvedType::Float);
    assert_eq!(ResolvedType::from_type_annotation(&plain("Point", None)), ResolvedType::Any);
    assert_eq!(
        ResolvedType::from_type_annotation(&plain("Point", Some("geo"))),
        ResolvedType::Struct("Point".to_string(), "geo".to_string())
    );
    let mut obj = plain("object", None);
    obj.is_generic = true;
    obj.generics = vec![plain("string", None)];
    assert_eq!(
        ResolvedType::from_type_annotation(&obj),
        ResolvedType::Object(Box::new(ResolvedType::String))
    );
}

#[test]
fn checking_reads_an_annotation_and_its_generics_in_the_module() {
    let pass = TypePass::new();
    let mut a = ResolvedType::Vector(Box::new(ResolvedType::Struct("Point".to_string(), "old".to_string())))
        .to_type_annotation();
    pass.check_type_annotation(&mut a, &"main".to_string());
    assert_eq!(a.module_id.as_deref(), Some("main"));
    assert_eq!(a.generics[0].module_id.as_deref(), Some("main"));
    assert_eq!(
        ResolvedType::from_type_annotation(&a),
        ResolvedType::Vector(Box::new(ResolvedType::Struct("Point".to_string(), "main".to_string())))
    );
}

#[test]
fn a_struct_named_after_a_built_in_type_reads_back_as_that_type() {
    let pass = TypePass::new();
    let mut a = ResolvedType::Struct("int".to_string(), "m".to_string()).to_type_annotation();
    pass.check_type_annotation(&mut a, &"m".to_string());
    assert_eq!(ResolvedType::from_type_annotation(&a), ResolvedType::Int);
}
