use roan::error::RoanError;
use roan::interpreter::resolver::{
    ExportType, ModuleDecls, ResolverPass, StructDecl, StructImpl, TraitDef, TraitImpl,
};
use roan::position::Position;
use roan::span::TextSpan;

fn span(col: u32, text: &str) -> TextSpan {
    let len = text.chars().count() as u32;
    TextSpan::new(
        Position::new(2, col, col as usize),
        Position::new(2, col + len, (col + len) as usize),
        text.to_string(),
    )
}

fn names(ns: &[&str]) -> Vec<String> {
    ns.iter().map(|n| n.to_string()).collect()
}

fn module_with_point_and_show() -> ModuleDecls {
    let mut module = ModuleDecls { id: "main".to_string(), structs: vec![], traits: vec![], exports: vec![] };
    let mut pass = ResolverPass;
    pass.interpret_struct(&mut module, StructDecl { name: "Point".to_string(), public: true }).unwrap();
    pass.interpret_trait(
        &mut module,
        TraitDef { name: "Show".to_string(), public: false, methods: names(&["show", "debug"]) },
    )
    .unwrap();
    module
}

fn show_for_point(methods: &[&str]) -> TraitImpl {
    TraitImpl {
        struct_name: "Point".to_string(),
        struct_span: span(20, "Point"),
        trait_name: "Show".to_string(),
        trait_span: span(6, "Show"),
        methods: names(methods),
    }
}

#[test]
fn declarations_are_recorded_and_public_ones_exported() {
    let module = module_with_point_and_show();
    assert_eq!(module.structs.len(), 1);
    assert_eq!(module.structs[0].name, "Point");
    assert_eq!(module.structs[0].defining_module, "main");
    assert!(module.structs[0].impls.is_empty());
    assert_eq!(module.traits.len(), 1);
    assert_eq!(module.exports.len(), 1);
    assert_eq!(module.exports[0].0, "Point");
    assert!(matches!(module.exports[0].1, ExportType::Struct(_)));
}

#[test]
fn an_accepted_trait_impl_is_recorded_on_the_struct_and_its_export() {
    let mut module = module_with_point_and_show();
    let mut pass = ResolverPass;
    assert!(pass.interpret_trait_impl(&mut module, show_for_point(&["debug", "show", "extra"])).is_ok());
    let st = &module.structs[0];
    assert_eq!(st.trait_impls.len(), 1);
    assert_eq!(st.trait_impls[0].trait_name, "Show");
    assert_eq!(st.trait_impls[0].methods, names(&["debug", "show", "extra"]));
    assert_eq!(st.trait_impls[0].defining_module, "main");
    match &module.exports[0].1 {
        ExportType::Struct(s) => assert_eq!(s.trait_impls.len(), 1),
        _ => panic!("expected the struct's export"),
    }
}

#[test]
fn the_same_trait_cannot_be_implemented_twice() {
    let mut module = module_with_point_and_show();
    let mut pass = ResolverPass;
    assert!(pass.interpret_trait_impl(&mut module, show_for_point(&["show", "debug"])).is_ok());
    match pass.interpret_trait_impl(&mut module, show_for_point(&["show", "debug"])) {
        Err(RoanError::StructAlreadyImplementsTrait(s, t, sp)) => {
            assert_eq!(s, "Point");
            assert_eq!(t, "Show");
            assert_eq!(sp, span(6, "Show"));
        }
        other => panic!("expected StructAlreadyImplementsTrait, got {:?}", other),
    }
    assert_eq!(module.structs[0].trait_impls.len(), 1);
}

#[test]
fn missing_methods_are_listed_in_the_traits_order() {
    let mut module = module_with_point_and_show();
    let mut pass = ResolverPass;
    match pass.interpret_trait_impl(&mut module, show_for_point(&["other"])) {
        Err(RoanError::TraitMethodNotImplemented(t, missing, sp)) => {
            assert_eq!(t, "Show");
            assert_eq!(missing, names(&["show", "debug"]));
            assert_eq!(sp, span(6, "Show"));
        }
        other => panic!("expected TraitMethodNotImplemented, got {:?}", other),
    }
    assert!(module.structs[0].trait_impls.is_empty());
}

#[test]
fn unknown_struct_or_trait_is_refused() {
    let mut module = module_with_point_and_show();
    let mut pass = ResolverPass;
    let mut unknown_struct = show_for_point(&["show", "debug"]);
    unknown_struct.struct_name = "Line".to_string();
    match pass.interpret_trait_impl(&mut module, unknown_struct) {
        Err(RoanError::StructNotFoundError(n, sp)) => {
            assert_eq!(n, "Line");
            assert_eq!(sp, span(20, "Point"));
        }
        other => panic!("expected StructNotFoundError, got {:?}", other),
    }
    let mut unknown_trait = show_for_point(&["show", "debug"]);
    unknown_trait.trait_name = "Print".to_string();
    match pass.interpret_trait_impl(&mut module, unknown_trait) {
        Err(RoanError::TraitNotFoundError(n, sp)) => {
            assert_eq!(n, "Print");
            assert_eq!(sp, span(6, "Show"));
        }
        other => panic!("expected TraitNotFoundError, got {:?}", other),
    }
}

#[test]
fn impl_blocks_are_recorded_on_declared_structs_only() {
    let mut module = module_with_point_and_show();
    let mut pass = ResolverPass;
    let block = StructImpl { struct_name: "Point".to_string(), struct_span: span(6, "Point"), methods: names(&["new"]) };
    assert!(pass.interpret_struct_impl(&mut module, block).is_ok());
    assert_eq!(module.structs[0].impls.len(), 1);
    assert_eq!(module.structs[0].impls[0].methods, names(&["new"]));
    match &module.exports[0].1 {
        ExportType::Struct(s) => assert_eq!(s.impls.len(), 1),
        _ => panic!("expected the struct's export"),
    }
    let missing = StructImpl { struct_name: "Line".to_string(), struct_span: span(6, "Line"), methods: vec![] };
    match pass.interpret_struct_impl(&mut module, missing) {
        Err(RoanError::StructNotFoundError(n, sp)) => {
            assert_eq!(n, "Line");
            assert_eq!(sp, span(6, "Line"));
        }
        other => panic!("expected StructNotFoundError, got {:?}", other),
    }
}
