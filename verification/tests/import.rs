use boa_engine::declaration::import::ImportDeclaration;
use boa_engine::declaration::import::ImportKind;
use boa_engine::declaration::import::ImportSpecifier;
use boa_engine::declaration::import::ModuleSpecifier;
use boa_engine::interner::Identifier;
use boa_interner::Interner;
use boa_interner::Sym;

#[test]
fn import_specifier_parts() {
    let mut interner = Interner::new();
    let alias = Identifier::new(interner.get_or_intern("alias"));
    let exported = interner.get_or_intern("exported");
    let specifier = ImportSpecifier::new(alias, exported);
    assert_eq!(specifier.binding(), alias);
    assert_eq!(specifier.export_name(), exported);
    assert_ne!(specifier.binding().sym(), specifier.export_name());
}

#[test]
fn import_declaration_parts() {
    let mut interner = Interner::new();
    let default = Identifier::new(interner.get_or_intern("main"));
    let module = interner.get_or_intern("./module.js");
    let a = ImportSpecifier::new(Identifier::new(interner.get_or_intern("a")), Sym::DEFAULT);
    let declaration = ImportDeclaration::new(
        Some(default),
        ImportKind::Named { names: vec![a] },
        ModuleSpecifier::new(module),
    );
    assert_eq!(declaration.default(), Some(default));
    assert_eq!(declaration.specifier().sym(), module);
    match declaration.kind() {
        ImportKind::Named { names } => {
            assert_eq!(names.len(), 1);
            assert_eq!(names[0].export_name(), Sym::DEFAULT);
        }
        other => panic!("named import expected, got {other:?}"),
    }
    let bare = ImportDeclaration::new(None, ImportKind::DefaultOrUnnamed, ModuleSpecifier::new(module));
    assert_eq!(bare.default(), None);
    assert!(matches!(bare.kind(), ImportKind::DefaultOrUnnamed));
    let namespace = ImportDeclaration::new(
        None,
        ImportKind::Namespaced { binding: default },
        ModuleSpecifier::new(module),
    );
    match namespace.kind() {
        ImportKind::Namespaced { binding } => assert_eq!(*binding, default),
        other => panic!("namespace import expected, got {other:?}"),
    }
}
