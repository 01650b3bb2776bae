use concerto_core::error::ConcertoError;
use concerto_core::introspect::declarations::Declaration;
use concerto_core::introspect::model_file::ModelFile;
use concerto_core::introspect::traits::{HasProperties, Named};
use concerto_core::json::JsonValue;
use concerto_core::rootmodel::root_model_ast;

fn text(s: &str) -> JsonValue {
    JsonValue::String(s.to_string())
}

fn object(entries: Vec<(&str, JsonValue)>) -> JsonValue {
    JsonValue::Object(entries.into_iter().map(|(k, v)| (k.to_string(), v)).collect())
}

#[test]
fn test_parse_root_model() {
    let json = root_model_ast();
    let mf = ModelFile::from_json(&json, Some("rootmodel".into())).unwrap();

    assert_eq!(mf.namespace(), "concerto@1.0.0");
    assert_eq!(mf.version(), Some("1.0.0"));
    assert!(mf.is_system_model_file());
    assert_eq!(mf.all_declarations().len(), 5);
    assert_eq!(mf.concept_declarations().len(), 5);
    assert!(mf.get_local_type("Concept").is_some());
    assert!(mf.get_local_type("Asset").is_some());
    assert!(mf.get_local_type("Participant").is_some());
    assert!(mf.get_local_type("Transaction").is_some());
    assert!(mf.get_local_type("Event").is_some());
}

#[test]
fn test_fully_qualified_type_name() {
    let json = root_model_ast();
    let mf = ModelFile::from_json(&json, None).unwrap();

    assert_eq!(mf.fully_qualified_type_name("Concept").unwrap(), "concerto@1.0.0.Concept");
    assert_eq!(mf.fully_qualified_type_name("String").unwrap(), "String");
    assert!(mf.fully_qualified_type_name("DoesNotExist").is_err());
}

#[test]
fn model_without_namespace_is_refused() {
    let json = object(vec![("$class", text("concerto.metamodel@1.0.0.Model"))]);
    match ModelFile::from_json(&json, Some("m.cto".into())) {
        Err(ConcertoError::IllegalModel { message, file_name, .. }) => {
            assert_eq!(message, "Model missing 'namespace'");
            assert_eq!(file_name.as_deref(), Some("m.cto"));
        }
        _ => panic!("expected an illegal-model error"),
    }
}

#[test]
fn unresolved_type_name_is_type_not_found() {
    let mf = ModelFile::from_json(&root_model_ast(), None).unwrap();
    match mf.fully_qualified_type_name("Nope") {
        Err(ConcertoError::TypeNotFound { name }) => assert_eq!(name, "Nope"),
        _ => panic!("expected type-not-found"),
    }
}

#[test]
fn imported_type_resolves_through_import() {
    let json = object(vec![
        ("$class", text("concerto.metamodel@1.0.0.Model")),
        ("namespace", text("org.b@1.0.0")),
        ("imports", JsonValue::Array(vec![object(vec![
            ("$class", text("concerto.metamodel@1.0.0.ImportType")),
            ("name", text("Thing")),
            ("namespace", text("org.a@1.0.0")),
        ])])),
        ("declarations", JsonValue::Array(vec![])),
    ]);
    let mf = ModelFile::from_json(&json, None).unwrap();
    assert_eq!(mf.imports().len(), 1);
    assert_eq!(mf.fully_qualified_type_name("Thing").unwrap(), "org.a@1.0.0.Thing");
    assert!(!mf.is_system_model_file());
    assert!(!mf.is_external());
}

#[test]
fn last_declaration_of_a_name_wins() {
    let concept = |name: &str, abs: bool| object(vec![
        ("$class", text("concerto.metamodel@1.0.0.ConceptDeclaration")),
        ("name", text(name)),
        ("isAbstract", JsonValue::Bool(abs)),
        ("properties", JsonValue::Array(vec![])),
    ]);
    let json = object(vec![
        ("$class", text("concerto.metamodel@1.0.0.Model")),
        ("namespace", text("org.c")),
        ("declarations", JsonValue::Array(vec![concept("A", true), concept("A", false)])),
    ]);
    let mf = ModelFile::from_json(&json, None).unwrap();
    assert_eq!(mf.version(), None);
    match mf.get_local_type("A") {
        Some(Declaration::Class(c)) => {
            assert_eq!(c.name(), "A");
            assert!(c.is_concept());
            assert!(!c.is_abstract());
        }
        _ => panic!("expected the class A"),
    }
}

#[test]
fn malformed_members_are_reported() {
    let prop = object(vec![
        ("$class", text("concerto.metamodel@1.0.0.StringProperty")),
        ("isArray", JsonValue::Bool(false)),
        ("isOptional", JsonValue::Bool(false)),
    ]);
    let decl = object(vec![
        ("$class", text("concerto.metamodel@1.0.0.ConceptDeclaration")),
        ("name", text("A")),
        ("isAbstract", JsonValue::Bool(false)),
        ("properties", JsonValue::Array(vec![prop])),
    ]);
    let json = object(vec![
        ("$class", text("concerto.metamodel@1.0.0.Model")),
        ("namespace", text("org.m")),
        ("declarations", JsonValue::Array(vec![decl])),
    ]);
    match ModelFile::from_json(&json, Some("m.cto".into())) {
        Err(ConcertoError::IllegalModel { message, file_name, .. }) => {
            assert_eq!(message, "Invalid ConceptDeclaration: missing field `name`");
            assert_eq!(file_name.as_deref(), Some("m.cto"));
        }
        _ => panic!("expected an illegal-model error"),
    }

    let bad_abstract = object(vec![
        ("$class", text("concerto.metamodel@1.0.0.AssetDeclaration")),
        ("name", text("B")),
        ("isAbstract", text("yes")),
        ("properties", JsonValue::Array(vec![])),
    ]);
    let json = object(vec![
        ("$class", text("concerto.metamodel@1.0.0.Model")),
        ("namespace", text("org.m")),
        ("declarations", JsonValue::Array(vec![bad_abstract])),
    ]);
    match ModelFile::from_json(&json, None) {
        Err(ConcertoError::IllegalModel { message, .. }) => {
            assert_eq!(message, "Invalid AssetDeclaration: invalid type for field `isAbstract`");
        }
        _ => panic!("expected an illegal-model error"),
    }

    let unknown = object(vec![("$class", text("concerto.metamodel@1.0.0.Widget")), ("name", text("W"))]);
    let json = object(vec![
        ("$class", text("concerto.metamodel@1.0.0.Model")),
        ("namespace", text("org.m")),
        ("declarations", JsonValue::Array(vec![unknown])),
    ]);
    match ModelFile::from_json(&json, None) {
        Err(ConcertoError::IllegalModel { message, .. }) => {
            assert_eq!(message, "Unknown declaration type: concerto.metamodel@1.0.0.Widget");
        }
        _ => panic!("expected an illegal-model error"),
    }
}

#[test]
fn aliased_import_resolves_to_aliased_name() {
    let json = object(vec![
        ("$class", text("concerto.metamodel@1.0.0.Model")),
        ("namespace", text("org.b@1.0.0")),
        ("imports", JsonValue::Array(vec![object(vec![
            ("$class", text("concerto.metamodel@1.0.0.ImportTypes")),
            ("namespace", text("org.a@1.0.0")),
            ("types", JsonValue::Array(vec![text("Thing")])),
            ("aliasedTypes", JsonValue::Array(vec![object(vec![
                ("$class", text("concerto.metamodel@1.0.0.AliasedType")),
                ("name", text("Gadget")),
                ("aliasedName", text("Widget")),
            ])])),
        ])])),
        ("declarations", JsonValue::Array(vec![])),
    ]);
    let mf = ModelFile::from_json(&json, None).unwrap();
    assert_eq!(mf.fully_qualified_type_name("Thing").unwrap(), "org.a@1.0.0.Thing");
    assert_eq!(mf.fully_qualified_type_name("Gadget").unwrap(), "org.a@1.0.0.Widget");
    assert!(mf.fully_qualified_type_name("Widget").is_err());
}

#[test]
fn local_types_beat_imports_and_the_first_import_decides() {
    let import_type = |name: &str, ns: &str| {
        object(vec![
            ("$class", text("concerto.metamodel@1.0.0.ImportType")),
            ("name", text(name)),
            ("namespace", text(ns)),
        ])
    };
    let json = object(vec![
        ("$class", text("concerto.metamodel@1.0.0.Model")),
        ("namespace", text("org.b@1.0.0")),
        ("imports", JsonValue::Array(vec![
            import_type("Local", "org.a@1.0.0"),
            object(vec![
                ("$class", text("concerto.metamodel@1.0.0.ImportTypes")),
                ("namespace", text("org.first@1.0.0")),
                ("types", JsonValue::Array(vec![text("Shared")])),
            ]),
            import_type("Shared", "org.second@1.0.0"),
            import_type("String", "org.c@1.0.0"),
        ])),
        ("declarations", JsonValue::Array(vec![object(vec![
            ("$class", text("concerto.metamodel@1.0.0.ConceptDeclaration")),
            ("name", text("Local")),
            ("isAbstract", JsonValue::Bool(false)),
            ("properties", JsonValue::Array(vec![])),
        ])])),
    ]);
    let mf = ModelFile::from_json(&json, None).unwrap();
    assert_eq!(mf.fully_qualified_type_name("Local").unwrap(), "org.b@1.0.0.Local");
    assert_eq!(mf.fully_qualified_type_name("Shared").unwrap(), "org.first@1.0.0.Shared");
    assert_eq!(mf.fully_qualified_type_name("String").unwrap(), "String");
    match mf.fully_qualified_type_name("Absent") {
        Err(ConcertoError::TypeNotFound { name }) => assert_eq!(name, "Absent"),
        other => panic!("unexpected {:?}", other),
    }
}
