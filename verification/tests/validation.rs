use concerto_core::error::ConcertoError;
use concerto_core::introspect::model_file::ModelFile;
use concerto_core::introspect::validation::{validate_model_files, ValidationContext};
use concerto_core::json::JsonValue;
use concerto_core::rootmodel::root_model_ast;

fn text(s: &str) -> JsonValue {
    JsonValue::String(s.to_string())
}

fn object(entries: Vec<(&str, JsonValue)>) -> JsonValue {
    JsonValue::Object(entries.into_iter().map(|(k, v)| (k.to_string(), v)).collect())
}

fn model(namespace: &str, declarations: Vec<JsonValue>) -> JsonValue {
    object(vec![
        ("$class", text("concerto.metamodel@1.0.0.Model")),
        ("namespace", text(namespace)),
        ("declarations", JsonValue::Array(declarations)),
    ])
}

fn property(kind: &str, name: &str, type_ref: Option<&str>) -> JsonValue {
    let mut entries = vec![
        ("$class", text(&format!("concerto.metamodel@1.0.0.{kind}"))),
        ("name", text(name)),
        ("isArray", JsonValue::Bool(false)),
        ("isOptional", JsonValue::Bool(false)),
    ];
    if let Some(t) = type_ref {
        entries.push(("type", type_id(t)));
    }
    object(entries)
}

fn type_id(fqn: &str) -> JsonValue {
    match fqn.rfind('.') {
        Some(i) => object(vec![
            ("$class", text("concerto.metamodel@1.0.0.TypeIdentifier")),
            ("name", text(&fqn[i + 1..])),
            ("namespace", text(&fqn[..i])),
        ]),
        None => object(vec![("$class", text("concerto.metamodel@1.0.0.TypeIdentifier")), ("name", text(fqn))]),
    }
}

fn class(kind: &str, name: &str, super_type: Option<&str>, properties: Vec<JsonValue>, identified: bool) -> JsonValue {
    let mut entries = vec![
        ("$class", text(&format!("concerto.metamodel@1.0.0.{kind}"))),
        ("name", text(name)),
        ("isAbstract", JsonValue::Bool(false)),
        ("properties", JsonValue::Array(properties)),
    ];
    if let Some(t) = super_type {
        entries.push(("superType", type_id(t)));
    }
    if identified {
        entries.push(("identified", object(vec![("$class", text("concerto.metamodel@1.0.0.Identified"))])));
    }
    object(entries)
}

fn files_with(user: JsonValue) -> Vec<ModelFile> {
    vec![
        ModelFile::from_json(&root_model_ast(), Some("rootmodel.json".into())).unwrap(),
        ModelFile::from_json(&user, Some("user.cto".into())).unwrap(),
    ]
}

fn illegal(files: &[ModelFile]) -> (String, Option<String>) {
    match validate_model_files(files) {
        Err(ConcertoError::IllegalModel { message, file_name, .. }) => (message, file_name),
        other => panic!("expected an illegal-model error, got {:?}", other),
    }
}

#[test]
fn valid_model_passes() {
    let files = files_with(model("org.v", vec![
        class("AssetDeclaration", "Car", Some("concerto@1.0.0.Asset"), vec![property("StringProperty", "vin", None)], true),
        class("ConceptDeclaration", "Garage", None, vec![
            property("RelationshipProperty", "car", Some("Car")),
            property("ObjectProperty", "label", Some("String")),
        ], false),
    ]));
    assert!(validate_model_files(&files).is_ok());
}

#[test]
fn circular_inheritance_is_refused() {
    let files = files_with(model("org.c", vec![
        class("ConceptDeclaration", "A", Some("B"), vec![], false),
        class("ConceptDeclaration", "B", Some("A"), vec![], false),
    ]));
    let (message, file_name) = illegal(&files);
    assert_eq!(message, "Circular inheritance detected for 'org.c.A'");
    assert_eq!(file_name.as_deref(), Some("user.cto"));
}

#[test]
fn self_inheritance_is_refused() {
    let files = files_with(model("org.s", vec![class("ConceptDeclaration", "S", Some("S"), vec![], false)]));
    assert_eq!(illegal(&files).0, "Circular inheritance detected for 'org.s.S'");
}

#[test]
fn inherited_property_name_cannot_repeat() {
    let files = files_with(model("org.d", vec![
        class("ConceptDeclaration", "Base", None, vec![property("StringProperty", "x", None)], false),
        class("ConceptDeclaration", "Sub", Some("Base"), vec![property("StringProperty", "x", None)], false),
    ]));
    assert_eq!(illegal(&files).0, "Duplicate property name 'x' in 'Sub'");
}

#[test]
fn own_property_name_cannot_repeat() {
    let files = files_with(model("org.d", vec![class("ConceptDeclaration", "P", None, vec![
        property("StringProperty", "y", None),
        property("BooleanProperty", "y", None),
    ], false)]));
    assert_eq!(illegal(&files).0, "Duplicate property name 'y' in 'P'");
}

#[test]
fn super_type_must_exist() {
    let files = files_with(model("org.e", vec![
        class("ConceptDeclaration", "E", Some("org.zz.Gone"), vec![], false),
    ]));
    assert_eq!(illegal(&files).0, "Super type 'org.zz.Gone' not found for 'E'");
}

#[test]
fn super_type_must_be_a_class() {
    let files = files_with(model("org.f", vec![
        object(vec![("$class", text("concerto.metamodel@1.0.0.StringScalar")), ("name", text("SSN"))]),
        class("ConceptDeclaration", "F", Some("SSN"), vec![], false),
    ]));
    assert_eq!(illegal(&files).0, "Super type 'org.f.SSN' of 'F' is not a class declaration");
}

#[test]
fn unresolvable_super_type_is_type_not_found() {
    let files = files_with(model("org.g", vec![class("ConceptDeclaration", "G", Some("Nope"), vec![], false)]));
    match validate_model_files(&files) {
        Err(ConcertoError::TypeNotFound { name }) => assert_eq!(name, "Nope"),
        other => panic!("unexpected {:?}", other),
    }
}

#[test]
fn object_property_type_must_exist() {
    let files = files_with(model("org.h", vec![class("ConceptDeclaration", "H", None, vec![
        property("ObjectProperty", "o", Some("org.nowhere.T")),
    ], false)]));
    assert_eq!(illegal(&files).0, "Type 'org.nowhere.T' not found for property 'o'");
}

#[test]
fn relationship_rules() {
    let primitive = files_with(model("org.r", vec![class("ConceptDeclaration", "R", None, vec![
        property("RelationshipProperty", "r", Some("String")),
    ], false)]));
    assert_eq!(illegal(&primitive).0, "Relationship 'r' cannot have primitive type 'String'");

    let missing = files_with(model("org.r", vec![class("ConceptDeclaration", "R", None, vec![
        property("RelationshipProperty", "r", Some("org.q.Q")),
    ], false)]));
    assert_eq!(illegal(&missing).0, "Relationship target type 'org.q.Q' not found for 'r'");

    let unidentified = files_with(model("org.r", vec![
        class("ConceptDeclaration", "T", None, vec![], false),
        class("ConceptDeclaration", "R", None, vec![property("RelationshipProperty", "r", Some("T"))], false),
    ]));
    assert_eq!(illegal(&unidentified).0,
        "Relationship 'r' must point to an identified type, but 'org.r.T' is not identified");

    let identified = files_with(model("org.r", vec![
        class("ConceptDeclaration", "T", None, vec![], true),
        class("ConceptDeclaration", "R", None, vec![property("RelationshipProperty", "r", Some("T"))], false),
    ]));
    assert!(validate_model_files(&identified).is_ok());
}

#[test]
fn context_resolves_types_and_current_file() {
    let files = files_with(model("org.k", vec![class("ConceptDeclaration", "K", None, vec![], false)]));
    let ctx = ValidationContext::new(&files, "org.k");
    assert!(ctx.get_type("org.k.K").is_some());
    assert!(ctx.get_type("concerto@1.0.0.Asset").is_some());
    assert!(ctx.get_type("org.k.Missing").is_none());
    assert_eq!(ctx.current_model_file().unwrap().namespace(), "org.k");
    let other = ValidationContext::new(&files, "org.none");
    assert!(other.current_model_file().is_none());
}
