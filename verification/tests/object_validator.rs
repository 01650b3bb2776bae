use concerto_core::error::ConcertoError;
use concerto_core::json::{JsonNumber, JsonValue};
use concerto_core::model_manager::{ModelManager, ModelManagerOptions};
use concerto_core::validation::object_validator::ObjectValidator;

fn text(s: &str) -> JsonValue {
    JsonValue::String(s.to_string())
}

fn num(n: u64) -> JsonValue {
    JsonValue::Number(JsonNumber::PosInt(n))
}

fn object(entries: Vec<(&str, JsonValue)>) -> JsonValue {
    JsonValue::Object(entries.into_iter().map(|(k, v)| (k.to_string(), v)).collect())
}

fn property(kind: &str, name: &str, optional: bool, array: bool) -> JsonValue {
    let entries = vec![
        ("$class", text(&format!("concerto.metamodel@1.0.0.{kind}"))),
        ("name", text(name)),
        ("isArray", JsonValue::Bool(array)),
        ("isOptional", JsonValue::Bool(optional)),
    ];
    object(entries)
}

fn make_manager_with_person() -> ModelManager {
    let mut mgr = ModelManager::new(ModelManagerOptions::default()).unwrap();
    let model_json = object(vec![
        ("$class", text("concerto.metamodel@1.0.0.Model")),
        ("namespace", text("org.example@1.0.0")),
        ("declarations", JsonValue::Array(vec![object(vec![
            ("$class", text("concerto.metamodel@1.0.0.ConceptDeclaration")),
            ("name", text("Person")),
            ("isAbstract", JsonValue::Bool(false)),
            ("properties", JsonValue::Array(vec![
                property("StringProperty", "name", false, false),
                property("IntegerProperty", "age", true, false),
            ])),
        ])])),
    ]);
    mgr.add_model(&model_json, None, false).unwrap();
    mgr
}

fn make_manager_with_family() -> ModelManager {
    let mut mgr = make_manager_with_person();
    let model_json = object(vec![
        ("$class", text("concerto.metamodel@1.0.0.Model")),
        ("namespace", text("org.family")),
        ("declarations", JsonValue::Array(vec![object(vec![
            ("$class", text("concerto.metamodel@1.0.0.ConceptDeclaration")),
            ("name", text("Parent")),
            ("isAbstract", JsonValue::Bool(false)),
            ("superType", object(vec![
                ("$class", text("concerto.metamodel@1.0.0.TypeIdentifier")),
                ("name", text("Person")),
                ("namespace", text("org.example@1.0.0")),
            ])),
            ("properties", JsonValue::Array(vec![
                object(vec![
                    ("$class", text("concerto.metamodel@1.0.0.ObjectProperty")),
                    ("name", text("children")),
                    ("isArray", JsonValue::Bool(true)),
                    ("isOptional", JsonValue::Bool(true)),
                    ("type", object(vec![
                        ("$class", text("concerto.metamodel@1.0.0.TypeIdentifier")),
                        ("name", text("Person")),
                        ("namespace", text("org.example@1.0.0")),
                    ])),
                ]),
                property("DoubleProperty", "height", true, false),
            ])),
        ])])),
    ]);
    mgr.add_model(&model_json, None, false).unwrap();
    mgr
}

fn validation_message(r: Result<(), ConcertoError>) -> (String, String) {
    match r {
        Err(ConcertoError::Validation { message, component }) => (message, component),
        other => panic!("expected a validation error, got {:?}", other),
    }
}

#[test]
fn test_validate_valid_object() {
    let mgr = make_manager_with_person();
    let validator = ObjectValidator::new(&mgr);
    let obj = object(vec![("$class", text("org.example@1.0.0.Person")), ("name", text("Alice")), ("age", num(30))]);
    assert!(validator.validate(&obj).is_ok());
}

#[test]
fn test_validate_missing_required_field() {
    let mgr = make_manager_with_person();
    let validator = ObjectValidator::new(&mgr);
    let obj = object(vec![("$class", text("org.example@1.0.0.Person")), ("age", num(30))]);
    let err = validator.validate(&obj).unwrap_err();
    assert!(matches!(err, ConcertoError::Validation { .. }));
}

#[test]
fn test_validate_undeclared_field() {
    let mgr = make_manager_with_person();
    let validator = ObjectValidator::new(&mgr);
    let obj = object(vec![
        ("$class", text("org.example@1.0.0.Person")),
        ("name", text("Alice")),
        ("unknownField", JsonValue::Bool(true)),
    ]);
    let err = validator.validate(&obj).unwrap_err();
    assert!(matches!(err, ConcertoError::Validation { .. }));
}

#[test]
fn test_validate_wrong_type() {
    let mgr = make_manager_with_person();
    let validator = ObjectValidator::new(&mgr);
    let obj = object(vec![("$class", text("org.example@1.0.0.Person")), ("name", num(123)), ("age", num(30))]);
    let err = validator.validate(&obj).unwrap_err();
    assert!(matches!(err, ConcertoError::Validation { .. }));
}

#[test]
fn test_validate_missing_class() {
    let mgr = make_manager_with_person();
    let validator = ObjectValidator::new(&mgr);
    let obj = object(vec![("name", text("Alice"))]);
    let err = validator.validate(&obj).unwrap_err();
    assert!(matches!(err, ConcertoError::Validation { .. }));
}

#[test]
fn test_validate_abstract_rejected() {
    let mgr = ModelManager::new(ModelManagerOptions::default()).unwrap();
    let validator = ObjectValidator::new(&mgr);
    let obj = object(vec![("$class", text("concerto@1.0.0.Concept"))]);
    let err = validator.validate(&obj).unwrap_err();
    assert!(matches!(err, ConcertoError::Validation { .. }));
}

#[test]
fn validation_messages_are_exact() {
    let mgr = make_manager_with_person();
    let v = ObjectValidator::new(&mgr);
    let p = "org.example@1.0.0.Person";
    assert_eq!(validation_message(v.validate(&object(vec![("name", text("A"))]))),
        ("Object missing '$class' field".to_string(), "$class".to_string()));
    assert_eq!(validation_message(v.validate(&object(vec![("$class", text(p))]))).0,
        "Missing required property 'name' on instance of 'org.example@1.0.0.Person'");
    assert_eq!(validation_message(v.validate(&object(vec![("$class", text(p)), ("name", text("A")), ("zz", num(1))]))),
        ("Unexpected property 'zz' on instance of 'org.example@1.0.0.Person'".to_string(), p.to_string()));
    assert_eq!(validation_message(v.validate(&object(vec![("$class", text(p)), ("name", num(5))]))).0,
        "Property 'name' should be String on 'org.example@1.0.0.Person'");
    assert_eq!(validation_message(v.validate(&object(vec![("$class", text(p)), ("name", text("A")), ("age", text("x"))]))).0,
        "Property 'age' should be an integer on 'org.example@1.0.0.Person'");
    assert_eq!(validation_message(v.validate(&object(vec![("$class", text("concerto@1.0.0.Asset"))]))).0,
        "Cannot validate instance of abstract type 'concerto@1.0.0.Asset'");
}

#[test]
fn unknown_class_is_type_not_found() {
    let mgr = make_manager_with_person();
    let v = ObjectValidator::new(&mgr);
    match v.validate(&object(vec![("$class", text("org.example@1.0.0.Robot"))])) {
        Err(ConcertoError::TypeNotFound { name }) => assert_eq!(name, "org.example@1.0.0.Robot"),
        other => panic!("unexpected {:?}", other),
    }
}

#[test]
fn system_properties_are_allowed() {
    let mgr = make_manager_with_person();
    let v = ObjectValidator::new(&mgr);
    let obj = object(vec![
        ("$class", text("org.example@1.0.0.Person")),
        ("$identifier", text("p1")),
        ("$timestamp", text("2024-01-01")),
        ("name", text("Bob")),
    ]);
    assert!(v.validate(&obj).is_ok());
}

#[test]
fn inherited_and_nested_properties() {
    let mgr = make_manager_with_family();
    let v = ObjectValidator::new(&mgr);
    let child = object(vec![("$class", text("org.example@1.0.0.Person")), ("name", text("Kid"))]);
    let ok = object(vec![
        ("$class", text("org.family.Parent")),
        ("name", text("Mum")),
        ("height", JsonValue::Number(JsonNumber::NegInt(-1))),
        ("children", JsonValue::Array(vec![child])),
    ]);
    assert!(v.validate(&ok).is_ok());

    let bad_child = object(vec![("$class", text("org.example@1.0.0.Person"))]);
    let nested = object(vec![
        ("$class", text("org.family.Parent")),
        ("name", text("Dad")),
        ("children", JsonValue::Array(vec![bad_child])),
    ]);
    assert_eq!(validation_message(v.validate(&nested)),
        ("Missing required property 'name' on instance of 'org.example@1.0.0.Person'".to_string(),
         "org.example@1.0.0.Person".to_string()));

    let not_array = object(vec![
        ("$class", text("org.family.Parent")),
        ("name", text("Dad")),
        ("children", JsonValue::Null),
    ]);
    assert_eq!(validation_message(v.validate(&not_array)).0,
        "Property 'children' should be an array on 'org.family.Parent'");

    let bad_item = object(vec![
        ("$class", text("org.family.Parent")),
        ("name", text("Dad")),
        ("children", JsonValue::Array(vec![num(3)])),
    ]);
    assert_eq!(validation_message(v.validate(&bad_item)).0,
        "Property 'children' should be an object on 'org.family.Parent'");

    let bad_height = object(vec![
        ("$class", text("org.family.Parent")),
        ("name", text("Dad")),
        ("height", text("tall")),
    ]);
    assert_eq!(validation_message(v.validate(&bad_height)).0,
        "Property 'height' should be a number on 'org.family.Parent'");
}

#[test]
fn cycle_elsewhere_does_not_stop_validation() {
    let mut mgr = make_manager_with_family();
    let super_of = |name: &str| object(vec![
        ("$class", text("concerto.metamodel@1.0.0.TypeIdentifier")),
        ("name", text(name)),
        ("namespace", text("org.loop")),
    ]);
    let decl = |name: &str, sup: &str| object(vec![
        ("$class", text("concerto.metamodel@1.0.0.ConceptDeclaration")),
        ("name", text(name)),
        ("isAbstract", JsonValue::Bool(false)),
        ("superType", super_of(sup)),
        ("properties", JsonValue::Array(vec![])),
    ]);
    let model_json = object(vec![
        ("$class", text("concerto.metamodel@1.0.0.Model")),
        ("namespace", text("org.loop")),
        ("declarations", JsonValue::Array(vec![decl("A", "B"), decl("B", "A")])),
    ]);
    mgr.add_model(&model_json, None, true).unwrap();
    assert!(mgr.validate_model_files().is_err());

    let v = ObjectValidator::new(&mgr);
    let person = object(vec![("$class", text("org.example@1.0.0.Person")), ("name", text("Ann"))]);
    assert!(matches!(v.validate_checked(&person), Some(Ok(()))));
    assert!(v.validate(&person).is_ok());

    let looped = object(vec![("$class", text("org.loop.A"))]);
    assert!(v.validate_checked(&looped).is_none());

    let missing_class = object(vec![("name", text("Ann"))]);
    assert!(matches!(v.validate_checked(&missing_class), Some(Err(ConcertoError::Validation { .. }))));
}
