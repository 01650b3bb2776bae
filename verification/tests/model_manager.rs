use concerto_core::error::ConcertoError;
use concerto_core::json::JsonValue;
use concerto_core::model_manager::{ModelManager, ModelManagerOptions};
use concerto_core::introspect::introspector::Introspector;
use concerto_core::introspect::traits::{Identifiable, Named};

fn text(s: &str) -> JsonValue {
    JsonValue::String(s.to_string())
}

fn object(entries: Vec<(&str, JsonValue)>) -> JsonValue {
    JsonValue::Object(entries.into_iter().map(|(k, v)| (k.to_string(), v)).collect())
}

fn model(namespace: &str, declarations: Vec<JsonValue>) -> JsonValue {
    object(vec![
        ("$class", text("concerto.metamodel@1.0.0.Model")),
        ("namespace", text(namespace)),
        ("declarations", JsonValue::Array(declarations)),
    ])
}

fn string_property(name: &str) -> JsonValue {
    object(vec![
        ("$class", text("concerto.metamodel@1.0.0.StringProperty")),
        ("name", text(name)),
        ("isArray", JsonValue::Bool(false)),
        ("isOptional", JsonValue::Bool(false)),
    ])
}

fn concept(name: &str, super_type: Option<JsonValue>, properties: Vec<JsonValue>) -> JsonValue {
    let mut entries = vec![
        ("$class", text("concerto.metamodel@1.0.0.ConceptDeclaration")),
        ("name", text(name)),
        ("isAbstract", JsonValue::Bool(false)),
        ("properties", JsonValue::Array(properties)),
    ];
    if let Some(t) = super_type {
        entries.push(("superType", t));
    }
    object(entries)
}

fn type_id(name: &str) -> JsonValue {
    object(vec![("$class", text("concerto.metamodel@1.0.0.TypeIdentifier")), ("name", text(name))])
}

fn illegal_message(e: ConcertoError) -> String {
    match e {
        ConcertoError::IllegalModel { message, .. } => message,
        other => panic!("expected an illegal-model error, got {:?}", other),
    }
}

#[test]
fn test_model_manager_creates_with_root_model() {
    let mgr = ModelManager::new(ModelManagerOptions::default()).unwrap();
    assert!(mgr.get_model_file("concerto@1.0.0").is_some());
    assert!(mgr.get_type("concerto@1.0.0.Concept").is_ok());
    assert!(mgr.get_type("concerto@1.0.0.Asset").is_ok());
}

#[test]
fn test_model_manager_add_model() {
    let mut mgr = ModelManager::new(ModelManagerOptions::default()).unwrap();
    let model_json = model("org.example@1.0.0", vec![concept("Person", None, vec![string_property("name")])]);
    mgr.add_model(&model_json, None, false).unwrap();
    assert!(mgr.get_type("org.example@1.0.0.Person").is_ok());
}

#[test]
fn test_duplicate_namespace_rejected() {
    let mut mgr = ModelManager::new(ModelManagerOptions::default()).unwrap();
    let model_json = model("org.example@1.0.0", vec![]);
    mgr.add_model(&model_json, None, true).unwrap();
    let result = mgr.add_model(&model_json, None, true);
    assert!(result.is_err());
}

#[test]
fn test_batch_add_with_rollback() {
    let mut mgr = ModelManager::new(ModelManagerOptions::default()).unwrap();
    let models = vec![model("org.a@1.0.0", vec![]), model("org.a@1.0.0", vec![])];
    let result = mgr.add_models(&models, true);
    assert!(result.is_err());
    assert!(mgr.get_model_file("org.a@1.0.0").is_none());
}

#[test]
fn duplicate_namespace_message_and_no_change() {
    let mut mgr = ModelManager::new(ModelManagerOptions::default()).unwrap();
    mgr.add_model(&model("org.x", vec![]), Some("x.cto".into()), true).unwrap();
    let err = mgr.add_model(&model("org.x", vec![concept("Other", None, vec![])]), Some("y.cto".into()), true)
        .unwrap_err();
    match err {
        ConcertoError::IllegalModel { message, file_name, .. } => {
            assert_eq!(message, "Duplicate namespace: org.x");
            assert_eq!(file_name.as_deref(), Some("y.cto"));
        }
        other => panic!("unexpected {:?}", other),
    }
    assert_eq!(mgr.get_all_model_files().len(), 2);
    assert!(mgr.get_type("org.x.Other").is_err());
}

#[test]
fn batch_rolls_back_on_validation_failure() {
    let mut mgr = ModelManager::new(ModelManagerOptions::default()).unwrap();
    let models = vec![
        model("org.a", vec![concept("A", None, vec![])]),
        model("org.b", vec![concept("B", Some(type_id("Missing")), vec![])]),
    ];
    let err = mgr.add_models(&models, false).unwrap_err();
    assert!(matches!(err, ConcertoError::TypeNotFound { .. }));
    assert!(mgr.get_model_file("org.a").is_none());
    assert!(mgr.get_model_file("org.b").is_none());
    assert_eq!(mgr.get_all_model_files().len(), 1);
}

#[test]
fn batch_rolls_back_on_malformed_model() {
    let mut mgr = ModelManager::new(ModelManagerOptions::default()).unwrap();
    let bad = object(vec![("$class", text("concerto.metamodel@1.0.0.Model"))]);
    let models = vec![model("org.a", vec![]), bad];
    let err = mgr.add_models(&models, true).unwrap_err();
    assert_eq!(illegal_message(err), "Model missing 'namespace'");
    assert!(mgr.get_model_file("org.a").is_none());
}

#[test]
fn batch_adds_all_in_order() {
    let mut mgr = ModelManager::new(ModelManagerOptions::default()).unwrap();
    let models = vec![model("org.a", vec![concept("A", None, vec![])]), model("org.b", vec![])];
    mgr.add_models(&models, false).unwrap();
    let all = mgr.get_all_model_files();
    assert_eq!(all.len(), 3);
    assert_eq!(all[1].namespace(), "org.a");
    assert_eq!(all[2].namespace(), "org.b");
    let user = mgr.get_model_files();
    assert_eq!(user.len(), 2);
    assert_eq!(user[0].namespace(), "org.a");
    assert!(mgr.get_class_declaration("org.a.A").is_ok());
}

#[test]
fn add_model_keeps_file_on_validation_failure() {
    let mut mgr = ModelManager::new(ModelManagerOptions::default()).unwrap();
    let bad = model("org.c", vec![concept("C", Some(type_id("Nowhere")), vec![])]);
    let err = mgr.add_model(&bad, None, false).unwrap_err();
    match err {
        ConcertoError::TypeNotFound { name } => assert_eq!(name, "Nowhere"),
        other => panic!("unexpected {:?}", other),
    }
    assert!(mgr.get_model_file("org.c").is_some());
    assert!(mgr.validate_model_files().is_err());
}

#[test]
fn get_type_errors_name_the_type() {
    let mgr = ModelManager::new(ModelManagerOptions::default()).unwrap();
    match mgr.get_type("org.none.Thing") {
        Err(ConcertoError::TypeNotFound { name }) => assert_eq!(name, "org.none.Thing"),
        _ => panic!("expected type-not-found"),
    }
    match mgr.get_type("concerto@1.0.0.Nothing") {
        Err(ConcertoError::TypeNotFound { name }) => assert_eq!(name, "concerto@1.0.0.Nothing"),
        _ => panic!("expected type-not-found"),
    }
    assert!(mgr.get_class_declaration("concerto@1.0.0.Event").is_ok());
}

#[test]
fn options_default_and_kept() {
    let o = ModelManagerOptions::default();
    assert!(!o.strict);
    assert!(o.enable_map_type);
    let mgr = ModelManager::new(ModelManagerOptions { strict: true, enable_map_type: false }).unwrap();
    assert!(mgr.options().strict);
    assert!(!mgr.options().enable_map_type);
}

#[test]
fn root_model_is_not_a_user_file() {
    let mgr = ModelManager::new(ModelManagerOptions::default()).unwrap();
    assert_eq!(mgr.get_model_files().len(), 0);
    assert_eq!(mgr.get_all_model_files().len(), 1);
    assert_eq!(mgr.class_declarations().len(), 5);
    assert!(mgr.validate_model_files().is_ok());
}

#[test]
fn introspector_lists_and_finds_classes() {
    let mut mgr = ModelManager::new(ModelManagerOptions::default()).unwrap();
    mgr.add_model(&model("org.d", vec![concept("D", None, vec![])]), None, false).unwrap();
    let intro = Introspector::new(&mgr);
    let names: Vec<&str> = intro.class_declarations().iter().map(|c| c.name()).collect();
    assert_eq!(names, vec!["Concept", "Asset", "Participant", "Transaction", "Event", "D"]);
    assert_eq!(intro.get_class_declaration("org.d.D").unwrap().name(), "D");
    assert!(intro.get_class_declaration("org.d.E").is_err());
    assert_eq!(intro.model_manager().get_all_model_files().len(), 2);
}

#[test]
fn added_file_resolves_and_others_unchanged() {
    let mut mgr = ModelManager::new(ModelManagerOptions::default()).unwrap();
    mgr.add_model(&model("org.e@2.0.0", vec![concept("E", None, vec![]), concept("F", None, vec![])]), None, true)
        .unwrap();
    assert_eq!(mgr.get_model_file("org.e@2.0.0").unwrap().namespace(), "org.e@2.0.0");
    assert_eq!(mgr.get_type("org.e@2.0.0.F").unwrap().name(), "F");
    assert!(mgr.get_type("org.e@2.0.0.G").is_err());
    for root in ["Concept", "Asset", "Participant", "Transaction", "Event"] {
        let fqn = format!("concerto@1.0.0.{root}");
        assert_eq!(mgr.get_type(&fqn).unwrap().name(), root);
    }
}

#[test]
fn strict_refuses_unversioned_namespaces() {
    let mut mgr = ModelManager::new(ModelManagerOptions { strict: true, enable_map_type: true }).unwrap();
    let m = model("org.example", vec![]);
    match mgr.add_model(&m, Some("e.cto".into()), true) {
        Err(ConcertoError::IllegalModel { message, file_name, .. }) => {
            assert_eq!(message, "Namespace 'org.example' has no version, which 'strict' requires");
            assert_eq!(file_name.as_deref(), Some("e.cto"));
        }
        other => panic!("unexpected {:?}", other),
    }
    assert!(mgr.get_model_file("org.example").is_none());
    mgr.add_model(&model("org.example@1.0.0", vec![]), None, false).unwrap();
    assert!(mgr.get_model_file("org.example@1.0.0").is_some());

    let batch = vec![model("org.b@1.0.0", vec![]), model("org.c", vec![])];
    let err = mgr.add_models(&batch, true).unwrap_err();
    assert_eq!(illegal_message(err), "Namespace 'org.c' has no version, which 'strict' requires");
    assert!(mgr.get_model_file("org.b@1.0.0").is_none());

    let mut lax = ModelManager::new(ModelManagerOptions::default()).unwrap();
    assert!(lax.add_model(&model("org.example", vec![]), None, true).is_ok());
}

fn map_declaration(name: &str) -> JsonValue {
    object(vec![
        ("$class", text("concerto.metamodel@1.0.0.MapDeclaration")),
        ("name", text(name)),
        ("key", object(vec![("$class", text("concerto.metamodel@1.0.0.StringMapKeyType"))])),
        ("value", object(vec![("$class", text("concerto.metamodel@1.0.0.StringMapValueType"))])),
    ])
}

#[test]
fn map_type_disabled_refuses_map_declarations() {
    let mut mgr = ModelManager::new(ModelManagerOptions { strict: false, enable_map_type: false }).unwrap();
    let m = model("org.maps@1.0.0", vec![concept("C", None, vec![]), map_declaration("Dictionary")]);
    match mgr.add_model(&m, Some("maps.cto".into()), false) {
        Err(ConcertoError::IllegalModel { message, file_name, .. }) => {
            assert_eq!(message, "Namespace 'org.maps@1.0.0' declares a map type, which needs 'enable_map_type'");
            assert_eq!(file_name.as_deref(), Some("maps.cto"));
        }
        other => panic!("unexpected {:?}", other),
    }
    assert!(mgr.get_model_file("org.maps@1.0.0").is_none());
    assert_eq!(mgr.get_all_model_files().len(), 1);

    // A model without a map declaration is still accepted.
    mgr.add_model(&model("org.plain@1.0.0", vec![concept("P", None, vec![])]), None, false).unwrap();
    assert!(mgr.get_model_file("org.plain@1.0.0").is_some());

    let batch = vec![model("org.first@1.0.0", vec![]), model("org.second@1.0.0", vec![map_declaration("M")])];
    let err = mgr.add_models(&batch, true).unwrap_err();
    assert_eq!(illegal_message(err), "Namespace 'org.second@1.0.0' declares a map type, which needs 'enable_map_type'");
    assert!(mgr.get_model_file("org.first@1.0.0").is_none());
    assert_eq!(mgr.get_all_model_files().len(), 2);
}

#[test]
fn map_type_enabled_accepts_map_declarations() {
    let mut mgr = ModelManager::new(ModelManagerOptions::default()).unwrap();
    let m = model("org.maps@1.0.0", vec![map_declaration("Dictionary")]);
    mgr.add_model(&m, None, false).unwrap();
    assert_eq!(mgr.get_model_file("org.maps@1.0.0").unwrap().map_declarations().len(), 1);
}

#[test]
fn strict_is_checked_before_the_map_type() {
    let mut mgr = ModelManager::new(ModelManagerOptions { strict: true, enable_map_type: false }).unwrap();
    let err = mgr.add_model(&model("org.both", vec![map_declaration("M")]), None, true).unwrap_err();
    assert_eq!(illegal_message(err), "Namespace 'org.both' has no version, which 'strict' requires");
}

fn class_declaration(kind: &str, name: &str, identified: Option<&str>) -> JsonValue {
    let mut entries = vec![
        ("$class", text(&format!("concerto.metamodel@1.0.0.{kind}"))),
        ("name", text(name)),
        ("isAbstract", JsonValue::Bool(false)),
        ("properties", JsonValue::Array(vec![string_property("email")])),
    ];
    if let Some(class) = identified {
        let mut id = vec![("$class", text(class))];
        if class.ends_with("IdentifiedBy") {
            id.push(("name", text("email")));
        }
        entries.push(("identified", object(id)));
    }
    object(entries)
}

#[test]
fn identity_follows_the_identified_member_on_every_kind() {
    let mut mgr = ModelManager::new(ModelManagerOptions::default()).unwrap();
    let by = "concerto.metamodel@1.0.0.IdentifiedBy";
    let sys = "concerto.metamodel@1.0.0.Identified";
    let m = model("org.ids@1.0.0", vec![
        class_declaration("ConceptDeclaration", "C", None),
        class_declaration("AssetDeclaration", "A", Some(by)),
        class_declaration("ParticipantDeclaration", "P", Some(sys)),
        class_declaration("TransactionDeclaration", "T", Some(by)),
        class_declaration("EventDeclaration", "E", Some(sys)),
        class_declaration("ConceptDeclaration", "K", Some(sys)),
    ]);
    mgr.add_model(&m, None, true).unwrap();
    let expect = [
        ("C", false, false, false, None),
        ("A", true, false, true, None),
        ("P", true, true, false, Some("$identifier")),
        ("T", true, false, true, None),
        ("E", true, true, false, Some("$identifier")),
        ("K", true, true, false, Some("$identifier")),
    ];
    for (name, identified, system, explicit, field) in expect {
        let c = mgr.get_class_declaration(&format!("org.ids@1.0.0.{name}")).unwrap();
        assert_eq!(c.is_identified(), identified, "{name}");
        assert_eq!(c.is_system_identified(), system, "{name}");
        assert_eq!(c.is_explicitly_identified(), explicit, "{name}");
        assert_eq!(c.identifier_field_name(), field, "{name}");
        assert_eq!(c.is_system_identified(), c.is_identified() && !c.is_explicitly_identified());
    }
}
