use concerto_core::model_util::{
    fully_qualified_name, get_namespace, get_short_name, is_primitive_type, is_private_system_property,
    is_system_property, is_valid_identifier, parse_namespace, remove_namespace_version,
};
use concerto_core::error::ConcertoError;

#[test]
fn test_get_short_name() {
    assert_eq!(get_short_name("org.example@1.0.0.Asset"), "Asset");
    assert_eq!(get_short_name("Asset"), "Asset");
    assert_eq!(get_short_name("a.b.c.D"), "D");
}

#[test]
fn test_get_namespace() {
    assert_eq!(get_namespace("org.example.Asset"), "org.example");
    assert_eq!(get_namespace("Asset"), "");
}

#[test]
fn test_fully_qualified_name() {
    assert_eq!(fully_qualified_name("org.example", "Asset"), "org.example.Asset");
    assert_eq!(fully_qualified_name("", "Asset"), "Asset");
}

#[test]
fn test_parse_namespace() {
    let ns = parse_namespace("org.example@1.0.0").unwrap();
    assert_eq!(ns.name, "org.example");
    assert_eq!(ns.version.as_deref(), Some("1.0.0"));

    let ns = parse_namespace("org.example").unwrap();
    assert_eq!(ns.name, "org.example");
    assert!(ns.version.is_none());

    assert!(parse_namespace("a@b@c").is_err());
}

#[test]
fn test_is_primitive_type() {
    assert!(is_primitive_type("String"));
    assert!(is_primitive_type("Boolean"));
    assert!(is_primitive_type("DateTime"));
    assert!(is_primitive_type("Double"));
    assert!(is_primitive_type("Integer"));
    assert!(is_primitive_type("Long"));
    assert!(!is_primitive_type("Concept"));
}

#[test]
fn test_is_system_property() {
    assert!(is_system_property("$class"));
    assert!(is_system_property("$identifier"));
    assert!(!is_system_property("name"));
}

#[test]
fn test_is_valid_identifier() {
    assert!(is_valid_identifier("foo"));
    assert!(is_valid_identifier("_bar"));
    assert!(is_valid_identifier("$baz"));
    assert!(is_valid_identifier("MyType"));
    assert!(!is_valid_identifier("123abc"));
    assert!(!is_valid_identifier(""));
}

#[test]
fn test_remove_namespace_version() {
    assert_eq!(remove_namespace_version("org.example@1.0.0.Asset"), "org.example.Asset");
    assert_eq!(remove_namespace_version("String"), "String");
    assert_eq!(remove_namespace_version("org.example.Asset"), "org.example.Asset");
}

#[test]
fn split_of_qualified_name_gives_parts_back() {
    let fqn = fully_qualified_name("org.acme@2.1.0", "Vehicle");
    assert_eq!(get_namespace(&fqn), "org.acme@2.1.0");
    assert_eq!(get_short_name(&fqn), "Vehicle");
    let bare = fully_qualified_name("", "Vehicle");
    assert_eq!(get_namespace(&bare), "");
    assert_eq!(get_short_name(&bare), "Vehicle");
}

#[test]
fn qualified_of_split_gives_name_back() {
    for fqn in ["a.b.C", "C", "x@1.0.0.Y"] {
        assert_eq!(fully_qualified_name(get_namespace(fqn), get_short_name(fqn)), fqn);
    }
    // A leading dot is the one case that does not come back.
    assert_eq!(fully_qualified_name(get_namespace(".C"), get_short_name(".C")), "C");
}

#[test]
fn parse_namespace_round_trip() {
    let p = parse_namespace("org.acme@2.1.0").unwrap();
    assert_eq!(format!("{}@{}", p.name, p.version.unwrap()), "org.acme@2.1.0");
    let p = parse_namespace("@").unwrap();
    assert_eq!(p.name, "");
    assert_eq!(p.version.as_deref(), Some(""));
}

#[test]
fn parse_namespace_error_names_namespace() {
    match parse_namespace("a@b@c") {
        Err(ConcertoError::IllegalModel { message, file_name, location }) => {
            assert_eq!(message, "Invalid namespace a@b@c");
            assert!(file_name.is_none());
            assert!(location.is_none());
        }
        other => panic!("unexpected {:?}", other.map(|p| p.name)),
    }
}

#[test]
fn private_system_properties_are_system_properties() {
    for name in ["$classDeclaration", "$namespace", "$type", "$modelManager", "$validator",
        "$identifierFieldName", "$imports", "$superTypes", "$id"] {
        assert!(is_private_system_property(name));
        assert!(is_system_property(name));
    }
    assert!(is_system_property("$timestamp"));
    assert!(!is_private_system_property("$class"));
}

#[test]
fn remove_version_is_idempotent() {
    for fqn in ["org.example@1.0.0.Asset", "String", "a@b@c.D", "@1.String", "Asset"] {
        let once = remove_namespace_version(fqn);
        assert_eq!(remove_namespace_version(&once), once);
    }
    assert_eq!(remove_namespace_version("a@b@c.D"), "a@b@c.D");
    assert_eq!(remove_namespace_version("@1.String"), "String");
}

#[test]
fn identifier_allows_unicode_letters() {
    assert!(is_valid_identifier("café"));
    assert!(is_valid_identifier("x1_2"));
    assert!(!is_valid_identifier("a-b"));
}
