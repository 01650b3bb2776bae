use concerto_core::json::JsonValue;
use concerto_core::rootmodel::root_model_ast;

fn text_of<'a>(v: &'a JsonValue, key: &str) -> Option<&'a str> {
    v.get(key).and_then(|x| x.as_str())
}

#[test]
fn root_model_has_five_declarations() {
    let ast = root_model_ast();
    let decls = ast.get("declarations").unwrap().as_array().unwrap();
    assert_eq!(decls.len(), 5);
    assert_eq!(text_of(&decls[0], "name"), Some("Concept"));
    assert_eq!(text_of(&decls[1], "name"), Some("Asset"));
    assert_eq!(text_of(&decls[2], "name"), Some("Participant"));
    assert_eq!(text_of(&decls[3], "name"), Some("Transaction"));
    assert_eq!(text_of(&decls[4], "name"), Some("Event"));
}

#[test]
fn root_model_namespace() {
    let ast = root_model_ast();
    assert_eq!(text_of(&ast, "namespace"), Some("concerto@1.0.0"));
}

#[test]
fn asset_and_participant_are_identified() {
    let ast = root_model_ast();
    let decls = ast.get("declarations").unwrap().as_array().unwrap();
    assert!(decls[1].get("identified").is_some());
    assert!(decls[2].get("identified").is_some());
    assert!(decls[0].get("identified").is_none());
    assert!(decls[3].get("identified").is_none());
    assert!(decls[4].get("identified").is_none());
}

#[test]
fn root_model_classes_and_decorator() {
    let ast = root_model_ast();
    assert_eq!(text_of(&ast, "$class"), Some("concerto.metamodel@1.0.0.Model"));
    let decls = ast.get("declarations").unwrap().as_array().unwrap();
    for d in decls {
        assert_eq!(text_of(d, "$class"), Some("concerto.metamodel@1.0.0.ConceptDeclaration"));
        assert!(matches!(d.get("isAbstract"), Some(JsonValue::Bool(true))));
        assert_eq!(d.get("properties").unwrap().as_array().unwrap().len(), 0);
    }
    let ident = decls[1].get("identified").unwrap();
    assert_eq!(text_of(ident, "$class"), Some("concerto.metamodel@1.0.0.Identified"));
    let imports = ast.get("imports").unwrap().as_array().unwrap();
    assert_eq!(imports.len(), 1);
    assert_eq!(text_of(&imports[0], "$class"), Some("concerto.metamodel@1.0.0.ImportType"));
    assert_eq!(text_of(&imports[0], "name"), Some("DotNetNamespace"));
    assert_eq!(text_of(&imports[0], "namespace"), Some("concerto.decorator@1.0.0"));
    let decorators = ast.get("decorators").unwrap().as_array().unwrap();
    assert_eq!(decorators.len(), 1);
    assert_eq!(text_of(&decorators[0], "name"), Some("DotNetNamespace"));
    let args = decorators[0].get("arguments").unwrap().as_array().unwrap();
    assert_eq!(text_of(&args[0], "$class"), Some("concerto.metamodel@1.0.0.DecoratorString"));
    assert_eq!(text_of(&args[0], "value"), Some("AccordProject.Concerto"));
}
