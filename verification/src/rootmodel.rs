//! The Concerto root model, built in code.
//!
//! The root model defines the five abstract base types of the `concerto@1.0.0`
//! namespace: `Concept`, `Asset`, `Participant`, `Transaction` and `Event`.
use vstd::prelude::*;
use vstd::string::*;
use crate::json::{JsonValue, first_key_index, lemma_first_key_index_is};
use crate::metamodel::Identified;
use crate::model_util::{law_split_of_qualified, parsed_namespace, short_name_of};
use crate::text::{concat3, count_of, owned};
use crate::introspect::declarations::declaration_accepts;
use crate::introspect::imports::import_accepts;
use crate::introspect::model_file::model_accepts;

verus! {

/// The `$class` of a metamodel type: `concerto.metamodel@1.0.0.<suffix>`.
pub open spec fn metamodel_class(suffix: Seq<char>) -> Seq<char> {
    "concerto.metamodel@1.0.0"@ + "."@ + suffix
}

/// `e` is the member `key` with the string `value`.
pub open spec fn text_entry(e: (String, JsonValue), key: Seq<char>, value: Seq<char>) -> bool {
    &&& e.0@ == key
    &&& e.1 matches JsonValue::String(s) && s@ == value
}

/// `v` is the JSON form of an `Identified` whose class is `class`.
pub open spec fn is_identified_json(v: JsonValue, class: Seq<char>) -> bool {
    v matches JsonValue::Object(es) && es@.len() == 1 && text_entry(es@[0], "$class"@, class)
}

/// `v` is the JSON form of an abstract concept declaration named `name` without
/// properties, super type or decorators, identified by `identified` when given.
pub open spec fn is_concept_json(v: JsonValue, name: Seq<char>, identified: Option<Seq<char>>) -> bool {
    v matches JsonValue::Object(es) && {
        let n: int = if identified is Some { 5 } else { 4 };
        &&& es@.len() == n
        &&& text_entry(es@[0], "$class"@, metamodel_class("ConceptDeclaration"@))
        &&& text_entry(es@[1], "name"@, name)
        &&& es@[2].0@ == "isAbstract"@ && es@[2].1 == JsonValue::Bool(true)
        &&& (identified matches Some(c) ==> es@[3].0@ == "identified"@ && is_identified_json(es@[3].1, c))
        &&& es@[n - 1].0@ == "properties"@
        &&& es@[n - 1].1 matches JsonValue::Array(ps) && ps@.len() == 0
    }
}

/// `v` is the JSON form of the import of `DotNetNamespace` from `concerto.decorator@1.0.0`.
pub open spec fn is_root_import_json(v: JsonValue) -> bool {
    v matches JsonValue::Object(es) && {
        &&& es@.len() == 3
        &&& text_entry(es@[0], "$class"@, metamodel_class("ImportType"@))
        &&& text_entry(es@[1], "name"@, "DotNetNamespace"@)
        &&& text_entry(es@[2], "namespace"@, "concerto.decorator@1.0.0"@)
    }
}

/// `v` is the JSON form of the string argument `"AccordProject.Concerto"`.
pub open spec fn is_root_argument_json(v: JsonValue) -> bool {
    v matches JsonValue::Object(a) && {
        &&& a@.len() == 2
        &&& text_entry(a@[0], "$class"@, metamodel_class("DecoratorString"@))
        &&& text_entry(a@[1], "value"@, "AccordProject.Concerto"@)
    }
}

/// `v` is the JSON form of the decorator `@DotNetNamespace("AccordProject.Concerto")`.
pub open spec fn is_root_decorator_json(v: JsonValue) -> bool {
    v matches JsonValue::Object(es) && {
        &&& es@.len() == 3
        &&& text_entry(es@[0], "$class"@, metamodel_class("Decorator"@))
        &&& text_entry(es@[1], "name"@, "DotNetNamespace"@)
        &&& es@[2].0@ == "arguments"@
        &&& es@[2].1 matches JsonValue::Array(args) && args@.len() == 1 && is_root_argument_json(args@[0])
    }
}

/// The names of the five root declarations, in order.
pub open spec fn root_declaration_name(i: int) -> Seq<char> {
    if i == 0 {
        "Concept"@
    } else if i == 1 {
        "Asset"@
    } else if i == 2 {
        "Participant"@
    } else if i == 3 {
        "Transaction"@
    } else {
        "Event"@
    }
}

/// `v` is the JSON form of the root model: the `concerto@1.0.0` namespace, one
/// import, the five abstract root concepts (`Asset` and `Participant`
/// identified) and the `DotNetNamespace` decorator.
pub open spec fn is_root_model_json(v: JsonValue) -> bool {
    v matches JsonValue::Object(es) && {
        &&& es@.len() == 5
        &&& text_entry(es@[0], "$class"@, metamodel_class("Model"@))
        &&& text_entry(es@[1], "namespace"@, "concerto@1.0.0"@)
        &&& es@[2].0@ == "imports"@
        &&& es@[2].1 matches JsonValue::Array(imps) && imps@.len() == 1 && is_root_import_json(imps@[0])
        &&& es@[3].0@ == "declarations"@
        &&& es@[3].1 matches JsonValue::Array(ds) && ds@.len() == 5
            && forall|i: int| 0 <= i < 5 ==> is_concept_json(#[trigger] ds@[i], root_declaration_name(i),
                if i == 1 || i == 2 { Some(metamodel_class("Identified"@)) } else { None })
        &&& es@[4].0@ == "decorators"@
        &&& es@[4].1 matches JsonValue::Array(decs) && decs@.len() == 1 && is_root_decorator_json(decs@[0])
    }
}

/// The lengths and leading characters that tell apart the member keys met in
/// the root model.
proof fn lemma_key_literals()
    ensures
        "$class"@.len() == 6,
        "name"@.len() == 4,
        "namespace"@.len() == 9,
        "imports"@.len() == 7,
        "declarations"@.len() == 12,
        "decorators"@.len() == 10,
        "isAbstract"@.len() == 10,
        "identified"@.len() == 10,
        "properties"@.len() == 10,
        "location"@.len() == 8,
        "superType"@.len() == 9,
        "uri"@.len() == 3,
        "decorators"@[0] == 'd',
        "isAbstract"@[0] == 'i',
        "identified"@[0] == 'i',
        "properties"@[0] == 'p',
        "isAbstract"@[1] == 's',
        "identified"@[1] == 'd',
        "ImportType"@.len() == 10,
        "ImportAll"@.len() == 9,
        "ConceptDeclaration"@.len() == 18,
        "EnumDeclaration"@.len() == 15,
{
    reveal_strlit("$class");
    reveal_strlit("name");
    reveal_strlit("namespace");
    reveal_strlit("imports");
    reveal_strlit("declarations");
    reveal_strlit("decorators");
    reveal_strlit("isAbstract");
    reveal_strlit("identified");
    reveal_strlit("properties");
    reveal_strlit("location");
    reveal_strlit("superType");
    reveal_strlit("uri");
    reveal_strlit("ImportType");
    reveal_strlit("ImportAll");
    reveal_strlit("ConceptDeclaration");
    reveal_strlit("EnumDeclaration");
}

/// The kind of a metamodel class is its suffix, for a suffix without a dot.
proof fn lemma_metamodel_kind(suffix: Seq<char>)
    requires
        forall|j: int| 0 <= j < suffix.len() ==> suffix[j] != '.',
    ensures
        short_name_of(metamodel_class(suffix)) == suffix,
{
    reveal_strlit("concerto.metamodel@1.0.0");
    reveal_strlit(".");
    assert("."@ =~= seq!['.']);
    law_split_of_qualified("concerto.metamodel@1.0.0"@, suffix);
}

/// The first member keyed `key` among at most five members is at `k`, given
/// the keys before `k` (or all keys, for -1) differ from `key`.
proof fn lemma_key_position(es: Seq<(String, JsonValue)>, key: Seq<char>, k: int)
    requires
        es.len() <= 5,
        -1 <= k < es.len(),
        k >= 0 ==> es[k].0@ == key,
        0 < es.len() && (k < 0 || 0 < k) ==> es[0].0@ != key,
        1 < es.len() && (k < 0 || 1 < k) ==> es[1].0@ != key,
        2 < es.len() && (k < 0 || 2 < k) ==> es[2].0@ != key,
        3 < es.len() && (k < 0 || 3 < k) ==> es[3].0@ != key,
        4 < es.len() && (k < 0 || 4 < k) ==> es[4].0@ != key,
    ensures
        first_key_index(es, key) == k,
{
    assert forall|j: int| 0 <= j < es.len() && (k < 0 || j < k) implies #[trigger] es[j].0@ != key by {
        if j == 0 {
        } else if j == 1 {
        } else if j == 2 {
        } else if j == 3 {
        } else {
        }
    }
    lemma_first_key_index_is(es, key, k);
}

/// The JSON form of a root concept is the JSON form of a declaration.
proof fn lemma_concept_accepted(d: JsonValue, name: Seq<char>, identified: Option<Seq<char>>)
    requires
        is_concept_json(d, name, identified),
    ensures
        declaration_accepts(d),
{
    lemma_key_literals();
    reveal_strlit("ConceptDeclaration");
    assert forall|j: int| 0 <= j < "ConceptDeclaration"@.len() implies "ConceptDeclaration"@[j] != '.' by {}
    lemma_metamodel_kind("ConceptDeclaration"@);
    match d {
        JsonValue::Object(entries) => {
            let es = entries@;
            let n: int = if identified is Some { 5 } else { 4 };
            lemma_key_position(es, "$class"@, 0);
            lemma_key_position(es, "name"@, 1);
            lemma_key_position(es, "isAbstract"@, 2);
            lemma_key_position(es, "properties"@, n - 1);
            lemma_key_position(es, "decorators"@, -1);
            lemma_key_position(es, "location"@, -1);
            lemma_key_position(es, "superType"@, -1);
            match identified {
                Some(c) => {
                    lemma_key_position(es, "identified"@, 3);
                    match es[3].1 {
                        JsonValue::Object(ies) => lemma_key_position(ies@, "$class"@, 0),
                        _ => {},
                    }
                },
                None => lemma_key_position(es, "identified"@, -1),
            }
        },
        _ => {},
    }
}

/// The root model's JSON form is the JSON form of a model, in the namespace
/// `concerto@1.0.0`.
pub proof fn lemma_root_model_accepted(v: JsonValue)
    requires
        is_root_model_json(v),
    ensures
        model_accepts(v),
        v.member_text("namespace"@) == Some("concerto@1.0.0"@),
{
    lemma_key_literals();
    reveal_strlit("concerto@1.0.0");
    reveal_with_fuel(count_of, 16);
    assert(count_of("concerto@1.0.0"@, '@') == 1);
    assert(parsed_namespace("concerto@1.0.0"@) is Ok);
    match v {
        JsonValue::Object(entries) => {
            let es = entries@;
            lemma_key_position(es, "namespace"@, 1);
            lemma_key_position(es, "imports"@, 2);
            lemma_key_position(es, "declarations"@, 3);
            match es[2].1 {
                JsonValue::Array(imps) => {
                    let imp = imps@[0];
                    reveal_strlit("ImportType");
                    assert forall|j: int| 0 <= j < "ImportType"@.len() implies "ImportType"@[j] != '.' by {}
                    lemma_metamodel_kind("ImportType"@);
                    match imp {
                        JsonValue::Object(ients) => {
                            lemma_key_position(ients@, "$class"@, 0);
                            lemma_key_position(ients@, "name"@, 1);
                            lemma_key_position(ients@, "namespace"@, 2);
                            lemma_key_position(ients@, "uri"@, -1);
                        },
                        _ => {},
                    }
                    assert(import_accepts(imp));
                },
                _ => {},
            }
            match es[3].1 {
                JsonValue::Array(ds) => {
                    assert forall|i: int| 0 <= i < ds@.len() implies #[trigger] declaration_accepts(ds@[i]) by {
                        lemma_concept_accepted(ds@[i], root_declaration_name(i),
                            if i == 1 || i == 2 { Some(metamodel_class("Identified"@)) } else { None });
                    }
                },
                _ => {},
            }
        },
        _ => {},
    }
}

/// The `$class` of the metamodel type `suffix`.
fn class(suffix: &str) -> (r: String)
    ensures
        r@ == metamodel_class(suffix@),
{
    concat3("concerto.metamodel@1.0.0", ".", suffix)
}

/// The member `key` with the string `value`.
fn text_member(key: &str, value: String) -> (r: (String, JsonValue))
    ensures
        text_entry(r, key@, value@),
{
    (owned(key), JsonValue::String(value))
}

/// The JSON form of an abstract concept declaration without properties.
fn concept_declaration(name: &str, identified: Option<Identified>) -> (r: JsonValue)
    ensures
        is_concept_json(r, name@, match identified { Some(i) => Some(i.class@), None => None }),
{
    let mut es: Vec<(String, JsonValue)> = Vec::new();
    es.push(text_member("$class", class("ConceptDeclaration")));
    es.push(text_member("name", owned(name)));
    es.push((owned("isAbstract"), JsonValue::Bool(true)));
    match identified {
        Some(i) => {
            let mut ies: Vec<(String, JsonValue)> = Vec::new();
            ies.push(text_member("$class", i.class));
            es.push((owned("identified"), JsonValue::Object(ies)));
        },
        None => {},
    }
    es.push((owned("properties"), JsonValue::Array(Vec::new())));
    JsonValue::Object(es)
}

/// Returns the root model AST as a JSON value.
pub fn root_model_ast() -> (r: JsonValue)
    ensures
        is_root_model_json(r),
{
    let identified = Identified { class: class("Identified") };
    let identified2 = Identified { class: class("Identified") };

    let mut import: Vec<(String, JsonValue)> = Vec::new();
    import.push(text_member("$class", class("ImportType")));
    import.push(text_member("name", owned("DotNetNamespace")));
    import.push(text_member("namespace", owned("concerto.decorator@1.0.0")));
    let mut imports: Vec<JsonValue> = Vec::new();
    imports.push(JsonValue::Object(import));

    let mut declarations: Vec<JsonValue> = Vec::new();
    declarations.push(concept_declaration("Concept", None));
    declarations.push(concept_declaration("Asset", Some(identified)));
    declarations.push(concept_declaration("Participant", Some(identified2)));
    declarations.push(concept_declaration("Transaction", None));
    declarations.push(concept_declaration("Event", None));

    let mut argument: Vec<(String, JsonValue)> = Vec::new();
    argument.push(text_member("$class", class("DecoratorString")));
    argument.push(text_member("value", owned("AccordProject.Concerto")));
    let mut arguments: Vec<JsonValue> = Vec::new();
    arguments.push(JsonValue::Object(argument));
    let mut decorator: Vec<(String, JsonValue)> = Vec::new();
    decorator.push(text_member("$class", class("Decorator")));
    decorator.push(text_member("name", owned("DotNetNamespace")));
    decorator.push((owned("arguments"), JsonValue::Array(arguments)));
    let mut decorators: Vec<JsonValue> = Vec::new();
    decorators.push(JsonValue::Object(decorator));

    let mut model: Vec<(String, JsonValue)> = Vec::new();
    model.push(text_member("$class", class("Model")));
    model.push(text_member("namespace", owned("concerto@1.0.0")));
    model.push((owned("imports"), JsonValue::Array(imports)));
    model.push((owned("declarations"), JsonValue::Array(declarations)));
    model.push((owned("decorators"), JsonValue::Array(decorators)));
    JsonValue::Object(model)
}

} // verus!
