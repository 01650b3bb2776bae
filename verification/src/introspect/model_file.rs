//! A parsed model file with its declarations and imports.
use vstd::prelude::*;
use crate::error::{ConcertoError, ErrorView, illegal, illegal_model, opt_text, with_file_name, clone_opt_string};
use crate::json::JsonValue;
use crate::model_util::{fully_qualified_name, is_primitive_name, is_primitive_type, parse_namespace,
    parsed_namespace, qualified};
use crate::text::{owned, str_eq, str_starts_with, starts_with_seq};
use super::declarations::{AssetDeclaration, ClassDeclaration, ConceptDeclaration, Declaration,
    EnumDeclaration, EventDeclaration, MapDeclaration, ParticipantDeclaration, ScalarDeclaration,
    TransactionDeclaration, declaration_accepts, declaration_error};
use super::imports::{ImportDecl, import_accepts, import_error};
use super::traits::Named;

verus! {

/// A parsed model file with resolved declarations and imports.
#[derive(Debug, Clone)]
pub struct ModelFile {
    namespace: String,
    version: Option<String>,
    declarations: Vec<Declaration>,
    imports: Vec<ImportDecl>,
    file_name: Option<String>,
    is_external: bool,
}

/// What a model file holds.
pub struct ModelFileView {
    pub namespace: Seq<char>,
    pub version: Option<Seq<char>>,
    pub declarations: Seq<Declaration>,
    pub imports: Seq<ImportDecl>,
    pub file_name: Option<Seq<char>>,
    pub is_external: bool,
}

impl View for ModelFile {
    type V = ModelFileView;

    closed spec fn view(&self) -> ModelFileView {
        ModelFileView {
            namespace: self.namespace@,
            version: opt_text(self.version),
            declarations: self.declarations@,
            imports: self.imports@,
            file_name: opt_text(self.file_name),
            is_external: self.is_external,
        }
    }
}

/// `imports` is missing, not an array, or an array of JSON forms of imports.
pub open spec fn imports_accepted(v: JsonValue) -> bool {
    match v.member("imports"@) {
        Some(JsonValue::Array(items)) => forall|i: int| 0 <= i < items@.len() ==> #[trigger] import_accepts(items@[i]),
        _ => true,
    }
}

/// `is` are the imports read from `v`; none without an `imports` array.
pub open spec fn imports_read(is: Seq<ImportDecl>, v: JsonValue) -> bool {
    match v.member("imports"@) {
        Some(JsonValue::Array(items)) => is.len() == items@.len()
            && forall|i: int| 0 <= i < items@.len() ==> #[trigger] is[i].read_from(items@[i]),
        _ => is.len() == 0,
    }
}

/// The error of the first import that is not the form of an import.
pub open spec fn imports_error(v: JsonValue, e: ErrorView) -> bool {
    match v.member("imports"@) {
        Some(JsonValue::Array(items)) => exists|i: int| 0 <= i < items@.len()
            && !import_accepts(#[trigger] items@[i])
            && (forall|j: int| 0 <= j < i ==> import_accepts(items@[j]))
            && import_error(items@[i], e),
        _ => false,
    }
}

/// `declarations` is missing, not an array, or an array of JSON forms of declarations.
pub open spec fn declarations_accepted(v: JsonValue) -> bool {
    match v.member("declarations"@) {
        Some(JsonValue::Array(items)) => forall|i: int| 0 <= i < items@.len() ==> #[trigger] declaration_accepts(items@[i]),
        _ => true,
    }
}

/// `ds` are the declarations read from `v`; none without a `declarations` array.
pub open spec fn declarations_read(ds: Seq<Declaration>, v: JsonValue) -> bool {
    match v.member("declarations"@) {
        Some(JsonValue::Array(items)) => ds.len() == items@.len()
            && forall|i: int| 0 <= i < items@.len() ==> #[trigger] ds[i].read_from(items@[i]),
        _ => ds.len() == 0,
    }
}

/// The error of the first declaration that is not the form of a declaration.
pub open spec fn declarations_error(v: JsonValue, e: ErrorView) -> bool {
    match v.member("declarations"@) {
        Some(JsonValue::Array(items)) => exists|i: int| 0 <= i < items@.len()
            && !declaration_accepts(#[trigger] items@[i])
            && (forall|j: int| 0 <= j < i ==> declaration_accepts(items@[j]))
            && declaration_error(items@[i], e),
        _ => false,
    }
}

/// The JSON form of a model: a `namespace` string with at most one `@`, and
/// imports and declarations that are all well formed.
pub open spec fn model_accepts(v: JsonValue) -> bool {
    &&& v.member_text("namespace"@) is Some
    &&& parsed_namespace(v.member_text("namespace"@)->Some_0) is Ok
    &&& imports_accepted(v)
    &&& declarations_accepted(v)
}

/// `m` is the model file read from `v` under `file_name`.
pub open spec fn model_read(m: ModelFileView, v: JsonValue, file_name: Option<Seq<char>>) -> bool {
    &&& v.member_text("namespace"@) == Some(m.namespace)
    &&& parsed_namespace(m.namespace) matches Ok((_, version)) && m.version == version
    &&& m.file_name == file_name
    &&& m.is_external == (v.member_text("sourceUri"@) is Some)
    &&& imports_read(m.imports, v)
    &&& declarations_read(m.declarations, v)
}

/// The error for a JSON value that is not the form of a model.
pub open spec fn model_error(v: JsonValue, file_name: Option<Seq<char>>, e: ErrorView) -> bool {
    if v.member_text("namespace"@) is None {
        e == illegal("Model missing 'namespace'"@, file_name)
    } else if parsed_namespace(v.member_text("namespace"@)->Some_0) is Err {
        parsed_namespace(v.member_text("namespace"@)->Some_0) == Err::<(Seq<char>, Option<Seq<char>>), ErrorView>(e)
    } else if !imports_accepted(v) {
        imports_error(v, e)
    } else {
        exists|e0: ErrorView| declarations_error(v, e0) && e == with_file_name(e0, file_name)
    }
}

/// Position of the last declaration named `name`, or -1.
pub open spec fn last_named(ds: Seq<Declaration>, name: Seq<char>) -> int
    decreases ds.len(),
{
    if ds.len() == 0 {
        -1
    } else if ds.last().spec_name() == name {
        ds.len() - 1
    } else {
        last_named(ds.drop_last(), name)
    }
}

pub proof fn lemma_last_named(ds: Seq<Declaration>, name: Seq<char>)
    ensures
        -1 <= last_named(ds, name) < ds.len(),
        last_named(ds, name) >= 0 ==> ds[last_named(ds, name)].spec_name() == name,
        forall|j: int| last_named(ds, name) < j < ds.len() ==> #[trigger] ds[j].spec_name() != name,
    decreases ds.len(),
{
    if ds.len() > 0 && ds.last().spec_name() != name {
        lemma_last_named(ds.drop_last(), name);
        assert forall|j: int| last_named(ds, name) < j < ds.len() implies #[trigger] ds[j].spec_name() != name by {
            if j < ds.len() - 1 {
                assert(ds[j] == ds.drop_last()[j]);
            }
        }
    }
}

proof fn lemma_last_named_is(ds: Seq<Declaration>, name: Seq<char>, k: int)
    requires
        -1 <= k < ds.len(),
        k >= 0 ==> ds[k].spec_name() == name,
        forall|j: int| k < j < ds.len() ==> #[trigger] ds[j].spec_name() != name,
    ensures
        last_named(ds, name) == k,
    decreases ds.len(),
{
    if ds.len() > 0 && k < ds.len() - 1 {
        assert forall|j: int| k < j < ds.len() - 1 implies #[trigger] ds.drop_last()[j].spec_name() != name by {
            assert(ds.drop_last()[j] == ds[j]);
        }
        lemma_last_named_is(ds.drop_last(), name, k);
    }
}

/// Position of the first alias named `name`, or -1.
pub open spec fn first_alias(aliases: Seq<crate::metamodel::AliasedType>, name: Seq<char>) -> int
    decreases aliases.len(),
{
    if aliases.len() == 0 {
        -1
    } else if aliases[0].name@ == name {
        0
    } else {
        let r = first_alias(aliases.drop_first(), name);
        if r < 0 { -1 } else { r + 1 }
    }
}

/// The fully-qualified name that one import gives `name`, if any.
pub open spec fn import_resolves(imp: ImportDecl, name: Seq<char>) -> Option<Seq<char>> {
    match imp {
        ImportDecl::Type(t) => if t.name@ == name { Some(qualified(t.namespace@, t.name@)) } else { None },
        ImportDecl::Types(t) => {
            if exists|j: int| 0 <= j < t.types@.len() && #[trigger] t.types@[j]@ == name {
                Some(qualified(t.namespace@, name))
            } else {
                match t.aliased_types {
                    Some(al) => {
                        let k = first_alias(al@, name);
                        if k >= 0 { Some(qualified(t.namespace@, al@[k].aliased_name@)) } else { None }
                    },
                    None => None,
                }
            }
        },
        ImportDecl::All(_) => None,
    }
}

/// The fully-qualified name that the first import able to resolve `name` gives it.
pub open spec fn resolve_in_imports(imps: Seq<ImportDecl>, name: Seq<char>) -> Option<Seq<char>>
    decreases imps.len(),
{
    if imps.len() == 0 {
        None
    } else {
        match import_resolves(imps[0], name) {
            Some(f) => Some(f),
            None => resolve_in_imports(imps.drop_first(), name),
        }
    }
}

/// An import of one type resolves that type's name into the import's namespace;
/// an import of a list of types resolves every name of the list, wherever it
/// stands, into the import's namespace; an import of a whole namespace resolves
/// no short name.
pub proof fn law_import_resolves_listed_names(imp: ImportDecl, name: Seq<char>)
    ensures
        imp matches ImportDecl::Type(t) ==>
            import_resolves(imp, t.name@) == Some(qualified(t.namespace@, t.name@)),
        imp matches ImportDecl::Type(t) && name != t.name@ ==> import_resolves(imp, name) is None,
        imp matches ImportDecl::Types(t) ==> forall|j: int| 0 <= j < t.types@.len()
            ==> import_resolves(imp, #[trigger] t.types@[j]@) == Some(qualified(t.namespace@, t.types@[j]@)),
        imp matches ImportDecl::Types(t) && (t.aliased_types is None
            || forall|k: int| 0 <= k < t.aliased_types->Some_0@.len() ==> (#[trigger] t.aliased_types->Some_0@[k]).name@ != name)
            && (forall|j: int| 0 <= j < t.types@.len() ==> (#[trigger] t.types@[j])@ != name)
            ==> import_resolves(imp, name) is None,
        imp is All ==> import_resolves(imp, name) is None,
{
    match imp {
        ImportDecl::Types(t) => {
            assert forall|j: int| 0 <= j < t.types@.len()
                implies import_resolves(imp, #[trigger] t.types@[j]@) == Some(qualified(t.namespace@, t.types@[j]@)) by {
                assert(t.types@[j]@ == t.types@[j]@);
            }
            if let Some(al) = t.aliased_types {
                if forall|k: int| 0 <= k < al@.len() ==> (#[trigger] al@[k]).name@ != name {
                    lemma_first_alias_absent(al@, name);
                }
            }
        },
        _ => {},
    }
}

proof fn lemma_first_alias_absent(aliases: Seq<crate::metamodel::AliasedType>, name: Seq<char>)
    requires
        forall|k: int| 0 <= k < aliases.len() ==> (#[trigger] aliases[k]).name@ != name,
    ensures
        first_alias(aliases, name) < 0,
    decreases aliases.len(),
{
    if aliases.len() > 0 {
        assert(aliases[0].name@ != name);
        assert forall|k: int| 0 <= k < aliases.drop_first().len() implies (#[trigger] aliases.drop_first()[k]).name@ != name by {
            assert(aliases.drop_first()[k] == aliases[k + 1]);
        }
        lemma_first_alias_absent(aliases.drop_first(), name);
    }
}

proof fn lemma_resolve_in_imports(imps: Seq<ImportDecl>, name: Seq<char>)
    ensures
        (forall|i: int| 0 <= i < imps.len() ==> #[trigger] import_resolves(imps[i], name) is None)
            ==> resolve_in_imports(imps, name) is None,
        forall|i: int| 0 <= i < imps.len() && #[trigger] import_resolves(imps[i], name) is Some
            && (forall|j: int| 0 <= j < i ==> import_resolves(imps[j], name) is None)
            ==> resolve_in_imports(imps, name) == import_resolves(imps[i], name),
    decreases imps.len(),
{
    if imps.len() > 0 {
        let rest = imps.drop_first();
        lemma_resolve_in_imports(rest, name);
        if forall|i: int| 0 <= i < imps.len() ==> #[trigger] import_resolves(imps[i], name) is None {
            assert forall|i: int| 0 <= i < rest.len() implies #[trigger] import_resolves(rest[i], name) is None by {
                assert(rest[i] == imps[i + 1]);
            }
        }
        assert forall|i: int| 0 <= i < imps.len() && #[trigger] import_resolves(imps[i], name) is Some
            && (forall|j: int| 0 <= j < i ==> import_resolves(imps[j], name) is None)
            implies resolve_in_imports(imps, name) == import_resolves(imps[i], name) by {
            if i > 0 {
                assert(import_resolves(imps[0], name) is None);
                assert(rest[i - 1] == imps[i]);
                assert forall|j: int| 0 <= j < i - 1 implies import_resolves(rest[j], name) is None by {
                    assert(rest[j] == imps[j + 1]);
                }
            }
        }
    }
}

/// How a short type name resolves in a model file: a primitive type stands for
/// itself; otherwise a local type, which beats any import, takes the file's
/// namespace; otherwise the first import that names it, by its type, its list
/// of types or an alias, decides; and with no such import the type is not found.
pub proof fn law_type_name_resolution(m: ModelFileView, name: Seq<char>)
    ensures
        is_primitive_name(name) ==> resolve_short_name(m, name) == Ok::<Seq<char>, ErrorView>(name),
        !is_primitive_name(name) && last_named(m.declarations, name) >= 0
            ==> resolve_short_name(m, name) == Ok::<Seq<char>, ErrorView>(qualified(m.namespace, name)),
        forall|i: int| #![trigger import_resolves(m.imports[i], name)]
            !is_primitive_name(name) && last_named(m.declarations, name) < 0
            && 0 <= i < m.imports.len() && import_resolves(m.imports[i], name) is Some
            && (forall|j: int| 0 <= j < i ==> import_resolves(m.imports[j], name) is None)
            ==> resolve_short_name(m, name) == Ok::<Seq<char>, ErrorView>(import_resolves(m.imports[i], name)->Some_0),
        !is_primitive_name(name) && last_named(m.declarations, name) < 0
            && (forall|i: int| 0 <= i < m.imports.len() ==> #[trigger] import_resolves(m.imports[i], name) is None)
            ==> resolve_short_name(m, name) == Err::<Seq<char>, ErrorView>(ErrorView::TypeNotFound { name }),
{
    lemma_resolve_in_imports(m.imports, name);
}

/// What `fully_qualified_type_name` gives for `name` in `m`: a primitive type
/// stands for itself, a local type takes the namespace, an imported type the
/// name its import gives it.
pub open spec fn resolve_short_name(m: ModelFileView, name: Seq<char>) -> Result<Seq<char>, ErrorView> {
    if is_primitive_name(name) {
        Ok(name)
    } else if last_named(m.declarations, name) >= 0 {
        Ok(qualified(m.namespace, name))
    } else {
        match resolve_in_imports(m.imports, name) {
            Some(f) => Ok(f),
            None => Err(ErrorView::TypeNotFound { name }),
        }
    }
}

/// The class declarations among `ds`, in order.
pub open spec fn class_decls_of(ds: Seq<Declaration>) -> Seq<ClassDeclaration>
    decreases ds.len(),
{
    if ds.len() == 0 {
        Seq::empty()
    } else {
        class_decls_of(ds.drop_last()) + match ds.last() {
            Declaration::Class(c) => seq![c],
            _ => Seq::empty(),
        }
    }
}

/// The class declarations of a list of declarations are those of its
/// declarations that are classes, of every class kind (enums included), each
/// once and in the order of the list; nothing else is among them.
pub proof fn law_class_decls_are_the_classes(ds: Seq<Declaration>)
    ensures
        class_decls_of(ds) == ds.filter_map(|d: Declaration| match d {
            Declaration::Class(c) => Some(c),
            _ => None,
        }),
        forall|j: int| 0 <= j < ds.len() && (#[trigger] ds[j] matches Declaration::Class(c))
            ==> class_decls_of(ds).contains(ds[j]->Class_0),
        forall|k: int| 0 <= k < class_decls_of(ds).len()
            ==> ds.contains(Declaration::Class(#[trigger] class_decls_of(ds)[k])),
    decreases ds.len(),
{
    if ds.len() > 0 {
        let rest = ds.drop_last();
        law_class_decls_are_the_classes(rest);
        let out = class_decls_of(ds);
        let prev = class_decls_of(rest);
        assert forall|j: int| 0 <= j < ds.len() && (#[trigger] ds[j] matches Declaration::Class(c))
            implies out.contains(ds[j]->Class_0) by {
            if j < ds.len() - 1 {
                assert(rest[j] == ds[j]);
                let i = choose|i: int| 0 <= i < prev.len() && prev[i] == ds[j]->Class_0;
                assert(out[i] == prev[i]);
            } else {
                assert(out[out.len() - 1] == ds[j]->Class_0);
            }
        }
        assert forall|k: int| 0 <= k < out.len() implies ds.contains(Declaration::Class(#[trigger] out[k])) by {
            if k < prev.len() {
                assert(out[k] == prev[k]);
                let i = choose|i: int| 0 <= i < rest.len() && rest[i] == Declaration::Class(prev[k]);
                assert(ds[i] == rest[i]);
            } else {
                assert(ds[ds.len() - 1] == Declaration::Class(out[k]));
            }
        }
    }
}

/// The scalar declarations among `ds`, in order.
pub open spec fn scalar_decls_of(ds: Seq<Declaration>) -> Seq<ScalarDeclaration>
    decreases ds.len(),
{
    if ds.len() == 0 {
        Seq::empty()
    } else {
        scalar_decls_of(ds.drop_last()) + match ds.last() {
            Declaration::Scalar(c) => seq![c],
            _ => Seq::empty(),
        }
    }
}

/// The map declarations among `ds`, in order.
pub open spec fn map_decls_of(ds: Seq<Declaration>) -> Seq<MapDeclaration>
    decreases ds.len(),
{
    if ds.len() == 0 {
        Seq::empty()
    } else {
        map_decls_of(ds.drop_last()) + match ds.last() {
            Declaration::MapDecl(c) => seq![c],
            _ => Seq::empty(),
        }
    }
}

/// The concept declarations among `ds`, in order.
pub open spec fn concept_decls_of(ds: Seq<Declaration>) -> Seq<ConceptDeclaration>
    decreases ds.len(),
{
    if ds.len() == 0 {
        Seq::empty()
    } else {
        concept_decls_of(ds.drop_last()) + match ds.last() {
            Declaration::Class(ClassDeclaration::Concept(c)) => seq![c],
            _ => Seq::empty(),
        }
    }
}

/// The asset declarations among `ds`, in order.
pub open spec fn asset_decls_of(ds: Seq<Declaration>) -> Seq<AssetDeclaration>
    decreases ds.len(),
{
    if ds.len() == 0 {
        Seq::empty()
    } else {
        asset_decls_of(ds.drop_last()) + match ds.last() {
            Declaration::Class(ClassDeclaration::Asset(c)) => seq![c],
            _ => Seq::empty(),
        }
    }
}

/// The participant declarations among `ds`, in order.
pub open spec fn participant_decls_of(ds: Seq<Declaration>) -> Seq<ParticipantDeclaration>
    decreases ds.len(),
{
    if ds.len() == 0 {
        Seq::empty()
    } else {
        participant_decls_of(ds.drop_last()) + match ds.last() {
            Declaration::Class(ClassDeclaration::Participant(c)) => seq![c],
            _ => Seq::empty(),
        }
    }
}

/// The transaction declarations among `ds`, in order.
pub open spec fn transaction_decls_of(ds: Seq<Declaration>) -> Seq<TransactionDeclaration>
    decreases ds.len(),
{
    if ds.len() == 0 {
        Seq::empty()
    } else {
        transaction_decls_of(ds.drop_last()) + match ds.last() {
            Declaration::Class(ClassDeclaration::Transaction(c)) => seq![c],
            _ => Seq::empty(),
        }
    }
}

/// The event declarations among `ds`, in order.
pub open spec fn event_decls_of(ds: Seq<Declaration>) -> Seq<EventDeclaration>
    decreases ds.len(),
{
    if ds.len() == 0 {
        Seq::empty()
    } else {
        event_decls_of(ds.drop_last()) + match ds.last() {
            Declaration::Class(ClassDeclaration::Event(c)) => seq![c],
            _ => Seq::empty(),
        }
    }
}

/// The enum declarations among `ds`, in order.
pub open spec fn enum_decls_of(ds: Seq<Declaration>) -> Seq<EnumDeclaration>
    decreases ds.len(),
{
    if ds.len() == 0 {
        Seq::empty()
    } else {
        enum_decls_of(ds.drop_last()) + match ds.last() {
            Declaration::Class(ClassDeclaration::Enum(c)) => seq![c],
            _ => Seq::empty(),
        }
    }
}

impl ModelFile {
    /// Build a [`ModelFile`] from the JSON form of a `concerto.metamodel@1.0.0.Model`.
    pub fn from_json(json: &JsonValue, file_name: Option<String>) -> (r: Result<ModelFile, ConcertoError>)
        ensures
            r is Ok <==> model_accepts(*json),
            r matches Ok(m) ==> model_read(m@, *json, opt_text(file_name)),
            r matches Err(e) ==> model_error(*json, opt_text(file_name), e@),
    {
        let namespace = match json.get("namespace") {
            Some(v) => match v.as_str() {
                Some(s) => owned(s),
                None => {
                    proof { reveal_strlit("Model missing 'namespace'"); }
                    return Err(illegal_model(owned("Model missing 'namespace'"), file_name));
                },
            },
            None => {
                return Err(illegal_model(owned("Model missing 'namespace'"), file_name));
            },
        };
        let parsed_ns = parse_namespace(namespace.as_str())?;
        let is_external = match json.get("sourceUri") {
            Some(v) => v.as_str().is_some(),
            None => false,
        };

        // imports
        let mut imports: Vec<ImportDecl> = Vec::new();
        match json.get("imports") {
            Some(JsonValue::Array(items)) => {
                let mut i: usize = 0;
                while i < items.len()
                    invariant
                        json.member("imports"@) == Some(JsonValue::Array(*items)),
                        json.member_text("namespace"@) == Some(namespace@),
                        parsed_namespace(namespace@) is Ok,
                        i <= items@.len(),
                        imports@.len() == i,
                        forall|j: int| 0 <= j < i ==> #[trigger] import_accepts(items@[j]),
                        forall|j: int| 0 <= j < i ==> #[trigger] imports@[j].read_from(items@[j]),
                    decreases items@.len() - i,
                {
                    match ImportDecl::try_from(&items[i]) {
                        Ok(imp) => imports.push(imp),
                        Err(e) => {
                            proof {
                                let k = i as int;
                                assert(imports_accepted(*json) ==> import_accepts(items@[k])) by {
                                    if imports_accepted(*json) {
                                        match json.member("imports"@) {
                                            Some(JsonValue::Array(its)) => {
                                                assert(its@ == items@);
                                                assert(import_accepts(its@[k]));
                                            },
                                            _ => {},
                                        }
                                    }
                                }
                                assert(0 <= k < items@.len() && !import_accepts(items@[k])
                                    && (forall|j: int| 0 <= j < k ==> import_accepts(items@[j]))
                                    && import_error(items@[k], e@));
                                assert(imports_error(*json, e@));
                            }
                            return Err(e);
                        },
                    }
                    i = i + 1;
                }
            },
            _ => {},
        }

        // declarations
        let mut declarations: Vec<Declaration> = Vec::new();
        match json.get("declarations") {
            Some(JsonValue::Array(items)) => {
                let mut i: usize = 0;
                while i < items.len()
                    invariant
                        json.member("declarations"@) == Some(JsonValue::Array(*items)),
                        json.member_text("namespace"@) == Some(namespace@),
                        parsed_namespace(namespace@) is Ok,
                        imports_accepted(*json),
                        i <= items@.len(),
                        declarations@.len() == i,
                        forall|j: int| 0 <= j < i ==> #[trigger] declaration_accepts(items@[j]),
                        forall|j: int| 0 <= j < i ==> #[trigger] declarations@[j].read_from(items@[j]),
                    decreases items@.len() - i,
                {
                    match Declaration::try_from(&items[i]) {
                        Ok(d) => declarations.push(d),
                        Err(e) => {
                            let e2 = match e {
                                ConcertoError::IllegalModel { message, .. } =>
                                    ConcertoError::IllegalModel { message, file_name: clone_opt_string(&file_name), location: None },
                                other => other,
                            };
                            proof {
                                let k = i as int;
                                assert(declarations_accepted(*json) ==> declaration_accepts(items@[k])) by {
                                    if declarations_accepted(*json) {
                                        match json.member("declarations"@) {
                                            Some(JsonValue::Array(its)) => {
                                                assert(its@ == items@);
                                                assert(declaration_accepts(its@[k]));
                                            },
                                            _ => {},
                                        }
                                    }
                                }
                                assert(0 <= k < items@.len() && !declaration_accepts(items@[k])
                                    && (forall|j: int| 0 <= j < k ==> declaration_accepts(items@[j]))
                                    && declaration_error(items@[k], e@));
                                assert(declarations_error(*json, e@));
                                assert(e2@ == with_file_name(e@, opt_text(file_name)));
                            }
                            return Err(e2);
                        },
                    }
                    i = i + 1;
                }
            },
            _ => {
                proof {
                    match json.member("imports"@) {
                        Some(JsonValue::Array(its)) => {},
                        _ => {},
                    }
                }
                return Ok(ModelFile::new_empty(namespace, parsed_ns.version, file_name, is_external, imports));
            },
        }
        let r = ModelFile {
            namespace,
            version: parsed_ns.version,
            declarations,
            imports,
            file_name,
            is_external,
        };
        proof {
            match json.member("imports"@) {
                Some(JsonValue::Array(its)) => {},
                _ => {},
            }
        }
        Ok(r)
    }

    /// A model file without declarations.
    fn new_empty(namespace: String, version: Option<String>, file_name: Option<String>, is_external: bool,
        imports: Vec<ImportDecl>) -> (r: ModelFile)
        ensures
            r@ == (ModelFileView {
                namespace: namespace@,
                version: opt_text(version),
                declarations: Seq::empty(),
                imports: imports@,
                file_name: opt_text(file_name),
                is_external,
            }),
    {
        ModelFile { namespace, version, declarations: Vec::new(), imports, file_name, is_external }
    }

    pub fn namespace(&self) -> (r: &str)
        ensures
            r@ == self@.namespace,
    {
        self.namespace.as_str()
    }

    pub fn version(&self) -> (r: Option<&str>)
        ensures
            match r {
                Some(s) => self@.version == Some(s@),
                None => self@.version is None,
            },
    {
        match &self.version {
            Some(s) => Some(s.as_str()),
            None => None,
        }
    }

    pub fn file_name(&self) -> (r: Option<&str>)
        ensures
            match r {
                Some(s) => self@.file_name == Some(s@),
                None => self@.file_name is None,
            },
    {
        match &self.file_name {
            Some(s) => Some(s.as_str()),
            None => None,
        }
    }

    pub fn is_external(&self) -> (r: bool)
        ensures
            r == self@.is_external,
    {
        self.is_external
    }

    pub fn all_declarations(&self) -> (r: &[Declaration])
        ensures
            r@ == self@.declarations,
    {
        self.declarations.as_slice()
    }

    pub fn imports(&self) -> (r: &[ImportDecl])
        ensures
            r@ == self@.imports,
    {
        self.imports.as_slice()
    }

    /// The declaration named `name`; the last one when several have that name.
    pub fn get_local_type(&self, name: &str) -> (r: Option<&Declaration>)
        ensures
            match r {
                Some(d) => last_named(self@.declarations, name@) >= 0
                    && *d == self@.declarations[last_named(self@.declarations, name@)],
                None => last_named(self@.declarations, name@) < 0,
            },
    {
        let mut i: usize = self.declarations.len();
        while i > 0
            invariant
                i <= self.declarations@.len(),
                forall|j: int| i <= j < self.declarations@.len() ==> #[trigger] self.declarations@[j].spec_name() != name@,
            decreases i,
        {
            if str_eq(self.declarations[i - 1].name(), name) {
                proof { lemma_last_named_is(self.declarations@, name@, i - 1); }
                return Some(&self.declarations[i - 1]);
            }
            i = i - 1;
        }
        proof { lemma_last_named_is(self.declarations@, name@, -1); }
        None
    }

    /// Position of the declaration named `name`; the last one when several have that name.
    pub(crate) fn local_type_index(&self, name: &str) -> (r: Option<usize>)
        ensures
            match r {
                Some(k) => k < self@.declarations.len() && k as int == last_named(self@.declarations, name@),
                None => last_named(self@.declarations, name@) < 0,
            },
    {
        let mut i: usize = self.declarations.len();
        while i > 0
            invariant
                i <= self.declarations@.len(),
                forall|j: int| i <= j < self.declarations@.len() ==> #[trigger] self.declarations@[j].spec_name() != name@,
            decreases i,
        {
            if str_eq(self.declarations[i - 1].name(), name) {
                proof { lemma_last_named_is(self.declarations@, name@, i - 1); }
                return Some(i - 1);
            }
            i = i - 1;
        }
        proof { lemma_last_named_is(self.declarations@, name@, -1); }
        None
    }

    /// Resolve a short type name to its fully-qualified name, checking
    /// local types first, then imports.
    pub fn fully_qualified_type_name(&self, short_name: &str) -> (r: Result<String, ConcertoError>)
        ensures
            match (r, resolve_short_name(self@, short_name@)) {
                (Ok(s), Ok(f)) => s@ == f,
                (Err(e), Err(ev)) => e@ == ev,
                _ => false,
            },
    {
        if is_primitive_type(short_name) {
            return Ok(owned(short_name));
        }
        if self.get_local_type(short_name).is_some() {
            return Ok(fully_qualified_name(self.namespace.as_str(), short_name));
        }
        let mut i: usize = 0;
        assert(self.imports@.subrange(0, self.imports@.len() as int) =~= self.imports@);
        while i < self.imports.len()
            invariant
                !is_primitive_name(short_name@),
                last_named(self@.declarations, short_name@) < 0,
                i <= self.imports@.len(),
                resolve_in_imports(self.imports@, short_name@)
                    == resolve_in_imports(self.imports@.subrange(i as int, self.imports@.len() as int), short_name@),
            decreases self.imports@.len() - i,
        {
            let ghost rest = self.imports@.subrange(i as int, self.imports@.len() as int);
            assert(rest[0] == self.imports@[i as int]);
            assert(rest.drop_first() =~= self.imports@.subrange(i + 1, self.imports@.len() as int));
            match import_resolution(&self.imports[i], short_name) {
                Some(f) => return Ok(f),
                None => {},
            }
            i = i + 1;
        }
        assert(self.imports@.subrange(i as int, self.imports@.len() as int) =~= Seq::<ImportDecl>::empty());
        Err(ConcertoError::TypeNotFound { name: owned(short_name) })
    }

    /// Returns `true` when this is the `concerto` system model.
    pub fn is_system_model_file(&self) -> (r: bool)
        ensures
            r == (starts_with_seq(self@.namespace, "concerto@"@) || self@.namespace == "concerto"@),
    {
        str_starts_with(self.namespace.as_str(), "concerto@") || str_eq(self.namespace.as_str(), "concerto")
    }

    pub fn class_declarations(&self) -> (r: Vec<&ClassDeclaration>)
        ensures
            r@.map_values(|c: &ClassDeclaration| *c) == class_decls_of(self@.declarations),
    {
        let mut r: Vec<&ClassDeclaration> = Vec::new();
        let mut i: usize = 0;
        while i < self.declarations.len()
            invariant
                i <= self.declarations@.len(),
                r@.map_values(|c: &ClassDeclaration| *c) == class_decls_of(self.declarations@.subrange(0, i as int)),
            decreases self.declarations@.len() - i,
        {
            let ghost before = r@;
            assert(self.declarations@.subrange(0, i + 1).drop_last() =~= self.declarations@.subrange(0, i as int));
            match &self.declarations[i] {
                Declaration::Class(c) => r.push(c),
                _ => {},
            }
            assert(r@.map_values(|c: &ClassDeclaration| *c) =~= class_decls_of(self.declarations@.subrange(0, i + 1)));
            i = i + 1;
        }
        assert(self.declarations@.subrange(0, i as int) =~= self.declarations@);
        r
    }

    pub fn scalar_declarations(&self) -> (r: Vec<&ScalarDeclaration>)
        ensures
            r@.map_values(|c: &ScalarDeclaration| *c) == scalar_decls_of(self@.declarations),
    {
        let mut r: Vec<&ScalarDeclaration> = Vec::new();
        let mut i: usize = 0;
        while i < self.declarations.len()
            invariant
                i <= self.declarations@.len(),
                r@.map_values(|c: &ScalarDeclaration| *c) == scalar_decls_of(self.declarations@.subrange(0, i as int)),
            decreases self.declarations@.len() - i,
        {
            assert(self.declarations@.subrange(0, i + 1).drop_last() =~= self.declarations@.subrange(0, i as int));
            match &self.declarations[i] {
                Declaration::Scalar(c) => r.push(c),
                _ => {},
            }
            assert(r@.map_values(|c: &ScalarDeclaration| *c) =~= scalar_decls_of(self.declarations@.subrange(0, i + 1)));
            i = i + 1;
        }
        assert(self.declarations@.subrange(0, i as int) =~= self.declarations@);
        r
    }

    pub fn map_declarations(&self) -> (r: Vec<&MapDeclaration>)
        ensures
            r@.map_values(|c: &MapDeclaration| *c) == map_decls_of(self@.declarations),
    {
        let mut r: Vec<&MapDeclaration> = Vec::new();
        let mut i: usize = 0;
        while i < self.declarations.len()
            invariant
                i <= self.declarations@.len(),
                r@.map_values(|c: &MapDeclaration| *c) == map_decls_of(self.declarations@.subrange(0, i as int)),
            decreases self.declarations@.len() - i,
        {
            assert(self.declarations@.subrange(0, i + 1).drop_last() =~= self.declarations@.subrange(0, i as int));
            match &self.declarations[i] {
                Declaration::MapDecl(c) => r.push(c),
                _ => {},
            }
            assert(r@.map_values(|c: &MapDeclaration| *c) =~= map_decls_of(self.declarations@.subrange(0, i + 1)));
            i = i + 1;
        }
        assert(self.declarations@.subrange(0, i as int) =~= self.declarations@);
        r
    }

    pub fn concept_declarations(&self) -> (r: Vec<&ConceptDeclaration>)
        ensures
            r@.map_values(|c: &ConceptDeclaration| *c) == concept_decls_of(self@.declarations),
    {
        let mut r: Vec<&ConceptDeclaration> = Vec::new();
        let mut i: usize = 0;
        while i < self.declarations.len()
            invariant
                i <= self.declarations@.len(),
                r@.map_values(|c: &ConceptDeclaration| *c) == concept_decls_of(self.declarations@.subrange(0, i as int)),
            decreases self.declarations@.len() - i,
        {
            assert(self.declarations@.subrange(0, i + 1).drop_last() =~= self.declarations@.subrange(0, i as int));
            match &self.declarations[i] {
                Declaration::Class(ClassDeclaration::Concept(c)) => r.push(c),
                _ => {},
            }
            assert(r@.map_values(|c: &ConceptDeclaration| *c) =~= concept_decls_of(self.declarations@.subrange(0, i + 1)));
            i = i + 1;
        }
        assert(self.declarations@.subrange(0, i as int) =~= self.declarations@);
        r
    }

    pub fn asset_declarations(&self) -> (r: Vec<&AssetDeclaration>)
        ensures
            r@.map_values(|c: &AssetDeclaration| *c) == asset_decls_of(self@.declarations),
    {
        let mut r: Vec<&AssetDeclaration> = Vec::new();
        let mut i: usize = 0;
        while i < self.declarations.len()
            invariant
                i <= self.declarations@.len(),
                r@.map_values(|c: &AssetDeclaration| *c) == asset_decls_of(self.declarations@.subrange(0, i as int)),
            decreases self.declarations@.len() - i,
        {
            assert(self.declarations@.subrange(0, i + 1).drop_last() =~= self.declarations@.subrange(0, i as int));
            match &self.declarations[i] {
                Declaration::Class(ClassDeclaration::Asset(c)) => r.push(c),
                _ => {},
            }
            assert(r@.map_values(|c: &AssetDeclaration| *c) =~= asset_decls_of(self.declarations@.subrange(0, i + 1)));
            i = i + 1;
        }
        assert(self.declarations@.subrange(0, i as int) =~= self.declarations@);
        r
    }

    pub fn participant_declarations(&self) -> (r: Vec<&ParticipantDeclaration>)
        ensures
            r@.map_values(|c: &ParticipantDeclaration| *c) == participant_decls_of(self@.declarations),
    {
        let mut r: Vec<&ParticipantDeclaration> = Vec::new();
        let mut i: usize = 0;
        while i < self.declarations.len()
            invariant
                i <= self.declarations@.len(),
                r@.map_values(|c: &ParticipantDeclaration| *c) == participant_decls_of(self.declarations@.subrange(0, i as int)),
            decreases self.declarations@.len() - i,
        {
            assert(self.declarations@.subrange(0, i + 1).drop_last() =~= self.declarations@.subrange(0, i as int));
            match &self.declarations[i] {
                Declaration::Class(ClassDeclaration::Participant(c)) => r.push(c),
                _ => {},
            }
            assert(r@.map_values(|c: &ParticipantDeclaration| *c) =~= participant_decls_of(self.declarations@.subrange(0, i + 1)));
            i = i + 1;
        }
        assert(self.declarations@.subrange(0, i as int) =~= self.declarations@);
        r
    }

    pub fn transaction_declarations(&self) -> (r: Vec<&TransactionDeclaration>)
        ensures
            r@.map_values(|c: &TransactionDeclaration| *c) == transaction_decls_of(self@.declarations),
    {
        let mut r: Vec<&TransactionDeclaration> = Vec::new();
        let mut i: usize = 0;
        while i < self.declarations.len()
            invariant
                i <= self.declarations@.len(),
                r@.map_values(|c: &TransactionDeclaration| *c) == transaction_decls_of(self.declarations@.subrange(0, i as int)),
            decreases self.declarations@.len() - i,
        {
            assert(self.declarations@.subrange(0, i + 1).drop_last() =~= self.declarations@.subrange(0, i as int));
            match &self.declarations[i] {
                Declaration::Class(ClassDeclaration::Transaction(c)) => r.push(c),
                _ => {},
            }
            assert(r@.map_values(|c: &TransactionDeclaration| *c) =~= transaction_decls_of(self.declarations@.subrange(0, i + 1)));
            i = i + 1;
        }
        assert(self.declarations@.subrange(0, i as int) =~= self.declarations@);
        r
    }

    pub fn event_declarations(&self) -> (r: Vec<&EventDeclaration>)
        ensures
            r@.map_values(|c: &EventDeclaration| *c) == event_decls_of(self@.declarations),
    {
        let mut r: Vec<&EventDeclaration> = Vec::new();
        let mut i: usize = 0;
        while i < self.declarations.len()
            invariant
                i <= self.declarations@.len(),
                r@.map_values(|c: &EventDeclaration| *c) == event_decls_of(self.declarations@.subrange(0, i as int)),
            decreases self.declarations@.len() - i,
        {
            assert(self.declarations@.subrange(0, i + 1).drop_last() =~= self.declarations@.subrange(0, i as int));
            match &self.declarations[i] {
                Declaration::Class(ClassDeclaration::Event(c)) => r.push(c),
                _ => {},
            }
            assert(r@.map_values(|c: &EventDeclaration| *c) =~= event_decls_of(self.declarations@.subrange(0, i + 1)));
            i = i + 1;
        }
        assert(self.declarations@.subrange(0, i as int) =~= self.declarations@);
        r
    }

    pub fn enum_declarations(&self) -> (r: Vec<&EnumDeclaration>)
        ensures
            r@.map_values(|c: &EnumDeclaration| *c) == enum_decls_of(self@.declarations),
    {
        let mut r: Vec<&EnumDeclaration> = Vec::new();
        let mut i: usize = 0;
        while i < self.declarations.len()
            invariant
                i <= self.declarations@.len(),
                r@.map_values(|c: &EnumDeclaration| *c) == enum_decls_of(self.declarations@.subrange(0, i as int)),
            decreases self.declarations@.len() - i,
        {
            assert(self.declarations@.subrange(0, i + 1).drop_last() =~= self.declarations@.subrange(0, i as int));
            match &self.declarations[i] {
                Declaration::Class(ClassDeclaration::Enum(c)) => r.push(c),
                _ => {},
            }
            assert(r@.map_values(|c: &EnumDeclaration| *c) =~= enum_decls_of(self.declarations@.subrange(0, i + 1)));
            i = i + 1;
        }
        assert(self.declarations@.subrange(0, i as int) =~= self.declarations@);
        r
    }
}

proof fn lemma_first_alias(al: Seq<crate::metamodel::AliasedType>, name: Seq<char>)
    ensures
        -1 <= first_alias(al, name) < al.len(),
        first_alias(al, name) >= 0 ==> al[first_alias(al, name)].name@ == name,
        forall|m: int| 0 <= m < al.len() && (first_alias(al, name) < 0 || m < first_alias(al, name))
            ==> #[trigger] al[m].name@ != name,
    decreases al.len(),
{
    if al.len() > 0 && al[0].name@ != name {
        lemma_first_alias(al.drop_first(), name);
        assert forall|m: int| 0 <= m < al.len() && (first_alias(al, name) < 0 || m < first_alias(al, name))
            implies #[trigger] al[m].name@ != name by {
            if m > 0 {
                assert(al[m] == al.drop_first()[m - 1]);
            }
        }
    }
}

/// The fully-qualified name that one import gives `name`, if any.
fn import_resolution(imp: &ImportDecl, name: &str) -> (r: Option<String>)
    ensures
        match r {
            Some(s) => import_resolves(*imp, name@) == Some(s@),
            None => import_resolves(*imp, name@) is None,
        },
{
    match imp {
        ImportDecl::Type(t) => {
            if str_eq(t.name.as_str(), name) {
                Some(fully_qualified_name(t.namespace.as_str(), t.name.as_str()))
            } else {
                None
            }
        },
        ImportDecl::Types(t) => {
            let mut j: usize = 0;
            while j < t.types.len()
                invariant
                    *imp == ImportDecl::Types(*t),
                    j <= t.types@.len(),
                    forall|k: int| 0 <= k < j ==> #[trigger] t.types@[k]@ != name@,
                decreases t.types@.len() - j,
            {
                if str_eq(t.types[j].as_str(), name) {
                    assert(t.types@[j as int]@ == name@);
                    return Some(fully_qualified_name(t.namespace.as_str(), name));
                }
                j = j + 1;
            }
            match &t.aliased_types {
                Some(al) => {
                    let mut k: usize = 0;
                    proof { lemma_first_alias(al@, name@); }
                    let ghost no_type = !exists|j: int| 0 <= j < t.types@.len() && #[trigger] t.types@[j]@ == name@;
                    assert(no_type);
                    while k < al.len()
                        invariant
                            *imp == ImportDecl::Types(*t),
                            t.aliased_types == Some(*al),
                            no_type == !exists|j: int| 0 <= j < t.types@.len() && #[trigger] t.types@[j]@ == name@,
                            no_type,
                            k <= al@.len(),
                            forall|m: int| 0 <= m < k ==> #[trigger] al@[m].name@ != name@,
                            -1 <= first_alias(al@, name@) < al@.len(),
                            first_alias(al@, name@) >= 0 ==> al@[first_alias(al@, name@)].name@ == name@,
                            forall|m: int| 0 <= m < al@.len() && (first_alias(al@, name@) < 0 || m < first_alias(al@, name@))
                                ==> #[trigger] al@[m].name@ != name@,
                        decreases al@.len() - k,
                    {
                        if str_eq(al[k].name.as_str(), name) {
                            assert(al@[k as int].name@ == name@);
                            assert(first_alias(al@, name@) == k as int);
                            return Some(fully_qualified_name(t.namespace.as_str(), al[k].aliased_name.as_str()));
                        }
                        k = k + 1;
                    }
                    None
                },
                None => None,
            }
        },
        ImportDecl::All(_) => None,
    }
}

} // verus!
