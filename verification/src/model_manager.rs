//! A set of model files, one per namespace, with type resolution and
//! validation across namespaces.
use vstd::prelude::*;
use crate::error::{ConcertoError, ErrorView, illegal, illegal_model, opt_text};
use crate::json::JsonValue;
use crate::model_util::{get_namespace, get_short_name, namespace_of, parsed_namespace, qualified};
use crate::rootmodel::{is_root_model_json, lemma_root_model_accepted, root_model_ast};
use crate::text::{concat2, concat3, owned, starts_with_seq, str_eq};
use crate::introspect::properties::{class_of, kind_of};
use crate::introspect::declarations::{ClassDeclaration, Declaration};
use crate::introspect::model_file::{ModelFile, class_decls_of, last_named, model_accepts, model_error, model_read};
use crate::introspect::validation::{file_index, file_name_of, find_file, lemma_file_index, lookup_type,
    model_files_outcome, same_outcome, validate_model_files};

verus! {

/// Configuration for [`ModelManager`].
#[derive(Clone, Copy, Debug)]
pub struct ModelManagerOptions {
    /// Require versioned namespaces.
    pub strict: bool,
    /// Enable the Map type feature.
    pub enable_map_type: bool,
}

impl Default for ModelManagerOptions {
    fn default() -> (r: Self)
        ensures
            r.strict == false,
            r.enable_map_type == true,
    {
        ModelManagerOptions { strict: false, enable_map_type: true }
    }
}

/// Some file of `files` has namespace `ns`.
pub open spec fn holds_namespace(files: Seq<ModelFile>, ns: Seq<char>) -> bool {
    exists|i: int| 0 <= i < files.len() && (#[trigger] files[i])@.namespace == ns
}

/// No two files of `files` share a namespace.
pub open spec fn namespaces_distinct(files: Seq<ModelFile>) -> bool {
    forall|i: int, j: int| 0 <= i < files.len() && 0 <= j < files.len() && i != j
        ==> (#[trigger] files[i])@.namespace != (#[trigger] files[j])@.namespace
}

/// The namespace a model's JSON form declares.
pub open spec fn json_namespace(v: JsonValue) -> Seq<char> {
    v.member_text("namespace"@)->Some_0
}

pub open spec fn duplicate_namespace_message(ns: Seq<char>) -> Seq<char> {
    "Duplicate namespace: "@ + ns
}

/// A system model file: the `concerto` namespace, versioned or not.
pub open spec fn is_system_file(m: ModelFile) -> bool {
    starts_with_seq(m@.namespace, "concerto@"@) || m@.namespace == "concerto"@
}

/// The files of `files` that are not system files, in order.
pub open spec fn non_system_files(files: Seq<ModelFile>) -> Seq<ModelFile>
    decreases files.len(),
{
    if files.len() == 0 {
        Seq::empty()
    } else {
        non_system_files(files.drop_last()) + if is_system_file(files.last()) {
            Seq::empty()
        } else {
            seq![files.last()]
        }
    }
}

/// The files that are not system files are exactly, in order, the files whose
/// namespace is neither `concerto` nor a version of it: whether a file was read
/// from an external source, or anything else about it, plays no part.
pub proof fn law_user_files_are_outside_concerto(files: Seq<ModelFile>)
    ensures
        non_system_files(files) == files.filter(|m: ModelFile|
            !(starts_with_seq(m@.namespace, "concerto@"@) || m@.namespace == "concerto"@)),
    decreases files.len(),
{
    reveal(Seq::filter);
    if files.len() > 0 {
        law_user_files_are_outside_concerto(files.drop_last());
    }
}

/// The class declarations of all files, file after file.
pub open spec fn all_class_decls(files: Seq<ModelFile>) -> Seq<ClassDeclaration>
    decreases files.len(),
{
    if files.len() == 0 {
        Seq::empty()
    } else {
        all_class_decls(files.drop_last()) + class_decls_of(files.last()@.declarations)
    }
}

/// A model's JSON form declares a namespace without a version.
pub open spec fn json_unversioned(v: JsonValue) -> bool {
    parsed_namespace(json_namespace(v)) matches Ok((_, None))
}

pub open spec fn unversioned_message(ns: Seq<char>) -> Seq<char> {
    "Namespace '"@ + ns + "' has no version, which 'strict' requires"@
}

/// Options that refuse the model `v`: strict ones, for a namespace without a version.
pub open spec fn strict_refuses(options: ModelManagerOptions, v: JsonValue) -> bool {
    options.strict && json_unversioned(v)
}

/// A model's JSON form holds a declaration whose `$class` names a map declaration.
pub open spec fn json_declares_map(v: JsonValue) -> bool {
    match v.member("declarations"@) {
        Some(JsonValue::Array(items)) => exists|i: int|
            0 <= i < items@.len() && kind_of(#[trigger] items@[i]) == "MapDeclaration"@,
        _ => false,
    }
}

pub open spec fn map_disabled_message(ns: Seq<char>) -> Seq<char> {
    "Namespace '"@ + ns + "' declares a map type, which needs 'enable_map_type'"@
}

/// Options that refuse the model `v`: those without the map type, for a model
/// that declares a map.
pub open spec fn map_refuses(options: ModelManagerOptions, v: JsonValue) -> bool {
    !options.enable_map_type && json_declares_map(v)
}

/// Model `k` of a batch cannot be added after `files` and the models before it:
/// it is not the form of a model, the options refuse it (`strict` an
/// unversioned namespace, a disabled map type a map declaration), or its
/// namespace is taken.
pub open spec fn batch_bad_at(files: Seq<ModelFile>, models: Seq<JsonValue>, options: ModelManagerOptions, k: int) -> bool {
    ||| !model_accepts(models[k])
    ||| strict_refuses(options, models[k])
    ||| map_refuses(options, models[k])
    ||| holds_namespace(files, json_namespace(models[k]))
    ||| exists|j: int| 0 <= j < k && json_namespace(#[trigger] models[j]) == json_namespace(models[k])
}

/// Position of the first model of a batch that cannot be added, or -1.
pub open spec fn first_bad(files: Seq<ModelFile>, models: Seq<JsonValue>, options: ModelManagerOptions) -> int
    decreases models.len(),
{
    if models.len() == 0 {
        -1
    } else {
        let k = first_bad(files, models.drop_last(), options);
        if k >= 0 {
            k
        } else if batch_bad_at(files, models, options, models.len() - 1) {
            models.len() - 1
        } else {
            -1
        }
    }
}

/// The error for model `k` of a batch, which cannot be added.
pub open spec fn batch_error(models: Seq<JsonValue>, options: ModelManagerOptions, k: int, e: ErrorView) -> bool {
    if !model_accepts(models[k]) {
        model_error(models[k], None, e)
    } else if strict_refuses(options, models[k]) {
        e == illegal(unversioned_message(json_namespace(models[k])), None)
    } else if map_refuses(options, models[k]) {
        e == illegal(map_disabled_message(json_namespace(models[k])), None)
    } else {
        e == illegal(duplicate_namespace_message(json_namespace(models[k])), None)
    }
}

/// `added` are the model files read from `models`, one each, without file names.
pub open spec fn batch_read(added: Seq<ModelFile>, models: Seq<JsonValue>) -> bool {
    added.len() == models.len() && forall|k: int| 0 <= k < models.len() ==> model_read((#[trigger] added[k])@, models[k], None)
}

proof fn lemma_first_bad(files: Seq<ModelFile>, models: Seq<JsonValue>, options: ModelManagerOptions)
    ensures
        -1 <= first_bad(files, models, options) < models.len(),
        first_bad(files, models, options) >= 0 ==> batch_bad_at(files, models, options, first_bad(files, models, options)),
        forall|x: int| 0 <= x < models.len() && (x < first_bad(files, models, options) || first_bad(files, models, options) < 0)
            ==> !#[trigger] batch_bad_at(files, models, options, x),
    decreases models.len(),
{
    if models.len() > 0 {
        let rest = models.drop_last();
        lemma_first_bad(files, rest, options);
        assert forall|x: int| 0 <= x < rest.len() implies
            #[trigger] batch_bad_at(files, rest, options, x) == batch_bad_at(files, models, options, x) by {
            assert(rest[x] == models[x]);
            assert forall|j: int| 0 <= j < x implies rest[j] == models[j] by {}
            if batch_bad_at(files, models, options, x) && model_accepts(models[x])
                && !strict_refuses(options, models[x]) && !map_refuses(options, models[x]) && !holds_namespace(files, json_namespace(models[x])) {
                let j = choose|j: int| 0 <= j < x && json_namespace(#[trigger] models[j]) == json_namespace(models[x]);
                assert(json_namespace(rest[j]) == json_namespace(rest[x]));
            }
        }
        let k = first_bad(files, models, options);
        assert forall|x: int| 0 <= x < models.len() && (x < k || k < 0)
            implies !#[trigger] batch_bad_at(files, models, options, x) by {
            if x < rest.len() {
                assert(batch_bad_at(files, rest, options, x) == batch_bad_at(files, models, options, x));
            }
        }
    }
}

/// Whether a model's JSON form holds a map declaration.
fn declares_map(json: &JsonValue) -> (r: bool)
    ensures
        r == json_declares_map(*json),
{
    proof { reveal_strlit("MapDeclaration"); }
    match json.get("declarations") {
        Some(JsonValue::Array(items)) => {
            let mut i: usize = 0;
            while i < items.len()
                invariant
                    json.member("declarations"@) == Some(JsonValue::Array(*items)),
                    i <= items@.len(),
                    forall|j: int| 0 <= j < i ==> kind_of(#[trigger] items@[j]) != "MapDeclaration"@,
                decreases items@.len() - i,
            {
                if str_eq(get_short_name(class_of(&items[i])), "MapDeclaration") {
                    proof {
                        match json.member("declarations"@) {
                            Some(JsonValue::Array(its)) => {
                                assert(its@ == items@);
                                assert(kind_of(its@[i as int]) == "MapDeclaration"@);
                            },
                            _ => {},
                        }
                    }
                    return true;
                }
                i = i + 1;
            }
            false
        },
        _ => false,
    }
}

proof fn lemma_holds_namespace(files: Seq<ModelFile>, ns: Seq<char>)
    ensures
        holds_namespace(files, ns) <==> file_index(files, ns) >= 0,
{
    lemma_file_index(files, ns);
    if file_index(files, ns) >= 0 {
        assert(files[file_index(files, ns)]@.namespace == ns);
    }
}

/// After a model file is added under a namespace that no file held, that
/// namespace finds it, and a short name without a dot, qualified by that
/// namespace, finds the file's last declaration of that name.
pub proof fn law_added_file_resolves(files: Seq<ModelFile>, added: ModelFile, simple_name: Seq<char>)
    requires
        !holds_namespace(files, added@.namespace),
        forall|j: int| 0 <= j < simple_name.len() ==> simple_name[j] != '.',
    ensures
        file_index(files.push(added), added@.namespace) == files.len(),
        lookup_type(files.push(added), qualified(added@.namespace, simple_name)) == if last_named(
            added@.declarations,
            simple_name,
        ) >= 0 {
            Some(added@.declarations[last_named(added@.declarations, simple_name)])
        } else {
            None
        },
{
    lemma_holds_namespace(files, added@.namespace);
    assert(files.push(added).drop_last() == files);
    crate::model_util::law_split_of_qualified(added@.namespace, simple_name);
}

/// Adding a model file changes nothing that a name of another namespace finds.
pub proof fn law_add_keeps_other_types(files: Seq<ModelFile>, added: ModelFile, fqn: Seq<char>)
    requires
        namespace_of(fqn) != added@.namespace,
    ensures
        lookup_type(files.push(added), fqn) == lookup_type(files, fqn),
{
    assert(files.push(added).drop_last() == files);
    lemma_file_index(files, namespace_of(fqn));
    if file_index(files, namespace_of(fqn)) >= 0 {
        assert(files.push(added)[file_index(files, namespace_of(fqn))] == files[file_index(files, namespace_of(fqn))]);
    }
}

/// Manages a set of model files, one per namespace, providing type resolution
/// and validation across namespaces.
#[derive(Debug)]
pub struct ModelManager {
    model_files: Vec<ModelFile>,
    options: ModelManagerOptions,
}

impl ModelManager {
    #[verifier::type_invariant]
    spec fn one_file_per_namespace(self) -> bool {
        namespaces_distinct(self.model_files@)
    }

    /// The model files, in the order they were added.
    pub closed spec fn files(&self) -> Seq<ModelFile> {
        self.model_files@
    }

    pub closed spec fn current_options(&self) -> ModelManagerOptions {
        self.options
    }

    /// Creates a manager holding the built-in root model, read from
    /// [`root_model_ast`] under the file name `rootmodel.json`.
    pub fn new(options: ModelManagerOptions) -> (r: Result<ModelManager, ConcertoError>)
        ensures
            r matches Ok(mm) && {
                &&& mm.current_options() == options
                &&& mm.files().len() == 1
                &&& mm.files()[0]@.namespace == "concerto@1.0.0"@
                &&& mm.files()[0]@.file_name == Some("rootmodel.json"@)
                &&& exists|v: JsonValue| is_root_model_json(v) && model_read(mm.files()[0]@, v, Some("rootmodel.json"@))
            },
    {
        let mut mgr = ModelManager { model_files: Vec::new(), options };
        match mgr.add_root_model() {
            Ok(()) => Ok(mgr),
            Err(e) => Err(e),
        }
    }

    /// Add the root model to a manager that holds no model file.
    fn add_root_model(&mut self) -> (r: Result<(), ConcertoError>)
        requires
            old(self).files().len() == 0,
        ensures
            r is Ok,
            final(self).current_options() == old(self).current_options(),
            final(self).files().len() == 1,
            final(self).files()[0]@.namespace == "concerto@1.0.0"@,
            final(self).files()[0]@.file_name == Some("rootmodel.json"@),
            exists|v: JsonValue| is_root_model_json(v) && model_read(final(self).files()[0]@, v, Some("rootmodel.json"@)),
    {
        let json = root_model_ast();
        proof { lemma_root_model_accepted(json); }
        let mf = match ModelFile::from_json(&json, Some(owned("rootmodel.json"))) {
            Ok(mf) => mf,
            Err(e) => return Err(e),
        };
        let mut files: Vec<ModelFile> = Vec::new();
        std::mem::swap(&mut files, &mut self.model_files);
        files.push(mf);
        self.model_files = files;
        Ok(())
    }

    /// Add a model from its JSON form. It is refused when it is not the form of a
    /// model, when the options are strict and its namespace has no version, when
    /// the map type is not enabled and it declares a map, or when its namespace
    /// is taken; otherwise it is added and, unless
    /// `disable_validation`, all model files are then validated (a model that
    /// fails validation stays added).
    pub fn add_model(&mut self, json: &JsonValue, file_name: Option<String>, disable_validation: bool)
        -> (r: Result<(), ConcertoError>)
        ensures
            final(self).current_options() == old(self).current_options(),
            namespaces_distinct(final(self).files()),
            !model_accepts(*json) ==> (r matches Err(e) && model_error(*json, opt_text(file_name), e@)
                && final(self).files() == old(self).files()),
            model_accepts(*json) && strict_refuses(old(self).current_options(), *json) ==> (
                r matches Err(e)
                && e@ == illegal(unversioned_message(json_namespace(*json)), opt_text(file_name))
                && final(self).files() == old(self).files()),
            model_accepts(*json) && !strict_refuses(old(self).current_options(), *json)
                && map_refuses(old(self).current_options(), *json) ==> (
                r matches Err(e)
                && e@ == illegal(map_disabled_message(json_namespace(*json)), opt_text(file_name))
                && final(self).files() == old(self).files()),
            model_accepts(*json) && !strict_refuses(old(self).current_options(), *json)
                && !map_refuses(old(self).current_options(), *json)
                && holds_namespace(old(self).files(), json_namespace(*json)) ==> (
                r matches Err(e)
                && e@ == illegal(duplicate_namespace_message(json_namespace(*json)), opt_text(file_name))
                && final(self).files() == old(self).files()),
            model_accepts(*json) && !strict_refuses(old(self).current_options(), *json)
                && !map_refuses(old(self).current_options(), *json)
                && !holds_namespace(old(self).files(), json_namespace(*json)) ==> {
                &&& final(self).files().len() == old(self).files().len() + 1
                &&& final(self).files().drop_last() == old(self).files()
                &&& model_read(final(self).files().last()@, *json, opt_text(file_name))
                &&& disable_validation ==> r is Ok
                &&& !disable_validation ==> same_outcome(r, model_files_outcome(final(self).files()))
            },
    {
        proof { use_type_invariant(&*self); }
        let mf = match ModelFile::from_json(json, file_name) {
            Ok(mf) => mf,
            Err(e) => return Err(e),
        };
        let ghost m = mf@;
        proof { lemma_holds_namespace(self.model_files@, m.namespace); }
        if self.options.strict && mf.version().is_none() {
            let msg = concat3("Namespace '", mf.namespace(), "' has no version, which 'strict' requires");
            return Err(illegal_model(msg, file_name_of(&mf)));
        }
        if !self.options.enable_map_type && declares_map(json) {
            let msg = concat3("Namespace '", mf.namespace(), "' declares a map type, which needs 'enable_map_type'");
            return Err(illegal_model(msg, file_name_of(&mf)));
        }
        if find_file(self.model_files.as_slice(), mf.namespace()).is_some() {
            let msg = concat2("Duplicate namespace: ", mf.namespace());
            return Err(illegal_model(msg, file_name_of(&mf)));
        }
        let mut files: Vec<ModelFile> = Vec::new();
        std::mem::swap(&mut files, &mut self.model_files);
        let ghost before = files@;
        files.push(mf);
        proof {
            assert(files@.drop_last() == before);
            assert forall|i: int, j: int| 0 <= i < files@.len() && 0 <= j < files@.len() && i != j
                implies (#[trigger] files@[i])@.namespace != (#[trigger] files@[j])@.namespace by {
                if i == before.len() as int {
                    assert(before[j] == files@[j]);
                } else if j == before.len() as int {
                    assert(before[i] == files@[i]);
                } else {
                    assert(before[i] == files@[i]);
                    assert(before[j] == files@[j]);
                }
            }
        }
        self.model_files = files;
        if !disable_validation {
            return validate_model_files(self.model_files.as_slice());
        }
        Ok(())
    }

    /// Add several models at once. On error, all additions are rolled back.
    pub fn add_models(&mut self, models: &[JsonValue], disable_validation: bool) -> (r: Result<(), ConcertoError>)
        ensures
            final(self).current_options() == old(self).current_options(),
            namespaces_distinct(final(self).files()),
            r is Err ==> final(self).files() == old(self).files(),
            first_bad(old(self).files(), models@, old(self).current_options()) >= 0 ==> (r matches Err(e)
                && batch_error(models@, old(self).current_options(), first_bad(old(self).files(), models@, old(self).current_options()), e@)),
            first_bad(old(self).files(), models@, old(self).current_options()) < 0 ==> exists|added: Seq<ModelFile>| {
                &&& batch_read(added, models@)
                &&& disable_validation ==> r is Ok
                &&& !disable_validation ==> same_outcome(r, model_files_outcome(old(self).files() + added))
                &&& r is Ok ==> final(self).files() == old(self).files() + added
            },
    {
        proof { use_type_invariant(&*self); }
        let ghost old_files = self.model_files@;
        let mut files: Vec<ModelFile> = Vec::new();
        std::mem::swap(&mut files, &mut self.model_files);
        let old_len = files.len();
        let ghost options = self.options;
        proof { lemma_first_bad(old_files, models@, options); }
        let mut k: usize = 0;
        while k < models.len()
            invariant
                old_files == old(self).files(),
                self.current_options() == old(self).current_options(),
                options == old(self).current_options(),
                self.model_files@.len() == 0,
                old_len == old_files.len(),
                k <= models@.len(),
                files@.len() == old_len + k,
                files@.take(old_len as int) == old_files,
                namespaces_distinct(files@),
                forall|x: int| 0 <= x < k ==> model_read((#[trigger] files@[old_len + x])@, models@[x], None),
                forall|x: int| 0 <= x < k ==> !#[trigger] batch_bad_at(old_files, models@, options, x),
                -1 <= first_bad(old_files, models@, options) < models@.len(),
                first_bad(old_files, models@, options) >= 0 ==> batch_bad_at(old_files, models@, options, first_bad(old_files, models@, options)),
                forall|x: int| 0 <= x < models@.len() && (x < first_bad(old_files, models@, options) || first_bad(old_files, models@, options) < 0)
                    ==> !#[trigger] batch_bad_at(old_files, models@, options, x),
            decreases models@.len() - k,
        {
            let mf = match ModelFile::from_json(&models[k], None) {
                Ok(mf) => mf,
                Err(e) => {
                    proof {
                        assert(batch_bad_at(old_files, models@, options, k as int));
                        assert(first_bad(old_files, models@, options) == k as int);
                    }
                    files.truncate(old_len);
                    self.model_files = files;
                    return Err(e);
                },
            };
            let ghost m = mf@;
            if self.options.strict && mf.version().is_none() {
                proof {
                    assert(batch_bad_at(old_files, models@, options, k as int));
                    assert(first_bad(old_files, models@, options) == k as int);
                }
                let msg = concat3("Namespace '", mf.namespace(), "' has no version, which 'strict' requires");
                let fname = file_name_of(&mf);
                files.truncate(old_len);
                self.model_files = files;
                return Err(illegal_model(msg, fname));
            }
            if !self.options.enable_map_type && declares_map(&models[k]) {
                proof {
                    assert(batch_bad_at(old_files, models@, options, k as int));
                    assert(first_bad(old_files, models@, options) == k as int);
                }
                let msg = concat3("Namespace '", mf.namespace(), "' declares a map type, which needs 'enable_map_type'");
                let fname = file_name_of(&mf);
                files.truncate(old_len);
                self.model_files = files;
                return Err(illegal_model(msg, fname));
            }
            proof {
                lemma_holds_namespace(files@, m.namespace);
                assert(holds_namespace(files@, m.namespace) <==> (holds_namespace(old_files, m.namespace)
                    || exists|j: int| 0 <= j < k && json_namespace(#[trigger] models@[j]) == m.namespace)) by {
                    if holds_namespace(files@, m.namespace) {
                        let i = choose|i: int| 0 <= i < files@.len() && (#[trigger] files@[i])@.namespace == m.namespace;
                        if i < old_len {
                            assert(old_files[i] == files@[i]);
                        } else {
                            assert(model_read(files@[old_len + (i - old_len)]@, models@[i - old_len], None));
                            assert(json_namespace(models@[i - old_len]) == m.namespace);
                        }
                    }
                    if holds_namespace(old_files, m.namespace) {
                        let i = choose|i: int| 0 <= i < old_files.len() && (#[trigger] old_files[i])@.namespace == m.namespace;
                        assert(old_files[i] == files@[i]);
                    }
                    if exists|j: int| 0 <= j < k && json_namespace(#[trigger] models@[j]) == m.namespace {
                        let j = choose|j: int| 0 <= j < k && json_namespace(#[trigger] models@[j]) == m.namespace;
                        assert(model_read(files@[old_len + j]@, models@[j], None));
                    }
                }
            }
            if find_file(files.as_slice(), mf.namespace()).is_some() {
                proof {
                    assert(batch_bad_at(old_files, models@, options, k as int));
                    assert(first_bad(old_files, models@, options) == k as int);
                }
                let msg = concat2("Duplicate namespace: ", mf.namespace());
                let fname = file_name_of(&mf);
                files.truncate(old_len);
                self.model_files = files;
                return Err(illegal_model(msg, fname));
            }
            let ghost before = files@;
            files.push(mf);
            proof {
                assert(!batch_bad_at(old_files, models@, options, k as int));
                assert(files@.take(old_len as int) == before.take(old_len as int));
                assert forall|x: int| 0 <= x <= k implies model_read((#[trigger] files@[old_len + x])@, models@[x], None) by {
                    if x < k {
                        assert(files@[old_len + x] == before[old_len + x]);
                    }
                }
                assert forall|i: int, j: int| 0 <= i < files@.len() && 0 <= j < files@.len() && i != j
                    implies (#[trigger] files@[i])@.namespace != (#[trigger] files@[j])@.namespace by {
                    if i == before.len() as int {
                        assert(before[j] == files@[j]);
                    } else if j == before.len() as int {
                        assert(before[i] == files@[i]);
                    } else {
                        assert(before[i] == files@[i]);
                        assert(before[j] == files@[j]);
                    }
                }
            }
            k = k + 1;
        }
        let ghost added = files@.subrange(old_len as int, files@.len() as int);
        proof {
            assert(files@ == old_files + added);
            assert forall|x: int| 0 <= x < models@.len() implies model_read((#[trigger] added[x])@, models@[x], None) by {
                assert(added[x] == files@[old_len + x]);
            }
            assert(batch_read(added, models@));
        }
        if !disable_validation {
            match validate_model_files(files.as_slice()) {
                Err(e) => {
                    files.truncate(old_len);
                    self.model_files = files;
                    return Err(e);
                },
                Ok(()) => {},
            }
        }
        self.model_files = files;
        Ok(())
    }

    /// The model files, in the order they were added.
    pub(crate) fn files_slice(&self) -> (r: &[ModelFile])
        ensures
            r@ == self.files(),
    {
        self.model_files.as_slice()
    }

    /// Validate all loaded model files.
    pub fn validate_model_files(&self) -> (r: Result<(), ConcertoError>)
        ensures
            same_outcome(r, model_files_outcome(self.files())),
    {
        validate_model_files(self.model_files.as_slice())
    }

    /// Resolve a fully-qualified type name to its declaration.
    pub fn get_type(&self, fqn: &str) -> (r: Result<&Declaration, ConcertoError>)
        ensures
            match r {
                Ok(d) => lookup_type(self.files(), fqn@) == Some(*d),
                Err(e) => lookup_type(self.files(), fqn@) is None && e@ == (ErrorView::TypeNotFound { name: fqn@ }),
            },
    {
        let ns = get_namespace(fqn);
        let short = get_short_name(fqn);
        match find_file(self.model_files.as_slice(), ns) {
            Some(i) => match self.model_files[i].get_local_type(short) {
                Some(d) => Ok(d),
                None => Err(ConcertoError::TypeNotFound { name: owned(fqn) }),
            },
            None => Err(ConcertoError::TypeNotFound { name: owned(fqn) }),
        }
    }

    /// Look up a model file by namespace.
    pub fn get_model_file(&self, namespace: &str) -> (r: Option<&ModelFile>)
        ensures
            match r {
                Some(m) => file_index(self.files(), namespace@) >= 0
                    && *m == self.files()[file_index(self.files(), namespace@)],
                None => !holds_namespace(self.files(), namespace@),
            },
    {
        proof { lemma_holds_namespace(self.model_files@, namespace@); }
        match find_file(self.model_files.as_slice(), namespace) {
            Some(i) => Some(&self.model_files[i]),
            None => None,
        }
    }

    /// Returns the loaded model files other than the system ones.
    pub fn get_model_files(&self) -> (r: Vec<&ModelFile>)
        ensures
            r@.map_values(|m: &ModelFile| *m) == non_system_files(self.files()),
    {
        let mut r: Vec<&ModelFile> = Vec::new();
        let mut i: usize = 0;
        while i < self.model_files.len()
            invariant
                i <= self.model_files@.len(),
                r@.map_values(|m: &ModelFile| *m) == non_system_files(self.model_files@.take(i as int)),
            decreases self.model_files@.len() - i,
        {
            assert(self.model_files@.take(i + 1).drop_last() == self.model_files@.take(i as int));
            if !self.model_files[i].is_system_model_file() {
                r.push(&self.model_files[i]);
            }
            assert(r@.map_values(|m: &ModelFile| *m) == non_system_files(self.model_files@.take(i + 1)));
            i = i + 1;
        }
        assert(self.model_files@.take(i as int) == self.model_files@);
        r
    }

    /// Returns all loaded model files, system ones included.
    pub fn get_all_model_files(&self) -> (r: Vec<&ModelFile>)
        ensures
            r@.map_values(|m: &ModelFile| *m) == self.files(),
    {
        let mut r: Vec<&ModelFile> = Vec::new();
        let mut i: usize = 0;
        while i < self.model_files.len()
            invariant
                i <= self.model_files@.len(),
                r@.map_values(|m: &ModelFile| *m) == self.model_files@.take(i as int),
            decreases self.model_files@.len() - i,
        {
            let ghost before = r@;
            r.push(&self.model_files[i]);
            assert(self.model_files@.take(i + 1) =~= self.model_files@.take(i as int).push(self.model_files@[i as int]));
            assert(r@.map_values(|m: &ModelFile| *m) =~= before.map_values(|m: &ModelFile| *m).push(self.model_files@[i as int]));
            i = i + 1;
        }
        assert(self.model_files@.take(i as int) == self.model_files@);
        r
    }

    pub fn options(&self) -> (r: &ModelManagerOptions)
        ensures
            *r == self.current_options(),
    {
        &self.options
    }

    /// Returns all class declarations across all model files.
    pub fn class_declarations(&self) -> (r: Vec<&ClassDeclaration>)
        ensures
            r@.map_values(|c: &ClassDeclaration| *c) == all_class_decls(self.files()),
    {
        let mut r: Vec<&ClassDeclaration> = Vec::new();
        let mut i: usize = 0;
        while i < self.model_files.len()
            invariant
                i <= self.model_files@.len(),
                r@.map_values(|c: &ClassDeclaration| *c) == all_class_decls(self.model_files@.take(i as int)),
            decreases self.model_files@.len() - i,
        {
            assert(self.model_files@.take(i + 1).drop_last() == self.model_files@.take(i as int));
            let mut more = self.model_files[i].class_declarations();
            let ghost before = r@;
            let ghost extra = more@;
            r.append(&mut more);
            assert(r@ == before + extra);
            assert(r@.map_values(|c: &ClassDeclaration| *c)
                == before.map_values(|c: &ClassDeclaration| *c) + extra.map_values(|c: &ClassDeclaration| *c));
            i = i + 1;
        }
        assert(self.model_files@.take(i as int) == self.model_files@);
        r
    }

    /// Look up a class declaration by fully-qualified name.
    pub fn get_class_declaration(&self, fqn: &str) -> (r: Result<&ClassDeclaration, ConcertoError>)
        ensures
            match r {
                Ok(c) => lookup_type(self.files(), fqn@) == Some(Declaration::Class(*c)),
                Err(e) => !(lookup_type(self.files(), fqn@) matches Some(Declaration::Class(_)))
                    && e@ == (ErrorView::TypeNotFound { name: fqn@ }),
            },
    {
        let decl = match self.get_type(fqn) {
            Ok(d) => d,
            Err(e) => return Err(e),
        };
        match decl.as_class() {
            Some(c) => Ok(c),
            None => Err(ConcertoError::TypeNotFound { name: owned(fqn) }),
        }
    }
}

} // verus!
