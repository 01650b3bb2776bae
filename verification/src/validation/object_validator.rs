//! Validation of a JSON instance against the class its `$class` names.
use vstd::prelude::*;
use crate::error::{ConcertoError, ErrorView};
use crate::json::{JsonValue, lemma_item_smaller, lemma_member_smaller};
use crate::model_util::{fully_qualified_name, is_reserved_name, is_system_property, qualified};
use crate::model_manager::ModelManager;
use crate::text::{concat3, concat5, owned, str_eq};
use crate::introspect::declarations::{ClassDeclaration, Declaration};
use crate::introspect::model_file::ModelFile;
use crate::introspect::properties::PropertyDecl;
use crate::introspect::traits::{HasProperties, Named};
use crate::introspect::validation::{lookup_class, lookup_type, same_outcome};

verus! {

/// The name a super type is looked up by when validating instances: its
/// namespace and name, else its resolved name, else its bare name.
pub open spec fn instance_super_name(t: crate::metamodel::TypeIdentifier) -> Seq<char> {
    match t.namespace {
        Some(ns) => qualified(ns@, t.name@),
        None => match t.resolved_name {
            Some(r) => r@,
            None => t.name@,
        },
    }
}

/// The super class of `c` as instance validation finds it.
pub open spec fn instance_super(files: Seq<ModelFile>, c: ClassDeclaration) -> Option<ClassDeclaration> {
    match c.super_type_ref() {
        Some(t) => lookup_class(files, instance_super_name(t)),
        None => None,
    }
}

/// The `k`-th ancestor of `c` along `instance_super`.
pub open spec fn instance_anc(files: Seq<ModelFile>, c: ClassDeclaration, k: nat) -> Option<ClassDeclaration>
    decreases k,
{
    if k == 0 {
        Some(c)
    } else {
        match instance_super(files, c) {
            Some(s) => instance_anc(files, s, (k - 1) as nat),
            None => None,
        }
    }
}

/// The properties along `c`'s ancestry, at most `fuel` steps up: the
/// ancestors' first, the root-most first, then `c`'s own.
pub open spec fn ancestry_properties(files: Seq<ModelFile>, c: ClassDeclaration, fuel: nat) -> Seq<PropertyDecl>
    decreases fuel,
{
    if fuel == 0 {
        c.property_list()
    } else {
        match instance_super(files, c) {
            Some(s) => ancestry_properties(files, s, (fuel - 1) as nat) + c.property_list(),
            None => c.property_list(),
        }
    }
}

/// All properties of an instance of `c`, inherited ones first.
pub open spec fn all_properties(files: Seq<ModelFile>, c: ClassDeclaration) -> Seq<PropertyDecl> {
    ancestry_properties(files, c, choose|n: nat| #[trigger] instance_anc(files, c, n) is None)
}

pub open spec fn invalid(message: Seq<char>, component: Seq<char>) -> ErrorView {
    ErrorView::Validation { message, component }
}

/// A member key that no property declares and that is not a system property.
pub open spec fn undeclared(key: Seq<char>, props: Seq<PropertyDecl>) -> bool {
    !is_reserved_name(key) && !exists|i: int| 0 <= i < props.len() && (#[trigger] props[i]).spec_name() == key
}

/// The first member key of `entries` that is undeclared.
pub open spec fn first_undeclared(entries: Seq<(String, JsonValue)>, props: Seq<PropertyDecl>) -> Option<Seq<char>>
    decreases entries.len(),
{
    if entries.len() == 0 {
        None
    } else {
        match first_undeclared(entries.drop_last(), props) {
            Some(k) => Some(k),
            None => if undeclared(entries.last().0@, props) { Some(entries.last().0@) } else { None },
        }
    }
}

/// What validating the instance `obj` gives.
pub open spec fn object_outcome(files: Seq<ModelFile>, obj: JsonValue) -> Result<(), ErrorView>
    decreases obj, 2nat, 0nat,
{
    match obj.member_text("$class"@) {
        None => Err(invalid("Object missing '$class' field"@, "$class"@)),
        Some(class) => match lookup_type(files, class) {
            None => Err(ErrorView::TypeNotFound { name: class }),
            Some(Declaration::Class(c)) => if c.abstract_flag() {
                Err(invalid("Cannot validate instance of abstract type '"@ + class + "'"@, class))
            } else {
                match obj {
                    JsonValue::Object(entries) => {
                        let props = all_properties(files, c);
                        match first_undeclared(entries@, props) {
                            Some(key) => Err(invalid(
                                "Unexpected property '"@ + key + "' on instance of '"@ + class + "'"@, class)),
                            None => props_outcome(files, props, obj, class),
                        }
                    },
                    _ => Err(invalid("Expected a JSON object"@, class)),
                }
            },
            Some(_) => Err(invalid("Type '"@ + class + "' is not a class declaration"@, class)),
        },
    }
}

/// The first failure among the properties `props` of instance `obj` of `class`:
/// a required one missing, or a value of the wrong kind.
pub open spec fn props_outcome(files: Seq<ModelFile>, props: Seq<PropertyDecl>, obj: JsonValue, class: Seq<char>)
    -> Result<(), ErrorView>
    decreases obj, 1nat, props.len(),
{
    if props.len() == 0 {
        Ok(())
    } else {
        match props_outcome(files, props.drop_last(), obj, class) {
            Err(e) => Err(e),
            Ok(_) => {
                let p = props.last();
                match obj.member(p.spec_name()) {
                    None => if p.spec_is_optional() {
                        Ok(())
                    } else {
                        Err(invalid("Missing required property '"@ + p.spec_name() + "' on instance of '"@ + class + "'"@, class))
                    },
                    Some(v) => {
                        proof { lemma_member_smaller(obj, p.spec_name()); }
                        value_outcome(files, p, v, class)
                    },
                }
            },
        }
    }
}

/// What checking the value `v` of property `p` on an instance of `parent` gives.
pub open spec fn value_outcome(files: Seq<ModelFile>, p: PropertyDecl, v: JsonValue, parent: Seq<char>)
    -> Result<(), ErrorView>
    decreases v, 4nat, 0nat,
{
    if p.spec_is_array() {
        match v {
            JsonValue::Array(items) => items_outcome(files, p, v, items@.len(), parent),
            _ => Err(invalid("Property '"@ + p.spec_name() + "' should be an array on '"@ + parent + "'"@, parent)),
        }
    } else {
        single_value_outcome(files, p, v, parent)
    }
}

/// The first failure among the first `k` items of the array `arr`.
pub open spec fn items_outcome(files: Seq<ModelFile>, p: PropertyDecl, arr: JsonValue, k: nat, parent: Seq<char>)
    -> Result<(), ErrorView>
    decreases arr, 0nat, k,
{
    match arr {
        JsonValue::Array(items) => if k == 0 || k > items@.len() {
            Ok(())
        } else {
            match items_outcome(files, p, arr, (k - 1) as nat, parent) {
                Err(e) => Err(e),
                Ok(_) => {
                    proof { lemma_item_smaller(arr, k - 1); }
                    single_value_outcome(files, p, items@[k - 1], parent)
                },
            }
        },
        _ => Ok(()),
    }
}

/// What checking one value `v` of property `p` on an instance of `parent` gives.
pub open spec fn single_value_outcome(files: Seq<ModelFile>, p: PropertyDecl, v: JsonValue, parent: Seq<char>)
    -> Result<(), ErrorView>
    decreases v, 3nat, 0nat,
{
    let n = p.spec_name();
    match p {
        PropertyDecl::Boolean(_) => if v is Bool { Ok(()) } else {
            Err(invalid("Property '"@ + n + "' should be Boolean on '"@ + parent + "'"@, parent))
        },
        PropertyDecl::String(_) => if v is String { Ok(()) } else {
            Err(invalid("Property '"@ + n + "' should be String on '"@ + parent + "'"@, parent))
        },
        PropertyDecl::Integer(_) => if v.is_integer_spec() { Ok(()) } else {
            Err(invalid("Property '"@ + n + "' should be an integer on '"@ + parent + "'"@, parent))
        },
        PropertyDecl::Long(_) => if v.is_integer_spec() { Ok(()) } else {
            Err(invalid("Property '"@ + n + "' should be an integer on '"@ + parent + "'"@, parent))
        },
        PropertyDecl::Double(_) => if v is Number { Ok(()) } else {
            Err(invalid("Property '"@ + n + "' should be a number on '"@ + parent + "'"@, parent))
        },
        PropertyDecl::DateTime(_) => if v is String { Ok(()) } else {
            Err(invalid("Property '"@ + n + "' should be a DateTime string on '"@ + parent + "'"@, parent))
        },
        PropertyDecl::Object(_) => if v is Object {
            object_outcome(files, v)
        } else if v is Null {
            Ok(())
        } else {
            Err(invalid("Property '"@ + n + "' should be an object on '"@ + parent + "'"@, parent))
        },
        PropertyDecl::Relationship(_) => if v is String { Ok(()) } else {
            Err(invalid("Relationship '"@ + n + "' should be a string URI on '"@ + parent + "'"@, parent))
        },
        PropertyDecl::Enum(_) => if v is String { Ok(()) } else {
            Err(invalid("Enum property '"@ + n + "' should be a string on '"@ + parent + "'"@, parent))
        },
    }
}

/// A single value of a property is accepted exactly when its JSON form is the
/// property's kind of value: a boolean for a Boolean property; a string for a
/// String, DateTime, relationship or enum property; an integer (no fraction)
/// for an Integer or Long property; any number for a Double property. An object
/// property takes only an object, which is then validated as an instance, or
/// null. A value of the wrong form is refused with a validation error whose
/// component is the enclosing instance's class.
pub proof fn law_single_value_forms(files: Seq<ModelFile>, p: PropertyDecl, v: JsonValue, parent: Seq<char>)
    ensures
        p is Boolean ==> (single_value_outcome(files, p, v, parent) is Ok <==> v is Bool),
        p is String || p is DateTime || p is Relationship || p is Enum
            ==> (single_value_outcome(files, p, v, parent) is Ok <==> v is String),
        p is Integer || p is Long ==> (single_value_outcome(files, p, v, parent) is Ok
            <==> (v matches JsonValue::Number(n) && !(n is Float))),
        p is Double ==> (single_value_outcome(files, p, v, parent) is Ok <==> v is Number),
        p is Object ==> (single_value_outcome(files, p, v, parent) is Ok ==> (v is Object || v is Null)),
        p is Object && v is Null ==> single_value_outcome(files, p, v, parent) is Ok,
        !(p is Object) && single_value_outcome(files, p, v, parent) is Err ==> (
            single_value_outcome(files, p, v, parent)->Err_0 matches ErrorView::Validation { component, .. }
            && component == parent),
{
}

/// Validating the instance `obj` comes to an end: the ancestry of each class
/// whose properties the validation collects ends.
pub open spec fn validation_ends(files: Seq<ModelFile>, obj: JsonValue) -> bool
    decreases obj, 2nat, 0nat,
{
    match obj.member_text("$class"@) {
        None => true,
        Some(class) => match lookup_type(files, class) {
            Some(Declaration::Class(c)) => if c.abstract_flag() {
                true
            } else {
                match obj {
                    JsonValue::Object(entries) => {
                        &&& exists|n: nat| #[trigger] instance_anc(files, c, n) is None
                        &&& first_undeclared(entries@, all_properties(files, c)) is None
                            ==> props_end(files, all_properties(files, c), obj, class)
                    },
                    _ => true,
                }
            },
            _ => true,
        },
    }
}

/// Checking the properties `props` of instance `obj` comes to an end.
pub open spec fn props_end(files: Seq<ModelFile>, props: Seq<PropertyDecl>, obj: JsonValue, class: Seq<char>) -> bool
    decreases obj, 1nat, props.len(),
{
    if props.len() == 0 {
        true
    } else {
        &&& props_end(files, props.drop_last(), obj, class)
        &&& props_outcome(files, props.drop_last(), obj, class) is Ok ==> match obj.member(props.last().spec_name()) {
            None => true,
            Some(v) => {
                proof { lemma_member_smaller(obj, props.last().spec_name()); }
                value_ends(files, props.last(), v, class)
            },
        }
    }
}

/// Checking the value `v` of property `p` comes to an end.
pub open spec fn value_ends(files: Seq<ModelFile>, p: PropertyDecl, v: JsonValue, parent: Seq<char>) -> bool
    decreases v, 4nat, 0nat,
{
    if p.spec_is_array() {
        match v {
            JsonValue::Array(items) => items_end(files, p, v, items@.len(), parent),
            _ => true,
        }
    } else {
        single_value_ends(files, p, v, parent)
    }
}

/// Checking the first `k` items of the array `arr` comes to an end.
pub open spec fn items_end(files: Seq<ModelFile>, p: PropertyDecl, arr: JsonValue, k: nat, parent: Seq<char>) -> bool
    decreases arr, 0nat, k,
{
    match arr {
        JsonValue::Array(items) => if k == 0 || k > items@.len() {
            true
        } else {
            &&& items_end(files, p, arr, (k - 1) as nat, parent)
            &&& items_outcome(files, p, arr, (k - 1) as nat, parent) is Ok ==> {
                proof { lemma_item_smaller(arr, k - 1); }
                single_value_ends(files, p, items@[k - 1], parent)
            }
        },
        _ => true,
    }
}

/// Checking one value `v` of property `p` comes to an end.
pub open spec fn single_value_ends(files: Seq<ModelFile>, p: PropertyDecl, v: JsonValue, parent: Seq<char>) -> bool
    decreases v, 3nat, 0nat,
{
    match p {
        PropertyDecl::Object(_) => if v is Object { validation_ends(files, v) } else { true },
        _ => true,
    }
}

proof fn lemma_props_outcome_fails(files: Seq<ModelFile>, prefix: Seq<PropertyDecl>, props: Seq<PropertyDecl>,
    obj: JsonValue, class: Seq<char>)
    requires
        prefix.len() <= props.len(),
        props.take(prefix.len() as int) == prefix,
        props_outcome(files, prefix, obj, class) is Err,
    ensures
        props_outcome(files, props, obj, class) == props_outcome(files, prefix, obj, class),
    decreases props.len() - prefix.len(),
{
    if props.len() > prefix.len() {
        assert(props.drop_last().take(prefix.len() as int) == prefix);
        lemma_props_outcome_fails(files, prefix, props.drop_last(), obj, class);
    } else {
        assert(props == prefix);
    }
}

proof fn lemma_first_undeclared_found(prefix: Seq<(String, JsonValue)>, entries: Seq<(String, JsonValue)>,
    props: Seq<PropertyDecl>)
    requires
        prefix.len() <= entries.len(),
        entries.take(prefix.len() as int) == prefix,
        first_undeclared(prefix, props) is Some,
    ensures
        first_undeclared(entries, props) == first_undeclared(prefix, props),
    decreases entries.len() - prefix.len(),
{
    if entries.len() > prefix.len() {
        assert(entries.drop_last().take(prefix.len() as int) == prefix);
        lemma_first_undeclared_found(prefix, entries.drop_last(), props);
    } else {
        assert(entries == prefix);
    }
}

proof fn lemma_items_outcome_fails(files: Seq<ModelFile>, p: PropertyDecl, arr: JsonValue, k: nat, n: nat, parent: Seq<char>)
    requires
        k <= n,
        arr is Array,
        n <= arr->Array_0@.len(),
        items_outcome(files, p, arr, k, parent) is Err,
    ensures
        items_outcome(files, p, arr, n, parent) == items_outcome(files, p, arr, k, parent),
    decreases n - k,
{
    if k < n {
        lemma_items_outcome_fails(files, p, arr, k, (n - 1) as nat, parent);
    }
}

proof fn lemma_props_end_prefix(files: Seq<ModelFile>, prefix: Seq<PropertyDecl>, props: Seq<PropertyDecl>,
    obj: JsonValue, class: Seq<char>)
    requires
        prefix.len() <= props.len(),
        props.take(prefix.len() as int) == prefix,
        props_end(files, props, obj, class),
    ensures
        props_end(files, prefix, obj, class),
    decreases props.len() - prefix.len(),
{
    if props.len() > prefix.len() {
        assert(props.drop_last().take(prefix.len() as int) == prefix);
        lemma_props_end_prefix(files, prefix, props.drop_last(), obj, class);
    } else {
        assert(props == prefix);
    }
}

proof fn lemma_props_end_after_error(files: Seq<ModelFile>, prefix: Seq<PropertyDecl>, props: Seq<PropertyDecl>,
    obj: JsonValue, class: Seq<char>)
    requires
        prefix.len() <= props.len(),
        props.take(prefix.len() as int) == prefix,
        props_end(files, prefix, obj, class),
        props_outcome(files, prefix, obj, class) is Err,
    ensures
        props_end(files, props, obj, class),
    decreases props.len() - prefix.len(),
{
    if props.len() > prefix.len() {
        assert(props.drop_last().take(prefix.len() as int) == prefix);
        lemma_props_end_after_error(files, prefix, props.drop_last(), obj, class);
        lemma_props_outcome_fails(files, prefix, props.drop_last(), obj, class);
    } else {
        assert(props == prefix);
    }
}

proof fn lemma_items_end_prefix(files: Seq<ModelFile>, p: PropertyDecl, arr: JsonValue, k: nat, n: nat, parent: Seq<char>)
    requires
        k <= n,
        arr is Array,
        n <= arr->Array_0@.len(),
        items_end(files, p, arr, n, parent),
    ensures
        items_end(files, p, arr, k, parent),
    decreases n - k,
{
    if k < n {
        lemma_items_end_prefix(files, p, arr, k, (n - 1) as nat, parent);
    }
}

proof fn lemma_items_end_after_error(files: Seq<ModelFile>, p: PropertyDecl, arr: JsonValue, k: nat, n: nat,
    parent: Seq<char>)
    requires
        k <= n,
        arr is Array,
        n <= arr->Array_0@.len(),
        items_end(files, p, arr, k, parent),
        items_outcome(files, p, arr, k, parent) is Err,
    ensures
        items_end(files, p, arr, n, parent),
    decreases n - k,
{
    if k < n {
        lemma_items_end_after_error(files, p, arr, k, (n - 1) as nat, parent);
        lemma_items_outcome_fails(files, p, arr, k, (n - 1) as nat, parent);
    }
}

proof fn lemma_instance_anc_step(files: Seq<ModelFile>, c: ClassDeclaration, k: nat)
    ensures
        instance_anc(files, c, k + 1) == match instance_anc(files, c, k) {
            Some(d) => instance_super(files, d),
            None => None,
        },
    decreases k,
{
    match instance_super(files, c) {
        Some(s) => {
            if k > 0 {
                lemma_instance_anc_step(files, s, (k - 1) as nat);
            } else {
                assert(instance_anc(files, s, 0) == Some(s));
            }
        },
        None => {},
    }
}

proof fn lemma_instance_anc_ended(files: Seq<ModelFile>, c: ClassDeclaration, a: nat, b: nat)
    requires
        instance_anc(files, c, a) is None,
        a <= b,
    ensures
        instance_anc(files, c, b) is None,
    decreases b - a,
{
    if a < b {
        lemma_instance_anc_ended(files, c, a, (b - 1) as nat);
        lemma_instance_anc_step(files, c, (b - 1) as nat);
    }
}

proof fn lemma_instance_anc_shift(files: Seq<ModelFile>, c: ClassDeclaration, a: nat, b: nat, t: nat)
    requires
        instance_anc(files, c, a) == instance_anc(files, c, b),
    ensures
        instance_anc(files, c, a + t) == instance_anc(files, c, b + t),
    decreases t,
{
    if t > 0 {
        lemma_instance_anc_shift(files, c, a, b, (t - 1) as nat);
        lemma_instance_anc_step(files, c, (a + t - 1) as nat);
        lemma_instance_anc_step(files, c, (b + t - 1) as nat);
    }
}

/// An ancestry that meets the same class twice never ends.
proof fn lemma_instance_anc_cycle(files: Seq<ModelFile>, c: ClassDeclaration, a: nat, b: nat, n: nat)
    requires
        a < b,
        instance_anc(files, c, b) is Some,
        instance_anc(files, c, a) == instance_anc(files, c, b),
    ensures
        instance_anc(files, c, n) is Some,
    decreases n,
{
    if n <= b {
        if instance_anc(files, c, n) is None {
            lemma_instance_anc_ended(files, c, n, b);
        }
    } else {
        let t = (n - b) as nat;
        lemma_instance_anc_shift(files, c, a, b, t);
        lemma_instance_anc_cycle(files, c, a, b, (a + t) as nat);
    }
}

/// The number of `false` entries of `s`.
pub open spec fn count_false(s: Seq<bool>) -> nat
    decreases s.len(),
{
    if s.len() == 0 {
        0
    } else {
        count_false(s.drop_last()) + if s.last() { 0nat } else { 1nat }
    }
}

proof fn lemma_count_false_mark(s: Seq<bool>, p: int)
    requires
        0 <= p < s.len(),
        !s[p],
    ensures
        count_false(s.update(p, true)) + 1 == count_false(s),
    decreases s.len(),
{
    if p < s.len() - 1 {
        assert(s.update(p, true).drop_last() == s.drop_last().update(p, true));
        lemma_count_false_mark(s.drop_last(), p);
    } else {
        assert(s.update(p, true).drop_last() == s.drop_last());
    }
}

/// `offsets` numbers the declarations of `files` one after the other, in
/// `0..total`: file `a`'s declarations start at `offsets[a]`.
pub open spec fn flat_layout(files: Seq<ModelFile>, offsets: Seq<usize>, total: int) -> bool {
    &&& offsets.len() == files.len()
    &&& forall|a: int| 0 <= a < files.len() ==> #[trigger] offsets[a] + files[a]@.declarations.len() <= total
    &&& forall|a: int, b: int| 0 <= a < b < files.len()
        ==> #[trigger] offsets[a] + files[a]@.declarations.len() <= #[trigger] offsets[b]
}

proof fn lemma_flat_injective(files: Seq<ModelFile>, offsets: Seq<usize>, total: int, i: int, j: int, i2: int, j2: int)
    requires
        flat_layout(files, offsets, total),
        0 <= i < files.len(),
        0 <= i2 < files.len(),
        0 <= j < files[i]@.declarations.len(),
        0 <= j2 < files[i2]@.declarations.len(),
        offsets[i] + j == offsets[i2] + j2,
    ensures
        i == i2,
        j == j2,
{
    if i < i2 {
        assert(offsets[i] + files[i]@.declarations.len() <= offsets[i2]);
    } else if i2 < i {
        assert(offsets[i2] + files[i2]@.declarations.len() <= offsets[i]);
    }
}

/// An instance of an abstract class is refused, naming the class.
pub proof fn law_abstract_instances_refused(files: Seq<ModelFile>, obj: JsonValue, class: Seq<char>, c: ClassDeclaration)
    requires
        obj.member_text("$class"@) == Some(class),
        lookup_type(files, class) == Some(Declaration::Class(c)),
        c.abstract_flag(),
    ensures
        object_outcome(files, obj) == Err::<(), ErrorView>(
            invalid("Cannot validate instance of abstract type '"@ + class + "'"@, class)),
{
}

/// A system member (such as `$class` or `$identifier`) is never an unexpected member.
pub proof fn law_system_members_expected(key: Seq<char>, props: Seq<PropertyDecl>)
    requires
        is_reserved_name(key),
    ensures
        !undeclared(key, props),
{
}

/// Validates JSON instances against the classes of a model manager.
pub struct ObjectValidator<'a> {
    model_manager: &'a ModelManager,
}

impl<'a> ObjectValidator<'a> {
    pub closed spec fn manager(&self) -> ModelManager {
        *self.model_manager
    }

    pub fn new(model_manager: &'a ModelManager) -> (r: Self)
        ensures
            r.manager() == *model_manager,
    {
        ObjectValidator { model_manager }
    }

    /// Validate a JSON instance. It must be an object with a `$class` member
    /// naming a concrete class of the manager, with no member that the class and
    /// its ancestors do not declare (system members aside), every required
    /// property present, and every value of its property's kind; an object
    /// property's value is validated in turn. Validation follows super types, so
    /// it is defined when the ancestry of each class it reaches ends.
    pub fn validate(&self, obj: &JsonValue) -> (r: Result<(), ConcertoError>)
        requires
            validation_ends(self.manager().files(), *obj),
        ensures
            same_outcome(r, object_outcome(self.manager().files(), *obj)),
    {
        match self.validate_checked(obj) {
            Some(r) => r,
            None => {
                proof { assert(false); }
                Ok(())
            },
        }
    }

    /// Validate a JSON instance as [`ObjectValidator::validate`] does, or give
    /// `None` where validation would reach a class whose super types form a
    /// cycle, and so would not end.
    #[verifier::loop_isolation(false)]
    pub fn validate_checked(&self, obj: &JsonValue) -> (r: Option<Result<(), ConcertoError>>)
        ensures
            r is None <==> !validation_ends(self.manager().files(), *obj),
            r matches Some(x) ==> same_outcome(x, object_outcome(self.manager().files(), *obj)),
        decreases *obj, 2nat, 0nat,
    {
        let ghost files = self.manager().files();
        let class: &str = match obj.get("$class") {
            Some(v) => match v.as_str() {
                Some(s) => s,
                None => return Some(Err(ConcertoError::Validation {
                    message: owned("Object missing '$class' field"),
                    component: owned("$class"),
                })),
            },
            None => return Some(Err(ConcertoError::Validation {
                message: owned("Object missing '$class' field"),
                component: owned("$class"),
            })),
        };
        let decl = match self.model_manager.get_type(class) {
            Ok(d) => d,
            Err(e) => return Some(Err(e)),
        };
        let class_decl: &ClassDeclaration = match decl.as_class() {
            Some(c) => c,
            None => return Some(Err(ConcertoError::Validation {
                message: concat3("Type '", class, "' is not a class declaration"),
                component: owned(class),
            })),
        };
        if class_decl.is_abstract() {
            return Some(Err(ConcertoError::Validation {
                message: concat3("Cannot validate instance of abstract type '", class, "'"),
                component: owned(class),
            }));
        }
        let entries = match obj.as_object() {
            Some(es) => es,
            None => return Some(Err(ConcertoError::Validation {
                message: owned("Expected a JSON object"),
                component: owned(class),
            })),
        };
        if !class_ancestry_ends(self.model_manager.files_slice(), class_decl) {
            return None;
        }
        let all_props = self.collect_all_properties(class_decl);
        let ghost props = all_props@.map_values(|p: &PropertyDecl| *p);
        assert(props == all_properties(files, *class_decl));

        // Members that no property declares.
        let mut i: usize = 0;
        assert(entries@.take(0) == Seq::<(String, JsonValue)>::empty());
        while i < entries.len()
            invariant
                props == all_props@.map_values(|p: &PropertyDecl| *p),
                i <= entries@.len(),
                first_undeclared(entries@.take(i as int), props) is None,
            decreases entries@.len() - i,
        {
            let key = entries[i].0.as_str();
            assert(entries@.take(i + 1).drop_last() == entries@.take(i as int));
            assert(entries@.take(i + 1).last() == entries@[i as int]);
            let declared = any_named(&all_props, key);
            proof {
                if declared {
                    let w = choose|w: int| 0 <= w < all_props@.len() && (#[trigger] all_props@[w]).spec_name() == key@;
                    assert(props[w] == *all_props@[w]);
                } else {
                    assert forall|w: int| 0 <= w < props.len() implies (#[trigger] props[w]).spec_name() != key@ by {
                        assert(props[w] == *all_props@[w]);
                    }
                }
            }
            if !is_system_property(key) && !declared {
                proof {
                    assert(first_undeclared(entries@.take(i + 1), props) == Some(key@));
                    lemma_first_undeclared_found(entries@.take(i + 1), entries@, props);
                }
                return Some(Err(ConcertoError::Validation {
                    message: concat5("Unexpected property '", key, "' on instance of '", class, "'"),
                    component: owned(class),
                }));
            }
            i = i + 1;
        }
        assert(entries@.take(entries@.len() as int) == entries@);

        // Required properties and the kinds of values.
        let mut j: usize = 0;
        assert(props.take(0) == Seq::<PropertyDecl>::empty());
        while j < all_props.len()
            invariant
                files == self.manager().files(),
                props == all_props@.map_values(|p: &PropertyDecl| *p),
                j <= props.len(),
                props_outcome(files, props.take(j as int), *obj, class@) is Ok,
                props_end(files, props.take(j as int), *obj, class@),
            decreases props.len() - j,
        {
            let prop: &PropertyDecl = all_props[j];
            assert(props.take(j + 1).drop_last() == props.take(j as int));
            assert(props.take(j + 1).last() == *prop);
            match obj.get(prop.name()) {
                None => {
                    if !prop.is_optional() {
                        proof {
                            lemma_props_outcome_fails(files, props.take(j + 1), props, *obj, class@);
                            lemma_props_end_after_error(files, props.take(j + 1), props, *obj, class@);
                        }
                        return Some(Err(ConcertoError::Validation {
                            message: concat5("Missing required property '", prop.name(), "' on instance of '", class, "'"),
                            component: owned(class),
                        }));
                    }
                },
                Some(val) => {
                    proof { lemma_member_smaller(*obj, prop.spec_name()); }
                    match self.validate_property_value(prop, val, class) {
                        None => {
                            proof {
                                if props_end(files, props, *obj, class@) {
                                    lemma_props_end_prefix(files, props.take(j + 1), props, *obj, class@);
                                }
                            }
                            return None;
                        },
                        Some(Err(e)) => {
                            proof {
                                lemma_props_outcome_fails(files, props.take(j + 1), props, *obj, class@);
                                lemma_props_end_after_error(files, props.take(j + 1), props, *obj, class@);
                            }
                            return Some(Err(e));
                        },
                        Some(Ok(())) => {},
                    }
                },
            }
            j = j + 1;
        }
        assert(props.take(props.len() as int) == props);
        Some(Ok(()))
    }

    /// The properties of `cd` and its ancestors, inherited ones first.
    fn collect_all_properties(&self, cd: &'a ClassDeclaration) -> (r: Vec<&'a PropertyDecl>)
        requires
            exists|n: nat| #[trigger] instance_anc(self.manager().files(), *cd, n) is None,
        ensures
            r@.map_values(|p: &PropertyDecl| *p) == all_properties(self.manager().files(), *cd),
    {
        let ghost n = choose|n: nat| #[trigger] instance_anc(self.manager().files(), *cd, n) is None;
        self.collect_properties_within(cd, Ghost(n))
    }

    fn collect_properties_within(&self, cd: &'a ClassDeclaration, Ghost(n): Ghost<nat>) -> (r: Vec<&'a PropertyDecl>)
        requires
            instance_anc(self.manager().files(), *cd, n) is None,
        ensures
            r@.map_values(|p: &PropertyDecl| *p) == ancestry_properties(self.manager().files(), *cd, n),
        decreases n,
    {
        let ghost files = self.manager().files();
        let mut props: Vec<&'a PropertyDecl> = Vec::new();
        let sup: Option<&'a ClassDeclaration> = match cd.super_type() {
            Some(t) => {
                let super_fqn = match &t.namespace {
                    Some(ns) => fully_qualified_name(ns.as_str(), t.name.as_str()),
                    None => match &t.resolved_name {
                        Some(resolved) => resolved.clone(),
                        None => t.name.clone(),
                    },
                };
                match self.model_manager.get_type(super_fqn.as_str()) {
                    Ok(d) => d.as_class(),
                    Err(_) => None,
                }
            },
            None => None,
        };
        match sup {
            Some(s) => {
                assert(instance_super(files, *cd) == Some(*s));
                let mut inherited = self.collect_properties_within(s, Ghost((n - 1) as nat));
                props.append(&mut inherited);
            },
            None => {
                assert(instance_super(files, *cd) is None);
            },
        }
        let own = cd.own_properties();
        let ghost before = props@;
        let mut i: usize = 0;
        while i < own.len()
            invariant
                own@ == cd.property_list(),
                i <= own@.len(),
                props@ == before + own@.take(i as int).map_values(|p: PropertyDecl| &p),
            decreases own@.len() - i,
        {
            props.push(&own[i]);
            assert(own@.take(i + 1).map_values(|p: PropertyDecl| &p)
                == own@.take(i as int).map_values(|p: PropertyDecl| &p).push(&own@[i as int]));
            i = i + 1;
        }
        proof {
            assert(own@.take(own@.len() as int) == own@);
            assert(props@.map_values(|p: &PropertyDecl| *p)
                == before.map_values(|p: &PropertyDecl| *p) + own@);
        }
        props
    }

    /// Check the value of property `prop` on an instance of `parent_class`;
    /// `None` where the check would not end.
    #[verifier::loop_isolation(false)]
    fn validate_property_value(&self, prop: &PropertyDecl, value: &JsonValue, parent_class: &str)
        -> (r: Option<Result<(), ConcertoError>>)
        ensures
            r is None <==> !value_ends(self.manager().files(), *prop, *value, parent_class@),
            r matches Some(x) ==> same_outcome(x, value_outcome(self.manager().files(), *prop, *value, parent_class@)),
        decreases *value, 4nat, 0nat,
    {
        let ghost files = self.manager().files();
        if prop.is_array() {
            let arr = match value.as_array() {
                Some(a) => a,
                None => return Some(Err(ConcertoError::Validation {
                    message: concat5("Property '", prop.name(), "' should be an array on '", parent_class, "'"),
                    component: owned(parent_class),
                })),
            };
            let mut k: usize = 0;
            while k < arr.len()
                invariant
                    files == self.manager().files(),
                    *value == JsonValue::Array(*arr),
                    k <= arr@.len(),
                    items_outcome(files, *prop, *value, k as nat, parent_class@) is Ok,
                    items_end(files, *prop, *value, k as nat, parent_class@),
                decreases arr@.len() - k,
            {
                proof { lemma_item_smaller(*value, k as int); }
                match self.validate_single_value(prop, &arr[k], parent_class) {
                    None => {
                        proof {
                            assert(!items_end(files, *prop, *value, (k + 1) as nat, parent_class@));
                            if items_end(files, *prop, *value, arr@.len() as nat, parent_class@) {
                                lemma_items_end_prefix(files, *prop, *value, (k + 1) as nat, arr@.len() as nat, parent_class@);
                            }
                        }
                        return None;
                    },
                    Some(Err(e)) => {
                        proof {
                            assert(items_outcome(files, *prop, *value, (k + 1) as nat, parent_class@) is Err);
                            lemma_items_outcome_fails(files, *prop, *value, (k + 1) as nat, arr@.len() as nat, parent_class@);
                            lemma_items_end_after_error(files, *prop, *value, (k + 1) as nat, arr@.len() as nat, parent_class@);
                        }
                        return Some(Err(e));
                    },
                    Some(Ok(())) => {},
                }
                k = k + 1;
            }
            Some(Ok(()))
        } else {
            self.validate_single_value(prop, value, parent_class)
        }
    }

    /// Check one value of property `prop` on an instance of `parent_class`;
    /// `None` where the check would not end.
    fn validate_single_value(&self, prop: &PropertyDecl, value: &JsonValue, parent_class: &str)
        -> (r: Option<Result<(), ConcertoError>>)
        ensures
            r is None <==> !single_value_ends(self.manager().files(), *prop, *value, parent_class@),
            r matches Some(x) ==> same_outcome(x, single_value_outcome(self.manager().files(), *prop, *value, parent_class@)),
        decreases *value, 3nat, 0nat,
    {
        let name = prop.name();
        let ok: bool = match prop {
            PropertyDecl::Boolean(_) => value.is_boolean(),
            PropertyDecl::String(_) => value.is_string(),
            PropertyDecl::Integer(_) => value.is_integer(),
            PropertyDecl::Long(_) => value.is_integer(),
            PropertyDecl::Double(_) => value.is_number(),
            PropertyDecl::DateTime(_) => value.is_string(),
            PropertyDecl::Object(_) => {
                if value.is_object() {
                    return self.validate_checked(value);
                }
                value.is_null()
            },
            PropertyDecl::Relationship(_) => value.is_string(),
            PropertyDecl::Enum(_) => value.is_string(),
        };
        if ok {
            return Some(Ok(()));
        }
        let message = match prop {
            PropertyDecl::Boolean(_) => concat5("Property '", name, "' should be Boolean on '", parent_class, "'"),
            PropertyDecl::String(_) => concat5("Property '", name, "' should be String on '", parent_class, "'"),
            PropertyDecl::Integer(_) => concat5("Property '", name, "' should be an integer on '", parent_class, "'"),
            PropertyDecl::Long(_) => concat5("Property '", name, "' should be an integer on '", parent_class, "'"),
            PropertyDecl::Double(_) => concat5("Property '", name, "' should be a number on '", parent_class, "'"),
            PropertyDecl::DateTime(_) => concat5("Property '", name, "' should be a DateTime string on '", parent_class, "'"),
            PropertyDecl::Object(_) => concat5("Property '", name, "' should be an object on '", parent_class, "'"),
            PropertyDecl::Relationship(_) => concat5("Relationship '", name, "' should be a string URI on '", parent_class, "'"),
            PropertyDecl::Enum(_) => concat5("Enum property '", name, "' should be a string on '", parent_class, "'"),
        };
        Some(Err(ConcertoError::Validation { message, component: owned(parent_class) }))
    }
}

/// Whether the ancestry of `c` (along `instance_super`) ends.
fn class_ancestry_ends(files: &[ModelFile], c: &ClassDeclaration) -> (r: bool)
    ensures
        r == exists|n: nat| #[trigger] instance_anc(files@, *c, n) is None,
{
    let (offsets, total) = flat_layout_of(files);
    let mut cells: Vec<bool> = Vec::new();
    let mut x: usize = 0;
    while x < total
        invariant
            x <= total,
            cells@.len() == x,
            forall|p: int| 0 <= p < x ==> !#[trigger] cells@[p],
        decreases total - x,
    {
        cells.push(false);
        x = x + 1;
    }
    ancestry_ends(files, &offsets, &mut cells, c)
}

/// Number the declarations of `files` one after the other.
fn flat_layout_of(files: &[ModelFile]) -> (r: (Vec<usize>, usize))
    ensures
        flat_layout(files@, r.0@, r.1 as int),
{
    let mut offsets: Vec<usize> = Vec::new();
    let mut cells: Vec<bool> = Vec::new();
    let mut i: usize = 0;
    while i < files.len()
        invariant
            i <= files@.len(),
            offsets@.len() == i,
            forall|a: int| 0 <= a < i ==> #[trigger] offsets@[a] + files@[a]@.declarations.len() <= cells@.len(),
            forall|a: int, b: int| 0 <= a < b < i
                ==> #[trigger] offsets@[a] + files@[a]@.declarations.len() <= #[trigger] offsets@[b],
        decreases files@.len() - i,
    {
        let start = cells.len();
        offsets.push(start);
        let n = files[i].all_declarations().len();
        let mut j: usize = 0;
        while j < n
            invariant
                j <= n,
                cells@.len() == start + j,
            decreases n - j,
        {
            cells.push(false);
            j = j + 1;
        }
        proof {
            assert forall|a: int, b: int| 0 <= a < b < i + 1
                implies #[trigger] offsets@[a] + files@[a]@.declarations.len() <= #[trigger] offsets@[b] by {
                if b == i {
                    assert(offsets@[b] == start);
                }
            }
        }
        i = i + 1;
    }
    (offsets, cells.len())
}

/// Position of the declaration that a fully-qualified name denotes.
fn find_position(files: &[ModelFile], fqn: &str) -> (r: Option<(usize, usize)>)
    ensures
        match r {
            Some((i, j)) => i < files@.len() && j < files@[i as int]@.declarations.len()
                && lookup_type(files@, fqn@) == Some(files@[i as int]@.declarations[j as int]),
            None => lookup_type(files@, fqn@) is None,
        },
{
    let ns = crate::model_util::get_namespace(fqn);
    let short = crate::model_util::get_short_name(fqn);
    match crate::introspect::validation::find_file(files, ns) {
        Some(i) => match files[i].local_type_index(short) {
            Some(j) => Some((i, j)),
            None => None,
        },
        None => None,
    }
}

/// Whether the ancestry of `c` (along `instance_super`) ends; `cells` marks no
/// declaration yet.
fn ancestry_ends(files: &[ModelFile], offsets: &Vec<usize>, cells: &mut Vec<bool>, c: &ClassDeclaration) -> (r: bool)
    requires
        flat_layout(files@, offsets@, old(cells)@.len() as int),
        forall|p: int| 0 <= p < old(cells)@.len() ==> !#[trigger] old(cells)@[p],
    ensures
        r == exists|n: nat| #[trigger] instance_anc(files@, *c, n) is None,
{
    let ghost f = files@;
    let n_cells = cells.len();
    let ghost total = n_cells as int;
    let mut current: &ClassDeclaration = c;
    let ghost mut k: nat = 0;
    let ghost mut marks: Seq<(int, int)> = Seq::empty();
    loop
        invariant
            f == files@,
            cells@.len() == total,
            total == n_cells,
            flat_layout(f, offsets@, total),
            instance_anc(f, *c, k) == Some(*current),
            marks.len() == k,
            forall|t: int| 0 <= t < k ==> {
                let (i, j) = #[trigger] marks[t];
                &&& 0 <= i < f.len()
                &&& 0 <= j < f[i]@.declarations.len()
                &&& f[i]@.declarations[j] == Declaration::Class(instance_anc(f, *c, (t + 1) as nat)->0)
                &&& instance_anc(f, *c, (t + 1) as nat) is Some
            },
            forall|p: int| 0 <= p < total ==> (#[trigger] cells@[p] <==> exists|t: int| 0 <= t < k
                && offsets@[marks[t].0] + marks[t].1 == p),
        decreases count_false(cells@),
    {
        proof { lemma_instance_anc_step(f, *c, k); }
        let next: Option<(usize, usize)> = match current.super_type() {
            Some(t) => {
                let super_fqn = match &t.namespace {
                    Some(ns) => fully_qualified_name(ns.as_str(), t.name.as_str()),
                    None => match &t.resolved_name {
                        Some(resolved) => resolved.clone(),
                        None => t.name.clone(),
                    },
                };
                find_position(files, super_fqn.as_str())
            },
            None => None,
        };
        let (i, j) = match next {
            Some(pos) => pos,
            None => {
                assert(instance_anc(f, *c, k + 1) is None);
                return true;
            },
        };
        let s: &ClassDeclaration = match &files[i].all_declarations()[j] {
            Declaration::Class(s) => s,
            _ => {
                assert(instance_anc(f, *c, k + 1) is None);
                return true;
            },
        };
        assert(instance_anc(f, *c, k + 1) == Some(*s));
        assert(offsets@[i as int] + f[i as int]@.declarations.len() <= total);
        let p: usize = offsets[i] + j;
        if cells[p] {
            proof {
                let t = choose|t: int| 0 <= t < k && offsets@[marks[t].0] + marks[t].1 == p as int;
                let (i2, j2) = marks[t];
                lemma_flat_injective(f, offsets@, total, i as int, j as int, i2, j2);
                assert(instance_anc(f, *c, (t + 1) as nat) == instance_anc(f, *c, k + 1));
                assert forall|n: nat| !(#[trigger] instance_anc(f, *c, n) is None) by {
                    lemma_instance_anc_cycle(f, *c, (t + 1) as nat, k + 1, n);
                }
            }
            return false;
        }
        proof { lemma_count_false_mark(cells@, p as int); }
        let ghost before = cells@;
        cells.set(p, true);
        proof {
            let old_marks = marks;
            marks = old_marks.push((i as int, j as int));
            assert forall|t: int| 0 <= t < k ==> marks[t] == old_marks[t] by {}
            assert forall|p2: int| 0 <= p2 < total implies (#[trigger] cells@[p2] <==> exists|t: int| 0 <= t < k + 1
                && offsets@[marks[t].0] + marks[t].1 == p2) by {
                if p2 == p as int {
                    assert(offsets@[marks[k as int].0] + marks[k as int].1 == p2);
                } else {
                    assert(cells@[p2] == before[p2]);
                    if before[p2] {
                        let t = choose|t: int| 0 <= t < k && offsets@[old_marks[t].0] + old_marks[t].1 == p2;
                        assert(marks[t] == old_marks[t]);
                    }
                    if exists|t: int| 0 <= t < k + 1 && offsets@[marks[t].0] + marks[t].1 == p2 {
                        let t = choose|t: int| 0 <= t < k + 1 && offsets@[marks[t].0] + marks[t].1 == p2;
                        assert(t < k);
                        assert(marks[t] == old_marks[t]);
                    }
                }
            }
        }
        current = s;
        proof { k = k + 1; }
    }
}

/// Whether some property of `props` is named `name`.
fn any_named(props: &Vec<&PropertyDecl>, name: &str) -> (r: bool)
    ensures
        r <==> exists|i: int| 0 <= i < props@.len() && (#[trigger] props@[i]).spec_name() == name@,
{
    let mut i: usize = 0;
    while i < props.len()
        invariant
            i <= props@.len(),
            forall|j: int| 0 <= j < i ==> (#[trigger] props@[j]).spec_name() != name@,
        decreases props@.len() - i,
    {
        if str_eq(props[i].name(), name) {
            return true;
        }
        i = i + 1;
    }
    false
}

} // verus!
