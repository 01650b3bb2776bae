//! Declarations of a model file: classes, enums, scalars and maps.
use vstd::prelude::*;
use crate::error::{ConcertoError, ErrorView, illegal, illegal_model};
use crate::json::JsonValue;
use crate::metamodel::{ClassBody, Decodable, Decorator, EnumBody, Identified, MapDeclarationBody,
    NamedBody, Range, TypeIdentifier};
use crate::model_util::get_short_name;
use crate::text::{concat2, str_contains, str_ends_with, str_eq, ends_with_seq};
use super::properties::{PropertyDecl, class_of, class_text, decorator_slice, invalid_error,
    invalid, kind_of, property_accepts, property_error};
use super::traits::{Decorated, HasProperties, Identifiable, Named, decorators_of, names_identified_by};

verus! {

/// The `$class` of an optional identity clause.
pub open spec fn identity_of(o: Option<Identified>) -> Option<Seq<char>> {
    match o {
        Some(i) => Some(i.class@),
        None => None,
    }
}

/// `properties` is an array whose items are all JSON forms of properties.
pub open spec fn properties_accepted(v: JsonValue) -> bool {
    match v.member("properties"@) {
        Some(JsonValue::Array(items)) => forall|i: int| 0 <= i < items@.len() ==> #[trigger] property_accepts(items@[i]),
        _ => true,
    }
}

/// `ps` are the properties read from the `properties` array, one for one.
pub open spec fn properties_read(ps: Seq<PropertyDecl>, v: JsonValue) -> bool {
    match v.member("properties"@) {
        Some(JsonValue::Array(items)) => ps.len() == items@.len()
            && forall|i: int| 0 <= i < items@.len() ==> #[trigger] ps[i].read_from(items@[i]),
        _ => ps.len() == 0,
    }
}

/// The error of the first item of `properties` that is not the form of a property.
pub open spec fn properties_error(v: JsonValue, e: ErrorView) -> bool {
    match v.member("properties"@) {
        Some(JsonValue::Array(items)) => exists|i: int| 0 <= i < items@.len()
            && !property_accepts(#[trigger] items@[i])
            && (forall|j: int| 0 <= j < i ==> property_accepts(items@[j]))
            && property_error(items@[i], e),
        _ => false,
    }
}

/// Reads the properties of a declaration from its `properties` array; no array gives none.
pub fn parse_properties_from_json(value: &JsonValue) -> (r: Result<Vec<PropertyDecl>, ConcertoError>)
    ensures
        r is Ok <==> properties_accepted(*value),
        r matches Ok(ps) ==> properties_read(ps@, *value),
        r matches Err(e) ==> properties_error(*value, e@),
{
    match value.get("properties") {
        Some(JsonValue::Array(items)) => {
            let mut out: Vec<PropertyDecl> = Vec::new();
            let mut i: usize = 0;
            while i < items.len()
                invariant
                    value.member("properties"@) == Some(JsonValue::Array(*items)),
                    i <= items@.len(),
                    out@.len() == i,
                    forall|j: int| 0 <= j < i ==> #[trigger] property_accepts(items@[j]),
                    forall|j: int| 0 <= j < i ==> #[trigger] out@[j].read_from(items@[j]),
                decreases items@.len() - i,
            {
                match PropertyDecl::from_value(&items[i]) {
                    Ok(p) => out.push(p),
                    Err(e) => {
                        proof {
                            assert(!property_accepts(items@[i as int]));
                            assert(forall|j: int| 0 <= j < i ==> property_accepts(items@[j]));
                            assert(property_error(items@[i as int], e@));
                            let k = i as int;
                            assert(0 <= k < items@.len() && !property_accepts(items@[k])
                                && (forall|j: int| 0 <= j < k ==> property_accepts(items@[j]))
                                && property_error(items@[k], e@));
                            assert(value.member("properties"@) == Some(JsonValue::Array(*items)));
                            assert(properties_accepted(*value) ==> property_accepts(items@[k])) by {
                                if properties_accepted(*value) {
                                    match value.member("properties"@) {
                                        Some(JsonValue::Array(its)) => {
                                            assert(its@ == items@);
                                            assert(property_accepts(its@[k]));
                                        },
                                        _ => {},
                                    }
                                }
                            }
                            assert(!properties_accepted(*value));
                            assert(properties_error(*value, e@));
                        }
                        return Err(e);
                    },
                }
                i = i + 1;
            }
            Ok(out)
        },
        _ => Ok(Vec::new()),
    }
}

/// A concept declaration.
#[derive(Debug, Clone)]
pub struct ConceptDeclaration {
    pub name: String,
    pub decorators: Option<Vec<Decorator>>,
    pub location: Option<Range>,
    pub is_abstract: bool,
    pub identified: Option<Identified>,
    pub super_type: Option<TypeIdentifier>,
    pub properties: Vec<PropertyDecl>,
}

impl ConceptDeclaration {
    /// `self` is the declaration read from `v`.
    pub open spec fn read_from(self, v: JsonValue) -> bool {
        &&& v.member_text("name"@) == Some(self.name@)
        &&& v.member_bool("isAbstract"@) == Some(self.is_abstract)
        &&& exists|b: ClassBody| b.read_from(v) && b.decorators == self.decorators && b.location == self.location
            && b.identified == self.identified && b.super_type == self.super_type
        &&& properties_read(self.properties@, v)
    }

    pub(crate) fn new(body: ClassBody, properties: Vec<PropertyDecl>) -> (r: Self)
        ensures
            r.name == body.name,
            r.decorators == body.decorators,
            r.location == body.location,
            r.is_abstract == body.is_abstract,
            r.identified == body.identified,
            r.super_type == body.super_type,
            r.properties == properties,
    {
        ConceptDeclaration {
            name: body.name,
            decorators: body.decorators,
            location: body.location,
            is_abstract: body.is_abstract,
            identified: body.identified,
            super_type: body.super_type,
            properties,
        }
    }

    /// Reads the declaration from its JSON form.
    pub fn try_from(value: &JsonValue) -> (r: Result<ConceptDeclaration, ConcertoError>)
        ensures
            r is Ok <==> (ClassBody::accepts(*value) && properties_accepted(*value)),
            r matches Ok(d) ==> d.read_from(*value),
            r matches Err(e) ==> if !ClassBody::accepts(*value) {
                e@ == invalid_error("ConceptDeclaration"@, ClassBody::decode_error(*value))
            } else {
                properties_error(*value, e@)
            },
    {
        let body = match ClassBody::decode(value) {
            Ok(b) => b,
            Err(e) => return Err(invalid("ConceptDeclaration", e)),
        };
        let ghost b0 = body;
        let properties = parse_properties_from_json(value)?;
        let r = ConceptDeclaration::new(body, properties);
        assert(b0.read_from(*value));
        Ok(r)
    }
}

impl Decorated for ConceptDeclaration {
    open spec fn decorator_list(&self) -> Seq<Decorator> {
        decorators_of(self.decorators)
    }

    fn decorators(&self) -> (r: &[Decorator]) {
        decorator_slice(&self.decorators)
    }
}

impl Named for ConceptDeclaration {
    open spec fn spec_name(&self) -> Seq<char> {
        self.name@
    }

    open spec fn spec_location(&self) -> Option<Range> {
        self.location
    }

    fn name(&self) -> (r: &str) {
        self.name.as_str()
    }

    fn location(&self) -> (r: Option<&Range>) {
        self.location.as_ref()
    }
}

impl HasProperties for ConceptDeclaration {
    open spec fn property_list(&self) -> Seq<PropertyDecl> {
        self.properties@
    }

    open spec fn super_type_ref(&self) -> Option<TypeIdentifier> {
        self.super_type
    }

    open spec fn abstract_flag(&self) -> bool {
        self.is_abstract
    }

    fn own_properties(&self) -> (r: &[PropertyDecl]) {
        self.properties.as_slice()
    }

    fn super_type(&self) -> (r: Option<&TypeIdentifier>) {
        self.super_type.as_ref()
    }

    fn is_abstract(&self) -> (r: bool) {
        self.is_abstract
    }
}

impl Identifiable for ConceptDeclaration {
    open spec fn identity_class(&self) -> Option<Seq<char>> {
        identity_of(self.identified)
    }

    fn is_identified(&self) -> (r: bool) {
        self.identified.is_some()
    }

    fn is_system_identified(&self) -> (r: bool) {
        system_identified(&self.identified)
    }

    fn is_explicitly_identified(&self) -> (r: bool) {
        explicitly_identified(&self.identified)
    }

    fn identifier_field_name(&self) -> (r: Option<&str>) {
        identifier_field(&self.identified)
    }
}

/// A asset declaration.
#[derive(Debug, Clone)]
pub struct AssetDeclaration {
    pub name: String,
    pub decorators: Option<Vec<Decorator>>,
    pub location: Option<Range>,
    pub is_abstract: bool,
    pub identified: Option<Identified>,
    pub super_type: Option<TypeIdentifier>,
    pub properties: Vec<PropertyDecl>,
}

impl AssetDeclaration {
    /// `self` is the declaration read from `v`.
    pub open spec fn read_from(self, v: JsonValue) -> bool {
        &&& v.member_text("name"@) == Some(self.name@)
        &&& v.member_bool("isAbstract"@) == Some(self.is_abstract)
        &&& exists|b: ClassBody| b.read_from(v) && b.decorators == self.decorators && b.location == self.location
            && b.identified == self.identified && b.super_type == self.super_type
        &&& properties_read(self.properties@, v)
    }

    pub(crate) fn new(body: ClassBody, properties: Vec<PropertyDecl>) -> (r: Self)
        ensures
            r.name == body.name,
            r.decorators == body.decorators,
            r.location == body.location,
            r.is_abstract == body.is_abstract,
            r.identified == body.identified,
            r.super_type == body.super_type,
            r.properties == properties,
    {
        AssetDeclaration {
            name: body.name,
            decorators: body.decorators,
            location: body.location,
            is_abstract: body.is_abstract,
            identified: body.identified,
            super_type: body.super_type,
            properties,
        }
    }

    /// Reads the declaration from its JSON form.
    pub fn try_from(value: &JsonValue) -> (r: Result<AssetDeclaration, ConcertoError>)
        ensures
            r is Ok <==> (ClassBody::accepts(*value) && properties_accepted(*value)),
            r matches Ok(d) ==> d.read_from(*value),
            r matches Err(e) ==> if !ClassBody::accepts(*value) {
                e@ == invalid_error("AssetDeclaration"@, ClassBody::decode_error(*value))
            } else {
                properties_error(*value, e@)
            },
    {
        let body = match ClassBody::decode(value) {
            Ok(b) => b,
            Err(e) => return Err(invalid("AssetDeclaration", e)),
        };
        let ghost b0 = body;
        let properties = parse_properties_from_json(value)?;
        let r = AssetDeclaration::new(body, properties);
        assert(b0.read_from(*value));
        Ok(r)
    }
}

impl Decorated for AssetDeclaration {
    open spec fn decorator_list(&self) -> Seq<Decorator> {
        decorators_of(self.decorators)
    }

    fn decorators(&self) -> (r: &[Decorator]) {
        decorator_slice(&self.decorators)
    }
}

impl Named for AssetDeclaration {
    open spec fn spec_name(&self) -> Seq<char> {
        self.name@
    }

    open spec fn spec_location(&self) -> Option<Range> {
        self.location
    }

    fn name(&self) -> (r: &str) {
        self.name.as_str()
    }

    fn location(&self) -> (r: Option<&Range>) {
        self.location.as_ref()
    }
}

impl HasProperties for AssetDeclaration {
    open spec fn property_list(&self) -> Seq<PropertyDecl> {
        self.properties@
    }

    open spec fn super_type_ref(&self) -> Option<TypeIdentifier> {
        self.super_type
    }

    open spec fn abstract_flag(&self) -> bool {
        self.is_abstract
    }

    fn own_properties(&self) -> (r: &[PropertyDecl]) {
        self.properties.as_slice()
    }

    fn super_type(&self) -> (r: Option<&TypeIdentifier>) {
        self.super_type.as_ref()
    }

    fn is_abstract(&self) -> (r: bool) {
        self.is_abstract
    }
}

impl Identifiable for AssetDeclaration {
    open spec fn identity_class(&self) -> Option<Seq<char>> {
        identity_of(self.identified)
    }

    fn is_identified(&self) -> (r: bool) {
        self.identified.is_some()
    }

    fn is_system_identified(&self) -> (r: bool) {
        system_identified(&self.identified)
    }

    fn is_explicitly_identified(&self) -> (r: bool) {
        explicitly_identified(&self.identified)
    }

    fn identifier_field_name(&self) -> (r: Option<&str>) {
        identifier_field(&self.identified)
    }
}

/// A participant declaration.
#[derive(Debug, Clone)]
pub struct ParticipantDeclaration {
    pub name: String,
    pub decorators: Option<Vec<Decorator>>,
    pub location: Option<Range>,
    pub is_abstract: bool,
    pub identified: Option<Identified>,
    pub super_type: Option<TypeIdentifier>,
    pub properties: Vec<PropertyDecl>,
}

impl ParticipantDeclaration {
    /// `self` is the declaration read from `v`.
    pub open spec fn read_from(self, v: JsonValue) -> bool {
        &&& v.member_text("name"@) == Some(self.name@)
        &&& v.member_bool("isAbstract"@) == Some(self.is_abstract)
        &&& exists|b: ClassBody| b.read_from(v) && b.decorators == self.decorators && b.location == self.location
            && b.identified == self.identified && b.super_type == self.super_type
        &&& properties_read(self.properties@, v)
    }

    pub(crate) fn new(body: ClassBody, properties: Vec<PropertyDecl>) -> (r: Self)
        ensures
            r.name == body.name,
            r.decorators == body.decorators,
            r.location == body.location,
            r.is_abstract == body.is_abstract,
            r.identified == body.identified,
            r.super_type == body.super_type,
            r.properties == properties,
    {
        ParticipantDeclaration {
            name: body.name,
            decorators: body.decorators,
            location: body.location,
            is_abstract: body.is_abstract,
            identified: body.identified,
            super_type: body.super_type,
            properties,
        }
    }

    /// Reads the declaration from its JSON form.
    pub fn try_from(value: &JsonValue) -> (r: Result<ParticipantDeclaration, ConcertoError>)
        ensures
            r is Ok <==> (ClassBody::accepts(*value) && properties_accepted(*value)),
            r matches Ok(d) ==> d.read_from(*value),
            r matches Err(e) ==> if !ClassBody::accepts(*value) {
                e@ == invalid_error("ParticipantDeclaration"@, ClassBody::decode_error(*value))
            } else {
                properties_error(*value, e@)
            },
    {
        let body = match ClassBody::decode(value) {
            Ok(b) => b,
            Err(e) => return Err(invalid("ParticipantDeclaration", e)),
        };
        let ghost b0 = body;
        let properties = parse_properties_from_json(value)?;
        let r = ParticipantDeclaration::new(body, properties);
        assert(b0.read_from(*value));
        Ok(r)
    }
}

impl Decorated for ParticipantDeclaration {
    open spec fn decorator_list(&self) -> Seq<Decorator> {
        decorators_of(self.decorators)
    }

    fn decorators(&self) -> (r: &[Decorator]) {
        decorator_slice(&self.decorators)
    }
}

impl Named for ParticipantDeclaration {
    open spec fn spec_name(&self) -> Seq<char> {
        self.name@
    }

    open spec fn spec_location(&self) -> Option<Range> {
        self.location
    }

    fn name(&self) -> (r: &str) {
        self.name.as_str()
    }

    fn location(&self) -> (r: Option<&Range>) {
        self.location.as_ref()
    }
}

impl HasProperties for ParticipantDeclaration {
    open spec fn property_list(&self) -> Seq<PropertyDecl> {
        self.properties@
    }

    open spec fn super_type_ref(&self) -> Option<TypeIdentifier> {
        self.super_type
    }

    open spec fn abstract_flag(&self) -> bool {
        self.is_abstract
    }

    fn own_properties(&self) -> (r: &[PropertyDecl]) {
        self.properties.as_slice()
    }

    fn super_type(&self) -> (r: Option<&TypeIdentifier>) {
        self.super_type.as_ref()
    }

    fn is_abstract(&self) -> (r: bool) {
        self.is_abstract
    }
}

impl Identifiable for ParticipantDeclaration {
    open spec fn identity_class(&self) -> Option<Seq<char>> {
        identity_of(self.identified)
    }

    fn is_identified(&self) -> (r: bool) {
        self.identified.is_some()
    }

    fn is_system_identified(&self) -> (r: bool) {
        system_identified(&self.identified)
    }

    fn is_explicitly_identified(&self) -> (r: bool) {
        explicitly_identified(&self.identified)
    }

    fn identifier_field_name(&self) -> (r: Option<&str>) {
        identifier_field(&self.identified)
    }
}

/// A transaction declaration.
#[derive(Debug, Clone)]
pub struct TransactionDeclaration {
    pub name: String,
    pub decorators: Option<Vec<Decorator>>,
    pub location: Option<Range>,
    pub is_abstract: bool,
    pub identified: Option<Identified>,
    pub super_type: Option<TypeIdentifier>,
    pub properties: Vec<PropertyDecl>,
}

impl TransactionDeclaration {
    /// `self` is the declaration read from `v`.
    pub open spec fn read_from(self, v: JsonValue) -> bool {
        &&& v.member_text("name"@) == Some(self.name@)
        &&& v.member_bool("isAbstract"@) == Some(self.is_abstract)
        &&& exists|b: ClassBody| b.read_from(v) && b.decorators == self.decorators && b.location == self.location
            && b.identified == self.identified && b.super_type == self.super_type
        &&& properties_read(self.properties@, v)
    }

    pub(crate) fn new(body: ClassBody, properties: Vec<PropertyDecl>) -> (r: Self)
        ensures
            r.name == body.name,
            r.decorators == body.decorators,
            r.location == body.location,
            r.is_abstract == body.is_abstract,
            r.identified == body.identified,
            r.super_type == body.super_type,
            r.properties == properties,
    {
        TransactionDeclaration {
            name: body.name,
            decorators: body.decorators,
            location: body.location,
            is_abstract: body.is_abstract,
            identified: body.identified,
            super_type: body.super_type,
            properties,
        }
    }

    /// Reads the declaration from its JSON form.
    pub fn try_from(value: &JsonValue) -> (r: Result<TransactionDeclaration, ConcertoError>)
        ensures
            r is Ok <==> (ClassBody::accepts(*value) && properties_accepted(*value)),
            r matches Ok(d) ==> d.read_from(*value),
            r matches Err(e) ==> if !ClassBody::accepts(*value) {
                e@ == invalid_error("TransactionDeclaration"@, ClassBody::decode_error(*value))
            } else {
                properties_error(*value, e@)
            },
    {
        let body = match ClassBody::decode(value) {
            Ok(b) => b,
            Err(e) => return Err(invalid("TransactionDeclaration", e)),
        };
        let ghost b0 = body;
        let properties = parse_properties_from_json(value)?;
        let r = TransactionDeclaration::new(body, properties);
        assert(b0.read_from(*value));
        Ok(r)
    }
}

impl Decorated for TransactionDeclaration {
    open spec fn decorator_list(&self) -> Seq<Decorator> {
        decorators_of(self.decorators)
    }

    fn decorators(&self) -> (r: &[Decorator]) {
        decorator_slice(&self.decorators)
    }
}

impl Named for TransactionDeclaration {
    open spec fn spec_name(&self) -> Seq<char> {
        self.name@
    }

    open spec fn spec_location(&self) -> Option<Range> {
        self.location
    }

    fn name(&self) -> (r: &str) {
        self.name.as_str()
    }

    fn location(&self) -> (r: Option<&Range>) {
        self.location.as_ref()
    }
}

impl HasProperties for TransactionDeclaration {
    open spec fn property_list(&self) -> Seq<PropertyDecl> {
        self.properties@
    }

    open spec fn super_type_ref(&self) -> Option<TypeIdentifier> {
        self.super_type
    }

    open spec fn abstract_flag(&self) -> bool {
        self.is_abstract
    }

    fn own_properties(&self) -> (r: &[PropertyDecl]) {
        self.properties.as_slice()
    }

    fn super_type(&self) -> (r: Option<&TypeIdentifier>) {
        self.super_type.as_ref()
    }

    fn is_abstract(&self) -> (r: bool) {
        self.is_abstract
    }
}

impl Identifiable for TransactionDeclaration {
    open spec fn identity_class(&self) -> Option<Seq<char>> {
        identity_of(self.identified)
    }

    fn is_identified(&self) -> (r: bool) {
        self.identified.is_some()
    }

    fn is_system_identified(&self) -> (r: bool) {
        system_identified(&self.identified)
    }

    fn is_explicitly_identified(&self) -> (r: bool) {
        explicitly_identified(&self.identified)
    }

    fn identifier_field_name(&self) -> (r: Option<&str>) {
        identifier_field(&self.identified)
    }
}

/// A event declaration.
#[derive(Debug, Clone)]
pub struct EventDeclaration {
    pub name: String,
    pub decorators: Option<Vec<Decorator>>,
    pub location: Option<Range>,
    pub is_abstract: bool,
    pub identified: Option<Identified>,
    pub super_type: Option<TypeIdentifier>,
    pub properties: Vec<PropertyDecl>,
}

impl EventDeclaration {
    /// `self` is the declaration read from `v`.
    pub open spec fn read_from(self, v: JsonValue) -> bool {
        &&& v.member_text("name"@) == Some(self.name@)
        &&& v.member_bool("isAbstract"@) == Some(self.is_abstract)
        &&& exists|b: ClassBody| b.read_from(v) && b.decorators == self.decorators && b.location == self.location
            && b.identified == self.identified && b.super_type == self.super_type
        &&& properties_read(self.properties@, v)
    }

    pub(crate) fn new(body: ClassBody, properties: Vec<PropertyDecl>) -> (r: Self)
        ensures
            r.name == body.name,
            r.decorators == body.decorators,
            r.location == body.location,
            r.is_abstract == body.is_abstract,
            r.identified == body.identified,
            r.super_type == body.super_type,
            r.properties == properties,
    {
        EventDeclaration {
            name: body.name,
            decorators: body.decorators,
            location: body.location,
            is_abstract: body.is_abstract,
            identified: body.identified,
            super_type: body.super_type,
            properties,
        }
    }

    /// Reads the declaration from its JSON form.
    pub fn try_from(value: &JsonValue) -> (r: Result<EventDeclaration, ConcertoError>)
        ensures
            r is Ok <==> (ClassBody::accepts(*value) && properties_accepted(*value)),
            r matches Ok(d) ==> d.read_from(*value),
            r matches Err(e) ==> if !ClassBody::accepts(*value) {
                e@ == invalid_error("EventDeclaration"@, ClassBody::decode_error(*value))
            } else {
                properties_error(*value, e@)
            },
    {
        let body = match ClassBody::decode(value) {
            Ok(b) => b,
            Err(e) => return Err(invalid("EventDeclaration", e)),
        };
        let ghost b0 = body;
        let properties = parse_properties_from_json(value)?;
        let r = EventDeclaration::new(body, properties);
        assert(b0.read_from(*value));
        Ok(r)
    }
}

impl Decorated for EventDeclaration {
    open spec fn decorator_list(&self) -> Seq<Decorator> {
        decorators_of(self.decorators)
    }

    fn decorators(&self) -> (r: &[Decorator]) {
        decorator_slice(&self.decorators)
    }
}

impl Named for EventDeclaration {
    open spec fn spec_name(&self) -> Seq<char> {
        self.name@
    }

    open spec fn spec_location(&self) -> Option<Range> {
        self.location
    }

    fn name(&self) -> (r: &str) {
        self.name.as_str()
    }

    fn location(&self) -> (r: Option<&Range>) {
        self.location.as_ref()
    }
}

impl HasProperties for EventDeclaration {
    open spec fn property_list(&self) -> Seq<PropertyDecl> {
        self.properties@
    }

    open spec fn super_type_ref(&self) -> Option<TypeIdentifier> {
        self.super_type
    }

    open spec fn abstract_flag(&self) -> bool {
        self.is_abstract
    }

    fn own_properties(&self) -> (r: &[PropertyDecl]) {
        self.properties.as_slice()
    }

    fn super_type(&self) -> (r: Option<&TypeIdentifier>) {
        self.super_type.as_ref()
    }

    fn is_abstract(&self) -> (r: bool) {
        self.is_abstract
    }
}

impl Identifiable for EventDeclaration {
    open spec fn identity_class(&self) -> Option<Seq<char>> {
        identity_of(self.identified)
    }

    fn is_identified(&self) -> (r: bool) {
        self.identified.is_some()
    }

    fn is_system_identified(&self) -> (r: bool) {
        system_identified(&self.identified)
    }

    fn is_explicitly_identified(&self) -> (r: bool) {
        explicitly_identified(&self.identified)
    }

    fn identifier_field_name(&self) -> (r: Option<&str>) {
        identifier_field(&self.identified)
    }
}

/// The identity clause is there and names the system identity.
fn system_identified(o: &Option<Identified>) -> (r: bool)
    ensures
        r == (identity_of(*o) matches Some(c) && !names_identified_by(c)),
{
    match o {
        Some(id) => {
            proof { reveal_strlit("IdentifiedBy"); }
            !str_contains(id.class.as_str(), "IdentifiedBy")
        },
        None => false,
    }
}

/// The identity clause is there and names `IdentifiedBy`.
fn explicitly_identified(o: &Option<Identified>) -> (r: bool)
    ensures
        r == (identity_of(*o) matches Some(c) && names_identified_by(c)),
{
    match o {
        Some(id) => str_contains(id.class.as_str(), "IdentifiedBy"),
        None => false,
    }
}

/// `$identifier` for the system identity, else nothing.
fn identifier_field(o: &Option<Identified>) -> (r: Option<&'static str>)
    ensures
        match r {
            Some(s) => (identity_of(*o) matches Some(c) && !names_identified_by(c)) && s@ == "$identifier"@,
            None => !(identity_of(*o) matches Some(c) && !names_identified_by(c)),
        },
{
    if system_identified(o) {
        Some("$identifier")
    } else {
        None
    }
}

/// An enum declaration.
#[derive(Debug, Clone)]
pub struct EnumDeclaration {
    pub name: String,
    pub decorators: Option<Vec<Decorator>>,
    pub location: Option<Range>,
    pub properties: Vec<PropertyDecl>,
}

impl EnumDeclaration {
    /// `self` is the declaration read from `v`.
    pub open spec fn read_from(self, v: JsonValue) -> bool {
        &&& v.member_text("name"@) == Some(self.name@)
        &&& exists|b: EnumBody| b.read_from(v) && b.decorators == self.decorators && b.location == self.location
        &&& properties_read(self.properties@, v)
    }

    pub(crate) fn new(body: EnumBody, properties: Vec<PropertyDecl>) -> (r: Self)
        ensures
            r.name == body.name,
            r.decorators == body.decorators,
            r.location == body.location,
            r.properties == properties,
    {
        EnumDeclaration { name: body.name, decorators: body.decorators, location: body.location, properties }
    }

    /// Reads the declaration from its JSON form.
    pub fn try_from(value: &JsonValue) -> (r: Result<EnumDeclaration, ConcertoError>)
        ensures
            r is Ok <==> (EnumBody::accepts(*value) && properties_accepted(*value)),
            r matches Ok(d) ==> d.read_from(*value),
            r matches Err(e) ==> if !EnumBody::accepts(*value) {
                e@ == invalid_error("EnumDeclaration"@, EnumBody::decode_error(*value))
            } else {
                properties_error(*value, e@)
            },
    {
        let body = match EnumBody::decode(value) {
            Ok(b) => b,
            Err(e) => return Err(invalid("EnumDeclaration", e)),
        };
        let ghost b0 = body;
        let properties = parse_properties_from_json(value)?;
        let r = EnumDeclaration::new(body, properties);
        assert(b0.read_from(*value));
        Ok(r)
    }
}

impl Decorated for EnumDeclaration {
    open spec fn decorator_list(&self) -> Seq<Decorator> {
        decorators_of(self.decorators)
    }

    fn decorators(&self) -> (r: &[Decorator]) {
        decorator_slice(&self.decorators)
    }
}

impl Named for EnumDeclaration {
    open spec fn spec_name(&self) -> Seq<char> {
        self.name@
    }

    open spec fn spec_location(&self) -> Option<Range> {
        self.location
    }

    fn name(&self) -> (r: &str) {
        self.name.as_str()
    }

    fn location(&self) -> (r: Option<&Range>) {
        self.location.as_ref()
    }
}

impl HasProperties for EnumDeclaration {
    open spec fn property_list(&self) -> Seq<PropertyDecl> {
        self.properties@
    }

    open spec fn super_type_ref(&self) -> Option<TypeIdentifier> {
        None
    }

    open spec fn abstract_flag(&self) -> bool {
        false
    }

    fn own_properties(&self) -> (r: &[PropertyDecl]) {
        self.properties.as_slice()
    }

    fn super_type(&self) -> (r: Option<&TypeIdentifier>) {
        None
    }

    fn is_abstract(&self) -> (r: bool) {
        false
    }
}

impl Identifiable for EnumDeclaration {
    open spec fn identity_class(&self) -> Option<Seq<char>> {
        None
    }

    fn is_identified(&self) -> (r: bool) {
        false
    }

    fn is_system_identified(&self) -> (r: bool) {
        false
    }

    fn is_explicitly_identified(&self) -> (r: bool) {
        false
    }

    fn identifier_field_name(&self) -> (r: Option<&str>) {
        None
    }
}

/// A map declaration.
#[derive(Debug, Clone)]
pub struct MapDeclaration(pub MapDeclarationBody);

impl MapDeclaration {
    /// Reads the declaration from its JSON form.
    pub fn try_from(value: &JsonValue) -> (r: Result<MapDeclaration, ConcertoError>)
        ensures
            r is Ok <==> MapDeclarationBody::accepts(*value),
            r matches Ok(d) ==> d.0.read_from(*value),
            r matches Err(e) ==> e@ == invalid_error("MapDeclaration"@, MapDeclarationBody::decode_error(*value)),
    {
        match MapDeclarationBody::decode(value) {
            Ok(b) => Ok(MapDeclaration(b)),
            Err(e) => Err(invalid("MapDeclaration", e)),
        }
    }
}

impl Decorated for MapDeclaration {
    open spec fn decorator_list(&self) -> Seq<Decorator> {
        decorators_of(self.0.decorators)
    }

    fn decorators(&self) -> (r: &[Decorator]) {
        decorator_slice(&self.0.decorators)
    }
}

impl Named for MapDeclaration {
    open spec fn spec_name(&self) -> Seq<char> {
        self.0.name@
    }

    open spec fn spec_location(&self) -> Option<Range> {
        self.0.location
    }

    fn name(&self) -> (r: &str) {
        self.0.name.as_str()
    }

    fn location(&self) -> (r: Option<&Range>) {
        self.0.location.as_ref()
    }
}

/// Sum over the scalar sub-types.
#[derive(Debug, Clone)]
pub enum ScalarDeclKind {
    Boolean(NamedBody),
    Integer(NamedBody),
    Long(NamedBody),
    Double(NamedBody),
    String(NamedBody),
    DateTime(NamedBody),
}

impl ScalarDeclKind {
    pub open spec fn body(self) -> NamedBody {
        match self {
            ScalarDeclKind::Boolean(b) => b,
            ScalarDeclKind::Integer(b) => b,
            ScalarDeclKind::Long(b) => b,
            ScalarDeclKind::Double(b) => b,
            ScalarDeclKind::String(b) => b,
            ScalarDeclKind::DateTime(b) => b,
        }
    }

    /// The primitive type that a scalar of this kind wraps.
    pub open spec fn primitive(self) -> Seq<char> {
        match self {
            ScalarDeclKind::Boolean(_) => "Boolean"@,
            ScalarDeclKind::Integer(_) => "Integer"@,
            ScalarDeclKind::Long(_) => "Long"@,
            ScalarDeclKind::Double(_) => "Double"@,
            ScalarDeclKind::String(_) => "String"@,
            ScalarDeclKind::DateTime(_) => "DateTime"@,
        }
    }
}

/// The scalar kinds.
pub open spec fn is_scalar_kind(k: Seq<char>) -> bool {
    k == "BooleanScalar"@ || k == "IntegerScalar"@ || k == "LongScalar"@ || k == "DoubleScalar"@
        || k == "StringScalar"@ || k == "DateTimeScalar"@
}

/// A scalar declaration.
#[derive(Debug, Clone)]
pub struct ScalarDeclaration(pub ScalarDeclKind);

impl ScalarDeclaration {
    /// `self` is the scalar read from `v`.
    pub open spec fn read_from(self, v: JsonValue) -> bool {
        &&& self.0.primitive() + "Scalar"@ == kind_of(v)
        &&& self.0.body().read_from(v)
    }

    /// Reads the scalar declaration from its JSON form.
    pub fn try_from(value: &JsonValue) -> (r: Result<ScalarDeclaration, ConcertoError>)
        ensures
            r is Ok <==> (is_scalar_kind(kind_of(*value)) && NamedBody::accepts(*value)),
            r matches Ok(d) ==> d.read_from(*value),
            r matches Err(e) ==> if is_scalar_kind(kind_of(*value)) {
                e@ == invalid_error(kind_of(*value), NamedBody::decode_error(*value))
            } else {
                e@ == illegal("Unknown scalar type: "@ + class_text(*value), None)
            },
    {
        let class = class_of(value);
        let kind = get_short_name(class);
        proof {
            reveal_strlit("Boolean"); reveal_strlit("BooleanScalar");
            reveal_strlit("Integer"); reveal_strlit("IntegerScalar");
            reveal_strlit("Long"); reveal_strlit("LongScalar");
            reveal_strlit("Double"); reveal_strlit("DoubleScalar");
            reveal_strlit("String"); reveal_strlit("StringScalar");
            reveal_strlit("DateTime"); reveal_strlit("DateTimeScalar");
            reveal_strlit("Scalar");
            assert("Boolean"@ + "Scalar"@ =~= "BooleanScalar"@);
            assert("Integer"@ + "Scalar"@ =~= "IntegerScalar"@);
            assert("Long"@ + "Scalar"@ =~= "LongScalar"@);
            assert("Double"@ + "Scalar"@ =~= "DoubleScalar"@);
            assert("String"@ + "Scalar"@ =~= "StringScalar"@);
            assert("DateTime"@ + "Scalar"@ =~= "DateTimeScalar"@);
        }
        let mk = if str_eq(kind, "BooleanScalar") {
            0u8
        } else if str_eq(kind, "IntegerScalar") {
            1u8
        } else if str_eq(kind, "LongScalar") {
            2u8
        } else if str_eq(kind, "DoubleScalar") {
            3u8
        } else if str_eq(kind, "StringScalar") {
            4u8
        } else if str_eq(kind, "DateTimeScalar") {
            5u8
        } else {
            proof { reveal_strlit("Unknown scalar type: "); }
            return Err(illegal_model(concat2("Unknown scalar type: ", class), None));
        };
        let body = match NamedBody::decode(value) {
            Ok(b) => b,
            Err(e) => return Err(invalid(kind, e)),
        };
        let k = if mk == 0 {
            ScalarDeclKind::Boolean(body)
        } else if mk == 1 {
            ScalarDeclKind::Integer(body)
        } else if mk == 2 {
            ScalarDeclKind::Long(body)
        } else if mk == 3 {
            ScalarDeclKind::Double(body)
        } else if mk == 4 {
            ScalarDeclKind::String(body)
        } else {
            ScalarDeclKind::DateTime(body)
        };
        Ok(ScalarDeclaration(k))
    }

    /// Returns the primitive type that this scalar wraps.
    pub fn scalar_type(&self) -> (r: &str)
        ensures
            r@ == self.0.primitive(),
    {
        match &self.0 {
            ScalarDeclKind::Boolean(_) => "Boolean",
            ScalarDeclKind::Integer(_) => "Integer",
            ScalarDeclKind::Long(_) => "Long",
            ScalarDeclKind::Double(_) => "Double",
            ScalarDeclKind::String(_) => "String",
            ScalarDeclKind::DateTime(_) => "DateTime",
        }
    }

    pub fn kind(&self) -> (r: &ScalarDeclKind)
        ensures
            *r == self.0,
    {
        &self.0
    }

    fn body_ref(&self) -> (r: &NamedBody)
        ensures
            *r == self.0.body(),
    {
        match &self.0 {
            ScalarDeclKind::Boolean(b) => b,
            ScalarDeclKind::Integer(b) => b,
            ScalarDeclKind::Long(b) => b,
            ScalarDeclKind::Double(b) => b,
            ScalarDeclKind::String(b) => b,
            ScalarDeclKind::DateTime(b) => b,
        }
    }
}

impl Decorated for ScalarDeclaration {
    open spec fn decorator_list(&self) -> Seq<Decorator> {
        decorators_of(self.0.body().decorators)
    }

    fn decorators(&self) -> (r: &[Decorator]) {
        decorator_slice(&self.body_ref().decorators)
    }
}

impl Named for ScalarDeclaration {
    open spec fn spec_name(&self) -> Seq<char> {
        self.0.body().name@
    }

    open spec fn spec_location(&self) -> Option<Range> {
        self.0.body().location
    }

    fn name(&self) -> (r: &str) {
        self.body_ref().name.as_str()
    }

    fn location(&self) -> (r: Option<&Range>) {
        self.body_ref().location.as_ref()
    }
}

/// Sum type over the class declarations.
#[derive(Debug, Clone)]
pub enum ClassDeclaration {
    Concept(ConceptDeclaration),
    Asset(AssetDeclaration),
    Participant(ParticipantDeclaration),
    Transaction(TransactionDeclaration),
    Event(EventDeclaration),
    Enum(EnumDeclaration),
}

impl ClassDeclaration {
    /// `self` is the class declaration read from `v`.
    pub open spec fn read_from(self, v: JsonValue) -> bool {
        let k = kind_of(v);
        match self {
            ClassDeclaration::Concept(d) => k == "ConceptDeclaration"@ && d.read_from(v),
            ClassDeclaration::Asset(d) => k == "AssetDeclaration"@ && d.read_from(v),
            ClassDeclaration::Participant(d) => k == "ParticipantDeclaration"@ && d.read_from(v),
            ClassDeclaration::Transaction(d) => k == "TransactionDeclaration"@ && d.read_from(v),
            ClassDeclaration::Event(d) => k == "EventDeclaration"@ && d.read_from(v),
            ClassDeclaration::Enum(d) => k == "EnumDeclaration"@ && d.read_from(v),
        }
    }

    /// The declaration kind: the name of the metamodel class of the declaration.
    pub open spec fn spec_declaration_kind(self) -> Seq<char> {
        match self {
            ClassDeclaration::Concept(_) => "ConceptDeclaration"@,
            ClassDeclaration::Asset(_) => "AssetDeclaration"@,
            ClassDeclaration::Participant(_) => "ParticipantDeclaration"@,
            ClassDeclaration::Transaction(_) => "TransactionDeclaration"@,
            ClassDeclaration::Event(_) => "EventDeclaration"@,
            ClassDeclaration::Enum(_) => "EnumDeclaration"@,
        }
    }

    /// Returns the declaration kind string.
    pub fn declaration_kind(&self) -> (r: &'static str)
        ensures
            r@ == self.spec_declaration_kind(),
    {
        match self {
            ClassDeclaration::Concept(_) => "ConceptDeclaration",
            ClassDeclaration::Asset(_) => "AssetDeclaration",
            ClassDeclaration::Participant(_) => "ParticipantDeclaration",
            ClassDeclaration::Transaction(_) => "TransactionDeclaration",
            ClassDeclaration::Event(_) => "EventDeclaration",
            ClassDeclaration::Enum(_) => "EnumDeclaration",
        }
    }

    pub fn is_concept(&self) -> (r: bool)
        ensures
            r == (self is Concept),
    {
        match self {
            ClassDeclaration::Concept(_) => true,
            _ => false,
        }
    }

    pub fn is_asset(&self) -> (r: bool)
        ensures
            r == (self is Asset),
    {
        match self {
            ClassDeclaration::Asset(_) => true,
            _ => false,
        }
    }

    pub fn is_participant(&self) -> (r: bool)
        ensures
            r == (self is Participant),
    {
        match self {
            ClassDeclaration::Participant(_) => true,
            _ => false,
        }
    }

    pub fn is_transaction(&self) -> (r: bool)
        ensures
            r == (self is Transaction),
    {
        match self {
            ClassDeclaration::Transaction(_) => true,
            _ => false,
        }
    }

    pub fn is_event(&self) -> (r: bool)
        ensures
            r == (self is Event),
    {
        match self {
            ClassDeclaration::Event(_) => true,
            _ => false,
        }
    }

    pub fn is_enum(&self) -> (r: bool)
        ensures
            r == (self is Enum),
    {
        match self {
            ClassDeclaration::Enum(_) => true,
            _ => false,
        }
    }
}

impl Decorated for ClassDeclaration {
    open spec fn decorator_list(&self) -> Seq<Decorator> {
        match self {
            ClassDeclaration::Concept(d) => d.decorator_list(),
            ClassDeclaration::Asset(d) => d.decorator_list(),
            ClassDeclaration::Participant(d) => d.decorator_list(),
            ClassDeclaration::Transaction(d) => d.decorator_list(),
            ClassDeclaration::Event(d) => d.decorator_list(),
            ClassDeclaration::Enum(d) => d.decorator_list(),
        }
    }

    fn decorators(&self) -> (r: &[Decorator]) {
        match self {
            ClassDeclaration::Concept(d) => d.decorators(),
            ClassDeclaration::Asset(d) => d.decorators(),
            ClassDeclaration::Participant(d) => d.decorators(),
            ClassDeclaration::Transaction(d) => d.decorators(),
            ClassDeclaration::Event(d) => d.decorators(),
            ClassDeclaration::Enum(d) => d.decorators(),
        }
    }
}

impl Named for ClassDeclaration {
    open spec fn spec_name(&self) -> Seq<char> {
        match self {
            ClassDeclaration::Concept(d) => d.spec_name(),
            ClassDeclaration::Asset(d) => d.spec_name(),
            ClassDeclaration::Participant(d) => d.spec_name(),
            ClassDeclaration::Transaction(d) => d.spec_name(),
            ClassDeclaration::Event(d) => d.spec_name(),
            ClassDeclaration::Enum(d) => d.spec_name(),
        }
    }

    open spec fn spec_location(&self) -> Option<Range> {
        match self {
            ClassDeclaration::Concept(d) => d.spec_location(),
            ClassDeclaration::Asset(d) => d.spec_location(),
            ClassDeclaration::Participant(d) => d.spec_location(),
            ClassDeclaration::Transaction(d) => d.spec_location(),
            ClassDeclaration::Event(d) => d.spec_location(),
            ClassDeclaration::Enum(d) => d.spec_location(),
        }
    }

    fn name(&self) -> (r: &str) {
        match self {
            ClassDeclaration::Concept(d) => d.name(),
            ClassDeclaration::Asset(d) => d.name(),
            ClassDeclaration::Participant(d) => d.name(),
            ClassDeclaration::Transaction(d) => d.name(),
            ClassDeclaration::Event(d) => d.name(),
            ClassDeclaration::Enum(d) => d.name(),
        }
    }

    fn location(&self) -> (r: Option<&Range>) {
        match self {
            ClassDeclaration::Concept(d) => d.location(),
            ClassDeclaration::Asset(d) => d.location(),
            ClassDeclaration::Participant(d) => d.location(),
            ClassDeclaration::Transaction(d) => d.location(),
            ClassDeclaration::Event(d) => d.location(),
            ClassDeclaration::Enum(d) => d.location(),
        }
    }
}

impl HasProperties for ClassDeclaration {
    open spec fn property_list(&self) -> Seq<PropertyDecl> {
        match self {
            ClassDeclaration::Concept(d) => d.property_list(),
            ClassDeclaration::Asset(d) => d.property_list(),
            ClassDeclaration::Participant(d) => d.property_list(),
            ClassDeclaration::Transaction(d) => d.property_list(),
            ClassDeclaration::Event(d) => d.property_list(),
            ClassDeclaration::Enum(d) => d.property_list(),
        }
    }

    open spec fn super_type_ref(&self) -> Option<TypeIdentifier> {
        match self {
            ClassDeclaration::Concept(d) => d.super_type_ref(),
            ClassDeclaration::Asset(d) => d.super_type_ref(),
            ClassDeclaration::Participant(d) => d.super_type_ref(),
            ClassDeclaration::Transaction(d) => d.super_type_ref(),
            ClassDeclaration::Event(d) => d.super_type_ref(),
            ClassDeclaration::Enum(d) => d.super_type_ref(),
        }
    }

    open spec fn abstract_flag(&self) -> bool {
        match self {
            ClassDeclaration::Concept(d) => d.abstract_flag(),
            ClassDeclaration::Asset(d) => d.abstract_flag(),
            ClassDeclaration::Participant(d) => d.abstract_flag(),
            ClassDeclaration::Transaction(d) => d.abstract_flag(),
            ClassDeclaration::Event(d) => d.abstract_flag(),
            ClassDeclaration::Enum(d) => d.abstract_flag(),
        }
    }

    fn own_properties(&self) -> (r: &[PropertyDecl]) {
        match self {
            ClassDeclaration::Concept(d) => d.own_properties(),
            ClassDeclaration::Asset(d) => d.own_properties(),
            ClassDeclaration::Participant(d) => d.own_properties(),
            ClassDeclaration::Transaction(d) => d.own_properties(),
            ClassDeclaration::Event(d) => d.own_properties(),
            ClassDeclaration::Enum(d) => d.own_properties(),
        }
    }

    fn super_type(&self) -> (r: Option<&TypeIdentifier>) {
        match self {
            ClassDeclaration::Concept(d) => d.super_type(),
            ClassDeclaration::Asset(d) => d.super_type(),
            ClassDeclaration::Participant(d) => d.super_type(),
            ClassDeclaration::Transaction(d) => d.super_type(),
            ClassDeclaration::Event(d) => d.super_type(),
            ClassDeclaration::Enum(d) => d.super_type(),
        }
    }

    fn is_abstract(&self) -> (r: bool) {
        match self {
            ClassDeclaration::Concept(d) => d.is_abstract(),
            ClassDeclaration::Asset(d) => d.is_abstract(),
            ClassDeclaration::Participant(d) => d.is_abstract(),
            ClassDeclaration::Transaction(d) => d.is_abstract(),
            ClassDeclaration::Event(d) => d.is_abstract(),
            ClassDeclaration::Enum(d) => d.is_abstract(),
        }
    }
}

impl Identifiable for ClassDeclaration {
    open spec fn identity_class(&self) -> Option<Seq<char>> {
        match self {
            ClassDeclaration::Concept(d) => d.identity_class(),
            ClassDeclaration::Asset(d) => d.identity_class(),
            ClassDeclaration::Participant(d) => d.identity_class(),
            ClassDeclaration::Transaction(d) => d.identity_class(),
            ClassDeclaration::Event(d) => d.identity_class(),
            ClassDeclaration::Enum(d) => d.identity_class(),
        }
    }

    fn is_identified(&self) -> (r: bool) {
        match self {
            ClassDeclaration::Concept(d) => d.is_identified(),
            ClassDeclaration::Asset(d) => d.is_identified(),
            ClassDeclaration::Participant(d) => d.is_identified(),
            ClassDeclaration::Transaction(d) => d.is_identified(),
            ClassDeclaration::Event(d) => d.is_identified(),
            ClassDeclaration::Enum(d) => d.is_identified(),
        }
    }

    fn is_system_identified(&self) -> (r: bool) {
        match self {
            ClassDeclaration::Concept(d) => d.is_system_identified(),
            ClassDeclaration::Asset(d) => d.is_system_identified(),
            ClassDeclaration::Participant(d) => d.is_system_identified(),
            ClassDeclaration::Transaction(d) => d.is_system_identified(),
            ClassDeclaration::Event(d) => d.is_system_identified(),
            ClassDeclaration::Enum(d) => d.is_system_identified(),
        }
    }

    fn is_explicitly_identified(&self) -> (r: bool) {
        match self {
            ClassDeclaration::Concept(d) => d.is_explicitly_identified(),
            ClassDeclaration::Asset(d) => d.is_explicitly_identified(),
            ClassDeclaration::Participant(d) => d.is_explicitly_identified(),
            ClassDeclaration::Transaction(d) => d.is_explicitly_identified(),
            ClassDeclaration::Event(d) => d.is_explicitly_identified(),
            ClassDeclaration::Enum(d) => d.is_explicitly_identified(),
        }
    }

    fn identifier_field_name(&self) -> (r: Option<&str>) {
        match self {
            ClassDeclaration::Concept(d) => d.identifier_field_name(),
            ClassDeclaration::Asset(d) => d.identifier_field_name(),
            ClassDeclaration::Participant(d) => d.identifier_field_name(),
            ClassDeclaration::Transaction(d) => d.identifier_field_name(),
            ClassDeclaration::Event(d) => d.identifier_field_name(),
            ClassDeclaration::Enum(d) => d.identifier_field_name(),
        }
    }
}

/// Every class declaration takes its identity from its `identified` member: a
/// concept, asset, participant, transaction or event declaration is identified
/// exactly when that member is present, and explicitly identified when the
/// member's `$class` names `IdentifiedBy`; an enum declaration has no identity.
/// System identity, the one case whose identifier field is `$identifier`, is
/// identity that is not explicit.
pub proof fn law_identity_from_identified_member(c: ClassDeclaration)
    ensures
        c.identity_class() == match c {
            ClassDeclaration::Concept(d) => identity_of(d.identified),
            ClassDeclaration::Asset(d) => identity_of(d.identified),
            ClassDeclaration::Participant(d) => identity_of(d.identified),
            ClassDeclaration::Transaction(d) => identity_of(d.identified),
            ClassDeclaration::Event(d) => identity_of(d.identified),
            ClassDeclaration::Enum(_) => None::<Seq<char>>,
        },
        (c.identity_class() matches Some(k) && !names_identified_by(k)) == (c.identity_class() is Some
            && !(c.identity_class() matches Some(k) && names_identified_by(k))),
{
}

/// Top-level sum type over declarations.
#[derive(Debug, Clone)]
pub enum Declaration {
    Class(ClassDeclaration),
    Scalar(ScalarDeclaration),
    MapDecl(MapDeclaration),
}

/// The class declaration kinds.
pub open spec fn is_class_kind(k: Seq<char>) -> bool {
    k == "ConceptDeclaration"@ || k == "AssetDeclaration"@ || k == "ParticipantDeclaration"@
        || k == "TransactionDeclaration"@ || k == "EventDeclaration"@ || k == "EnumDeclaration"@
}

/// The JSON form of a declaration.
pub open spec fn declaration_accepts(v: JsonValue) -> bool {
    let k = kind_of(v);
    if k == "EnumDeclaration"@ {
        EnumBody::accepts(v) && properties_accepted(v)
    } else if is_class_kind(k) {
        ClassBody::accepts(v) && properties_accepted(v)
    } else if k == "MapDeclaration"@ {
        MapDeclarationBody::accepts(v)
    } else if ends_with_seq(k, "Scalar"@) {
        is_scalar_kind(k) && NamedBody::accepts(v)
    } else {
        false
    }
}

/// The error for a JSON value that is not the form of a declaration.
pub open spec fn declaration_error(v: JsonValue, e: ErrorView) -> bool {
    let k = kind_of(v);
    if k == "EnumDeclaration"@ {
        if !EnumBody::accepts(v) {
            e == invalid_error(k, EnumBody::decode_error(v))
        } else {
            properties_error(v, e)
        }
    } else if is_class_kind(k) {
        if !ClassBody::accepts(v) {
            e == invalid_error(k, ClassBody::decode_error(v))
        } else {
            properties_error(v, e)
        }
    } else if k == "MapDeclaration"@ {
        e == invalid_error(k, MapDeclarationBody::decode_error(v))
    } else if ends_with_seq(k, "Scalar"@) {
        if is_scalar_kind(k) {
            e == invalid_error(k, NamedBody::decode_error(v))
        } else {
            e == illegal("Unknown scalar type: "@ + class_text(v), None)
        }
    } else {
        e == illegal("Unknown declaration type: "@ + class_text(v), None)
    }
}

impl Declaration {
    /// `self` is the declaration read from `v`.
    pub open spec fn read_from(self, v: JsonValue) -> bool {
        match self {
            Declaration::Class(c) => c.read_from(v),
            Declaration::Scalar(s) => s.read_from(v),
            Declaration::MapDecl(m) => kind_of(v) == "MapDeclaration"@ && m.0.read_from(v),
        }
    }

    /// Reads the declaration from its JSON form by inspecting `$class`.
    pub fn try_from(value: &JsonValue) -> (r: Result<Declaration, ConcertoError>)
        ensures
            r is Ok <==> declaration_accepts(*value),
            r matches Ok(d) ==> d.read_from(*value),
            r matches Err(e) ==> declaration_error(*value, e@),
    {
        let class = class_of(value);
        let kind = get_short_name(class);
        proof {
            reveal_strlit("ConceptDeclaration");
            reveal_strlit("AssetDeclaration");
            reveal_strlit("ParticipantDeclaration");
            reveal_strlit("TransactionDeclaration");
            reveal_strlit("EventDeclaration");
            reveal_strlit("EnumDeclaration");
            reveal_strlit("MapDeclaration");
            reveal_strlit("Scalar");
        }
        if str_eq(kind, "ConceptDeclaration") {
            Ok(Declaration::Class(ClassDeclaration::Concept(ConceptDeclaration::try_from(value)?)))
        } else if str_eq(kind, "AssetDeclaration") {
            Ok(Declaration::Class(ClassDeclaration::Asset(AssetDeclaration::try_from(value)?)))
        } else if str_eq(kind, "ParticipantDeclaration") {
            Ok(Declaration::Class(ClassDeclaration::Participant(ParticipantDeclaration::try_from(value)?)))
        } else if str_eq(kind, "TransactionDeclaration") {
            Ok(Declaration::Class(ClassDeclaration::Transaction(TransactionDeclaration::try_from(value)?)))
        } else if str_eq(kind, "EventDeclaration") {
            Ok(Declaration::Class(ClassDeclaration::Event(EventDeclaration::try_from(value)?)))
        } else if str_eq(kind, "EnumDeclaration") {
            Ok(Declaration::Class(ClassDeclaration::Enum(EnumDeclaration::try_from(value)?)))
        } else if str_eq(kind, "MapDeclaration") {
            Ok(Declaration::MapDecl(MapDeclaration::try_from(value)?))
        } else if str_ends_with(kind, "Scalar") {
            Ok(Declaration::Scalar(ScalarDeclaration::try_from(value)?))
        } else {
            proof { reveal_strlit("Unknown declaration type: "); }
            Err(illegal_model(concat2("Unknown declaration type: ", class), None))
        }
    }

    pub open spec fn spec_as_class(self) -> Option<ClassDeclaration> {
        match self {
            Declaration::Class(c) => Some(c),
            _ => None,
        }
    }

    pub fn is_class(&self) -> (r: bool)
        ensures
            r == (self is Class),
    {
        match self {
            Declaration::Class(_) => true,
            _ => false,
        }
    }

    pub fn is_scalar(&self) -> (r: bool)
        ensures
            r == (self is Scalar),
    {
        match self {
            Declaration::Scalar(_) => true,
            _ => false,
        }
    }

    pub fn is_map(&self) -> (r: bool)
        ensures
            r == (self is MapDecl),
    {
        match self {
            Declaration::MapDecl(_) => true,
            _ => false,
        }
    }

    pub fn as_class(&self) -> (r: Option<&ClassDeclaration>)
        ensures
            match r {
                Some(c) => self.spec_as_class() == Some(*c),
                None => self.spec_as_class() is None,
            },
    {
        match self {
            Declaration::Class(c) => Some(c),
            _ => None,
        }
    }

    pub fn as_scalar(&self) -> (r: Option<&ScalarDeclaration>)
        ensures
            match r {
                Some(s) => *self == Declaration::Scalar(*s),
                None => !(self is Scalar),
            },
    {
        match self {
            Declaration::Scalar(s) => Some(s),
            _ => None,
        }
    }

    pub fn as_map(&self) -> (r: Option<&MapDeclaration>)
        ensures
            match r {
                Some(m) => *self == Declaration::MapDecl(*m),
                None => !(self is MapDecl),
            },
    {
        match self {
            Declaration::MapDecl(m) => Some(m),
            _ => None,
        }
    }
}

impl Decorated for Declaration {
    open spec fn decorator_list(&self) -> Seq<Decorator> {
        match self {
            Declaration::Class(d) => d.decorator_list(),
            Declaration::Scalar(d) => d.decorator_list(),
            Declaration::MapDecl(d) => d.decorator_list(),
        }
    }

    fn decorators(&self) -> (r: &[Decorator]) {
        match self {
            Declaration::Class(d) => d.decorators(),
            Declaration::Scalar(d) => d.decorators(),
            Declaration::MapDecl(d) => d.decorators(),
        }
    }
}

impl Named for Declaration {
    open spec fn spec_name(&self) -> Seq<char> {
        match self {
            Declaration::Class(d) => d.spec_name(),
            Declaration::Scalar(d) => d.spec_name(),
            Declaration::MapDecl(d) => d.spec_name(),
        }
    }

    open spec fn spec_location(&self) -> Option<Range> {
        match self {
            Declaration::Class(d) => d.spec_location(),
            Declaration::Scalar(d) => d.spec_location(),
            Declaration::MapDecl(d) => d.spec_location(),
        }
    }

    fn name(&self) -> (r: &str) {
        match self {
            Declaration::Class(d) => d.name(),
            Declaration::Scalar(d) => d.name(),
            Declaration::MapDecl(d) => d.name(),
        }
    }

    fn location(&self) -> (r: Option<&Range>) {
        match self {
            Declaration::Class(d) => d.location(),
            Declaration::Scalar(d) => d.location(),
            Declaration::MapDecl(d) => d.location(),
        }
    }
}

} // verus!
