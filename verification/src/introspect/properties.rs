//! Properties of class declarations.
use vstd::prelude::*;
use crate::error::{ConcertoError, ErrorView, illegal, illegal_model};
use crate::json::JsonValue;
use crate::metamodel::{Decodable, Decorator, EnumPropertyBody, PropertyBody, Range, TypeIdentifier,
    TypedPropertyBody};
use crate::model_util::{get_short_name, short_name_of};
use crate::text::{concat2, concat3, str_eq};

verus! {

/// Sum type over the kinds of property.
#[derive(Debug, Clone)]
pub enum PropertyDecl {
    Boolean(PropertyBody),
    String(PropertyBody),
    Integer(PropertyBody),
    Long(PropertyBody),
    Double(PropertyBody),
    DateTime(PropertyBody),
    Object(TypedPropertyBody),
    Relationship(TypedPropertyBody),
    Enum(EnumPropertyBody),
}

/// The `$class` text of a JSON value, or the empty text when it has none.
pub open spec fn class_text(v: JsonValue) -> Seq<char> {
    match v.member_text("$class"@) {
        Some(s) => s,
        None => Seq::empty(),
    }
}

/// The kind of a metamodel value: the short name of its `$class`.
pub open spec fn kind_of(v: JsonValue) -> Seq<char> {
    short_name_of(class_text(v))
}

/// The `$class` text of a JSON value, or the empty text when it has none.
pub fn class_of(v: &JsonValue) -> (r: &str)
    ensures
        r@ == class_text(*v),
{
    match v.get("$class") {
        Some(c) => match c.as_str() {
            Some(s) => s,
            None => {
                let e = "";
                proof { reveal_strlit(""); }
                assert(e@ =~= Seq::<char>::empty());
                e
            },
        },
        None => {
            let e = "";
            proof { reveal_strlit(""); }
            assert(e@ =~= Seq::<char>::empty());
            e
        },
    }
}

/// The property kinds that hold a primitive value.
pub open spec fn is_primitive_property_kind(k: Seq<char>) -> bool {
    k == "BooleanProperty"@ || k == "StringProperty"@ || k == "IntegerProperty"@
        || k == "LongProperty"@ || k == "DoubleProperty"@ || k == "DateTimeProperty"@
}

/// The property kinds that refer to a type.
pub open spec fn is_typed_property_kind(k: Seq<char>) -> bool {
    k == "ObjectProperty"@ || k == "RelationshipProperty"@
}

/// The JSON form of a property.
pub open spec fn property_accepts(v: JsonValue) -> bool {
    let k = kind_of(v);
    if is_primitive_property_kind(k) {
        PropertyBody::accepts(v)
    } else if is_typed_property_kind(k) {
        TypedPropertyBody::accepts(v)
    } else if k == "EnumProperty"@ {
        EnumPropertyBody::accepts(v)
    } else {
        false
    }
}

/// The error for a JSON value of kind `kind` that its reader refuses, saying `detail`.
pub open spec fn invalid_error(kind: Seq<char>, detail: Seq<char>) -> ErrorView {
    illegal("Invalid "@ + kind + ": "@ + detail, None)
}

/// The error for a JSON value that is not the form of a property: for a known
/// kind, `Invalid <kind>: ` and what is wrong; an unknown kind is named in full.
pub open spec fn property_error(v: JsonValue, e: ErrorView) -> bool {
    let k = kind_of(v);
    if is_primitive_property_kind(k) {
        e == invalid_error(k, PropertyBody::decode_error(v))
    } else if is_typed_property_kind(k) {
        e == invalid_error(k, TypedPropertyBody::decode_error(v))
    } else if k == "EnumProperty"@ {
        e == invalid_error(k, EnumPropertyBody::decode_error(v))
    } else {
        e == illegal("Unknown property type: "@ + class_text(v), None)
    }
}

impl PropertyDecl {
    /// `self` is the property read from `v`.
    pub open spec fn read_from(self, v: JsonValue) -> bool {
        let k = kind_of(v);
        match self {
            PropertyDecl::Boolean(p) => k == "BooleanProperty"@ && p.read_from(v),
            PropertyDecl::String(p) => k == "StringProperty"@ && p.read_from(v),
            PropertyDecl::Integer(p) => k == "IntegerProperty"@ && p.read_from(v),
            PropertyDecl::Long(p) => k == "LongProperty"@ && p.read_from(v),
            PropertyDecl::Double(p) => k == "DoubleProperty"@ && p.read_from(v),
            PropertyDecl::DateTime(p) => k == "DateTimeProperty"@ && p.read_from(v),
            PropertyDecl::Object(p) => k == "ObjectProperty"@ && p.read_from(v),
            PropertyDecl::Relationship(p) => k == "RelationshipProperty"@ && p.read_from(v),
            PropertyDecl::Enum(p) => k == "EnumProperty"@ && p.read_from(v),
        }
    }

    pub open spec fn spec_name(self) -> Seq<char> {
        match self {
            PropertyDecl::Boolean(p) => p.name@,
            PropertyDecl::String(p) => p.name@,
            PropertyDecl::Integer(p) => p.name@,
            PropertyDecl::Long(p) => p.name@,
            PropertyDecl::Double(p) => p.name@,
            PropertyDecl::DateTime(p) => p.name@,
            PropertyDecl::Object(p) => p.name@,
            PropertyDecl::Relationship(p) => p.name@,
            PropertyDecl::Enum(p) => p.name@,
        }
    }

    pub open spec fn spec_is_array(self) -> bool {
        match self {
            PropertyDecl::Boolean(p) => p.is_array,
            PropertyDecl::String(p) => p.is_array,
            PropertyDecl::Integer(p) => p.is_array,
            PropertyDecl::Long(p) => p.is_array,
            PropertyDecl::Double(p) => p.is_array,
            PropertyDecl::DateTime(p) => p.is_array,
            PropertyDecl::Object(p) => p.is_array,
            PropertyDecl::Relationship(p) => p.is_array,
            PropertyDecl::Enum(_) => false,
        }
    }

    pub open spec fn spec_is_optional(self) -> bool {
        match self {
            PropertyDecl::Boolean(p) => p.is_optional,
            PropertyDecl::String(p) => p.is_optional,
            PropertyDecl::Integer(p) => p.is_optional,
            PropertyDecl::Long(p) => p.is_optional,
            PropertyDecl::Double(p) => p.is_optional,
            PropertyDecl::DateTime(p) => p.is_optional,
            PropertyDecl::Object(p) => p.is_optional,
            PropertyDecl::Relationship(p) => p.is_optional,
            PropertyDecl::Enum(_) => false,
        }
    }

    pub open spec fn spec_decorators(self) -> Option<Vec<Decorator>> {
        match self {
            PropertyDecl::Boolean(p) => p.decorators,
            PropertyDecl::String(p) => p.decorators,
            PropertyDecl::Integer(p) => p.decorators,
            PropertyDecl::Long(p) => p.decorators,
            PropertyDecl::Double(p) => p.decorators,
            PropertyDecl::DateTime(p) => p.decorators,
            PropertyDecl::Object(p) => p.decorators,
            PropertyDecl::Relationship(p) => p.decorators,
            PropertyDecl::Enum(p) => p.decorators,
        }
    }

    pub open spec fn spec_location(self) -> Option<Range> {
        match self {
            PropertyDecl::Boolean(p) => p.location,
            PropertyDecl::String(p) => p.location,
            PropertyDecl::Integer(p) => p.location,
            PropertyDecl::Long(p) => p.location,
            PropertyDecl::Double(p) => p.location,
            PropertyDecl::DateTime(p) => p.location,
            PropertyDecl::Object(p) => p.location,
            PropertyDecl::Relationship(p) => p.location,
            PropertyDecl::Enum(p) => p.location,
        }
    }

    /// The primitive type name, the referenced type name, or `None` for an enum value.
    pub open spec fn spec_data_type_name(self) -> Option<Seq<char>> {
        match self {
            PropertyDecl::Boolean(_) => Some("Boolean"@),
            PropertyDecl::String(_) => Some("String"@),
            PropertyDecl::Integer(_) => Some("Integer"@),
            PropertyDecl::Long(_) => Some("Long"@),
            PropertyDecl::Double(_) => Some("Double"@),
            PropertyDecl::DateTime(_) => Some("DateTime"@),
            PropertyDecl::Object(p) => Some(p.type_.name@),
            PropertyDecl::Relationship(p) => Some(p.type_.name@),
            PropertyDecl::Enum(_) => None,
        }
    }

    pub fn name(&self) -> (r: &str)
        ensures
            r@ == self.spec_name(),
    {
        match self {
            PropertyDecl::Boolean(p) => p.name.as_str(),
            PropertyDecl::String(p) => p.name.as_str(),
            PropertyDecl::Integer(p) => p.name.as_str(),
            PropertyDecl::Long(p) => p.name.as_str(),
            PropertyDecl::Double(p) => p.name.as_str(),
            PropertyDecl::DateTime(p) => p.name.as_str(),
            PropertyDecl::Object(p) => p.name.as_str(),
            PropertyDecl::Relationship(p) => p.name.as_str(),
            PropertyDecl::Enum(p) => p.name.as_str(),
        }
    }

    pub fn is_array(&self) -> (r: bool)
        ensures
            r == self.spec_is_array(),
    {
        match self {
            PropertyDecl::Boolean(p) => p.is_array,
            PropertyDecl::String(p) => p.is_array,
            PropertyDecl::Integer(p) => p.is_array,
            PropertyDecl::Long(p) => p.is_array,
            PropertyDecl::Double(p) => p.is_array,
            PropertyDecl::DateTime(p) => p.is_array,
            PropertyDecl::Object(p) => p.is_array,
            PropertyDecl::Relationship(p) => p.is_array,
            PropertyDecl::Enum(_) => false,
        }
    }

    pub fn is_optional(&self) -> (r: bool)
        ensures
            r == self.spec_is_optional(),
    {
        match self {
            PropertyDecl::Boolean(p) => p.is_optional,
            PropertyDecl::String(p) => p.is_optional,
            PropertyDecl::Integer(p) => p.is_optional,
            PropertyDecl::Long(p) => p.is_optional,
            PropertyDecl::Double(p) => p.is_optional,
            PropertyDecl::DateTime(p) => p.is_optional,
            PropertyDecl::Object(p) => p.is_optional,
            PropertyDecl::Relationship(p) => p.is_optional,
            PropertyDecl::Enum(_) => false,
        }
    }

    /// Returns `true` when the property holds a primitive Concerto type.
    pub fn is_primitive(&self) -> (r: bool)
        ensures
            r == (self is Boolean || self is String || self is Integer || self is Long || self is Double
                || self is DateTime),
    {
        match self {
            PropertyDecl::Boolean(_) | PropertyDecl::String(_) | PropertyDecl::Integer(_)
            | PropertyDecl::Long(_) | PropertyDecl::Double(_) | PropertyDecl::DateTime(_) => true,
            _ => false,
        }
    }

    /// Returns `true` when this property is a relationship reference.
    pub fn is_relationship(&self) -> (r: bool)
        ensures
            r == (self is Relationship),
    {
        match self {
            PropertyDecl::Relationship(_) => true,
            _ => false,
        }
    }

    /// Returns `true` when this is an enum value member.
    pub fn is_enum_value(&self) -> (r: bool)
        ensures
            r == (self is Enum),
    {
        match self {
            PropertyDecl::Enum(_) => true,
            _ => false,
        }
    }

    /// The referenced type of an object or relationship property.
    pub fn type_identifier(&self) -> (r: Option<&TypeIdentifier>)
        ensures
            match self {
                PropertyDecl::Object(p) => r == Some(&p.type_),
                PropertyDecl::Relationship(p) => r == Some(&p.type_),
                _ => r is None,
            },
    {
        match self {
            PropertyDecl::Object(p) => Some(&p.type_),
            PropertyDecl::Relationship(p) => Some(&p.type_),
            _ => None,
        }
    }

    /// The primitive type name for primitive properties, or the type
    /// reference name for object and relationship properties; `None` for enum values.
    pub fn data_type_name(&self) -> (r: Option<&str>)
        ensures
            match r {
                Some(s) => self.spec_data_type_name() == Some(s@),
                None => self.spec_data_type_name() is None,
            },
    {
        match self {
            PropertyDecl::Boolean(_) => Some("Boolean"),
            PropertyDecl::String(_) => Some("String"),
            PropertyDecl::Integer(_) => Some("Integer"),
            PropertyDecl::Long(_) => Some("Long"),
            PropertyDecl::Double(_) => Some("Double"),
            PropertyDecl::DateTime(_) => Some("DateTime"),
            PropertyDecl::Object(p) => Some(p.type_.name.as_str()),
            PropertyDecl::Relationship(p) => Some(p.type_.name.as_str()),
            PropertyDecl::Enum(_) => None,
        }
    }

    /// The decorators of the property; none when it has no `decorators` member.
    pub fn decorators(&self) -> (r: &[Decorator])
        ensures
            match self.spec_decorators() {
                Some(ds) => r@ == ds@,
                None => r@.len() == 0,
            },
    {
        let ds = match self {
            PropertyDecl::Boolean(p) => &p.decorators,
            PropertyDecl::String(p) => &p.decorators,
            PropertyDecl::Integer(p) => &p.decorators,
            PropertyDecl::Long(p) => &p.decorators,
            PropertyDecl::Double(p) => &p.decorators,
            PropertyDecl::DateTime(p) => &p.decorators,
            PropertyDecl::Object(p) => &p.decorators,
            PropertyDecl::Relationship(p) => &p.decorators,
            PropertyDecl::Enum(p) => &p.decorators,
        };
        decorator_slice(ds)
    }

    pub fn location(&self) -> (r: Option<&Range>)
        ensures
            match r {
                Some(l) => self.spec_location() == Some(*l),
                None => self.spec_location() is None,
            },
    {
        match self {
            PropertyDecl::Boolean(p) => p.location.as_ref(),
            PropertyDecl::String(p) => p.location.as_ref(),
            PropertyDecl::Integer(p) => p.location.as_ref(),
            PropertyDecl::Long(p) => p.location.as_ref(),
            PropertyDecl::Double(p) => p.location.as_ref(),
            PropertyDecl::DateTime(p) => p.location.as_ref(),
            PropertyDecl::Object(p) => p.location.as_ref(),
            PropertyDecl::Relationship(p) => p.location.as_ref(),
            PropertyDecl::Enum(p) => p.location.as_ref(),
        }
    }

    /// Construct a [`PropertyDecl`] from its JSON form by inspecting `$class`.
    pub fn from_value(value: &JsonValue) -> (r: Result<PropertyDecl, ConcertoError>)
        ensures
            r is Ok <==> property_accepts(*value),
            r matches Ok(p) ==> p.read_from(*value),
            r matches Err(e) ==> property_error(*value, e@),
    {
        let class = class_of(value);
        let kind = get_short_name(class);
        if str_eq(kind, "BooleanProperty") {
            match PropertyBody::decode(value) {
                Ok(p) => Ok(PropertyDecl::Boolean(p)),
                Err(e) => Err(invalid(kind, e)),
            }
        } else if str_eq(kind, "StringProperty") {
            match PropertyBody::decode(value) {
                Ok(p) => Ok(PropertyDecl::String(p)),
                Err(e) => Err(invalid(kind, e)),
            }
        } else if str_eq(kind, "IntegerProperty") {
            match PropertyBody::decode(value) {
                Ok(p) => Ok(PropertyDecl::Integer(p)),
                Err(e) => Err(invalid(kind, e)),
            }
        } else if str_eq(kind, "LongProperty") {
            match PropertyBody::decode(value) {
                Ok(p) => Ok(PropertyDecl::Long(p)),
                Err(e) => Err(invalid(kind, e)),
            }
        } else if str_eq(kind, "DoubleProperty") {
            match PropertyBody::decode(value) {
                Ok(p) => Ok(PropertyDecl::Double(p)),
                Err(e) => Err(invalid(kind, e)),
            }
        } else if str_eq(kind, "DateTimeProperty") {
            match PropertyBody::decode(value) {
                Ok(p) => Ok(PropertyDecl::DateTime(p)),
                Err(e) => Err(invalid(kind, e)),
            }
        } else if str_eq(kind, "ObjectProperty") {
            match TypedPropertyBody::decode(value) {
                Ok(p) => Ok(PropertyDecl::Object(p)),
                Err(e) => Err(invalid(kind, e)),
            }
        } else if str_eq(kind, "RelationshipProperty") {
            match TypedPropertyBody::decode(value) {
                Ok(p) => Ok(PropertyDecl::Relationship(p)),
                Err(e) => Err(invalid(kind, e)),
            }
        } else if str_eq(kind, "EnumProperty") {
            match EnumPropertyBody::decode(value) {
                Ok(p) => Ok(PropertyDecl::Enum(p)),
                Err(e) => Err(invalid(kind, e)),
            }
        } else {
            proof { reveal_strlit("Unknown property type: "); }
            Err(illegal_model(concat2("Unknown property type: ", class), None))
        }
    }
}

/// The error `Invalid <kind>: <detail>`.
pub fn invalid(kind: &str, detail: String) -> (r: ConcertoError)
    ensures
        r@ == invalid_error(kind@, detail@),
{
    let m = concat3("Invalid ", kind, ": ");
    let msg = concat2(m.as_str(), detail.as_str());
    let r = illegal_model(msg, None);
    assert(r@->IllegalModel_message.subrange(0, (m@).len() as int) =~= m@);
    r
}

/// The decorators held in an optional list, as a slice.
pub fn decorator_slice(ds: &Option<Vec<Decorator>>) -> (r: &[Decorator])
    ensures
        match ds {
            Some(v) => r@ == v@,
            None => r@.len() == 0,
        },
{
    match ds {
        Some(v) => v.as_slice(),
        None => {
            let e: &[Decorator] = &[];
            e
        },
    }
}

} // verus!
