//! Key and value types of map declarations.
use vstd::prelude::*;
use crate::metamodel::{Decorator, MapTypeBody, ObjectMapTypeBody};
use super::properties::decorator_slice;
use super::traits::decorators_of;

verus! {

/// The key type of a map declaration.
#[derive(Debug, Clone)]
pub enum MapKeyTypeDecl {
    String(MapTypeBody),
    DateTime(MapTypeBody),
    Object(ObjectMapTypeBody),
}

impl MapKeyTypeDecl {
    pub open spec fn spec_decorators(self) -> Option<Vec<Decorator>> {
        match self {
            MapKeyTypeDecl::String(k) => k.decorators,
            MapKeyTypeDecl::DateTime(k) => k.decorators,
            MapKeyTypeDecl::Object(k) => k.decorators,
        }
    }

    pub open spec fn spec_data_type_name(self) -> Seq<char> {
        match self {
            MapKeyTypeDecl::String(_) => "String"@,
            MapKeyTypeDecl::DateTime(_) => "DateTime"@,
            MapKeyTypeDecl::Object(k) => k.type_.name@,
        }
    }

    pub fn decorators(&self) -> (r: &[Decorator])
        ensures
            r@ == decorators_of(self.spec_decorators()),
    {
        match self {
            MapKeyTypeDecl::String(k) => decorator_slice(&k.decorators),
            MapKeyTypeDecl::DateTime(k) => decorator_slice(&k.decorators),
            MapKeyTypeDecl::Object(k) => decorator_slice(&k.decorators),
        }
    }

    /// The name of the key type.
    pub fn data_type_name(&self) -> (r: &str)
        ensures
            r@ == self.spec_data_type_name(),
    {
        match self {
            MapKeyTypeDecl::String(_) => "String",
            MapKeyTypeDecl::DateTime(_) => "DateTime",
            MapKeyTypeDecl::Object(k) => k.type_.name.as_str(),
        }
    }
}

/// The value type of a map declaration.
#[derive(Debug, Clone)]
pub enum MapValueTypeDecl {
    Boolean(MapTypeBody),
    DateTime(MapTypeBody),
    String(MapTypeBody),
    Integer(MapTypeBody),
    Long(MapTypeBody),
    Double(MapTypeBody),
    Object(ObjectMapTypeBody),
    Relationship(ObjectMapTypeBody),
}

impl MapValueTypeDecl {
    pub open spec fn spec_decorators(self) -> Option<Vec<Decorator>> {
        match self {
            MapValueTypeDecl::Boolean(v) => v.decorators,
            MapValueTypeDecl::DateTime(v) => v.decorators,
            MapValueTypeDecl::String(v) => v.decorators,
            MapValueTypeDecl::Integer(v) => v.decorators,
            MapValueTypeDecl::Long(v) => v.decorators,
            MapValueTypeDecl::Double(v) => v.decorators,
            MapValueTypeDecl::Object(v) => v.decorators,
            MapValueTypeDecl::Relationship(v) => v.decorators,
        }
    }

    pub open spec fn spec_data_type_name(self) -> Seq<char> {
        match self {
            MapValueTypeDecl::Boolean(_) => "Boolean"@,
            MapValueTypeDecl::DateTime(_) => "DateTime"@,
            MapValueTypeDecl::String(_) => "String"@,
            MapValueTypeDecl::Integer(_) => "Integer"@,
            MapValueTypeDecl::Long(_) => "Long"@,
            MapValueTypeDecl::Double(_) => "Double"@,
            MapValueTypeDecl::Object(v) => v.type_.name@,
            MapValueTypeDecl::Relationship(v) => v.type_.name@,
        }
    }

    pub fn decorators(&self) -> (r: &[Decorator])
        ensures
            r@ == decorators_of(self.spec_decorators()),
    {
        match self {
            MapValueTypeDecl::Boolean(v) => decorator_slice(&v.decorators),
            MapValueTypeDecl::DateTime(v) => decorator_slice(&v.decorators),
            MapValueTypeDecl::String(v) => decorator_slice(&v.decorators),
            MapValueTypeDecl::Integer(v) => decorator_slice(&v.decorators),
            MapValueTypeDecl::Long(v) => decorator_slice(&v.decorators),
            MapValueTypeDecl::Double(v) => decorator_slice(&v.decorators),
            MapValueTypeDecl::Object(v) => decorator_slice(&v.decorators),
            MapValueTypeDecl::Relationship(v) => decorator_slice(&v.decorators),
        }
    }

    /// The name of the value type.
    pub fn data_type_name(&self) -> (r: &str)
        ensures
            r@ == self.spec_data_type_name(),
    {
        match self {
            MapValueTypeDecl::Boolean(_) => "Boolean",
            MapValueTypeDecl::DateTime(_) => "DateTime",
            MapValueTypeDecl::String(_) => "String",
            MapValueTypeDecl::Integer(_) => "Integer",
            MapValueTypeDecl::Long(_) => "Long",
            MapValueTypeDecl::Double(_) => "Double",
            MapValueTypeDecl::Object(v) => v.type_.name.as_str(),
            MapValueTypeDecl::Relationship(v) => v.type_.name.as_str(),
        }
    }
}

} // verus!
