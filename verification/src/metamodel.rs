//! The parts of the Concerto metamodel (`concerto.metamodel@1.0.0`) that the
//! library reads, each with the rule by which it is read from its JSON form.
//!
//! Every metamodel object is a JSON object with a `$class` string. A required
//! member must be present with the right kind; an optional member may be
//! missing or null.
use vstd::prelude::*;
use crate::json::{JsonValue, required_string, required_bool, required_i64, optional_string,
    present_member, not_an_object, field_message, missing_message, wrong_kind_message};
use crate::error::opt_text;
use crate::text::owned;

verus! {

/// A metamodel value read from JSON.
pub trait Decodable: Sized {
    /// `v` is the JSON form of a value of this type.
    spec fn accepts(v: JsonValue) -> bool;

    /// `self` is the value read from `v`.
    spec fn read_from(self, v: JsonValue) -> bool;

    /// What is wrong with `v`, when it is not the JSON form of a value of this type.
    spec fn decode_error(v: JsonValue) -> Seq<char>;

    /// Reads the value from `v`; the error is a description of what is wrong.
    fn decode(v: &JsonValue) -> (r: Result<Self, String>)
        ensures
            r is Ok <==> Self::accepts(*v),
            r matches Ok(x) ==> x.read_from(*v),
            r matches Err(m) ==> m@ == Self::decode_error(*v);
}

/// The error `first` when there is one, else `rest`.
pub open spec fn or_else(first: Option<Seq<char>>, rest: Seq<char>) -> Seq<char> {
    match first {
        Some(e) => e,
        None => rest,
    }
}

/// The error of a value that should be an object.
pub open spec fn object_step(v: JsonValue) -> Option<Seq<char>> {
    if v is Object { None } else { Some("invalid type: expected an object"@) }
}

/// The error of a required text member.
pub open spec fn text_step(v: JsonValue, key: Seq<char>) -> Option<Seq<char>> {
    if v.member_text(key) is Some { None } else { Some(field_message(v, key)) }
}

/// The error of a required boolean member.
pub open spec fn bool_step(v: JsonValue, key: Seq<char>) -> Option<Seq<char>> {
    if v.member_bool(key) is Some { None } else { Some(field_message(v, key)) }
}

/// The error of a required integer member.
pub open spec fn i64_step(v: JsonValue, key: Seq<char>) -> Option<Seq<char>> {
    if v.member_i64(key) is Some { None } else { Some(field_message(v, key)) }
}

/// The error of an optional text member.
pub open spec fn opt_text_step(v: JsonValue, key: Seq<char>) -> Option<Seq<char>> {
    if v.optional_text_ok(key) { None } else { Some(field_message(v, key)) }
}

/// The error of the first item that is not the JSON form of a `T`.
pub open spec fn items_step<T: Decodable>(items: Seq<JsonValue>) -> Option<Seq<char>>
    decreases items.len(),
{
    if items.len() == 0 {
        None
    } else {
        match items_step::<T>(items.drop_last()) {
            Some(e) => Some(e),
            None => if T::accepts(items.last()) { None } else { Some(T::decode_error(items.last())) },
        }
    }
}

/// The error of a required member read as a `T`.
pub open spec fn field_step<T: Decodable>(v: JsonValue, key: Seq<char>) -> Option<Seq<char>> {
    match v.member(key) {
        Some(x) => if T::accepts(x) { None } else { Some(T::decode_error(x)) },
        None => Some(missing_message(key)),
    }
}

/// The error of an optional member read as a `T`.
pub open spec fn opt_field_step<T: Decodable>(v: JsonValue, key: Seq<char>) -> Option<Seq<char>> {
    match v.present(key) {
        Some(x) => if T::accepts(x) { None } else { Some(T::decode_error(x)) },
        None => None,
    }
}

/// The error of a required array member read as `T`s.
pub open spec fn array_step<T: Decodable>(v: JsonValue, key: Seq<char>) -> Option<Seq<char>> {
    match v.member(key) {
        Some(JsonValue::Array(items)) => items_step::<T>(items@),
        _ => Some("invalid or missing array field `"@ + key + "`"@),
    }
}

/// The error of an optional array member read as `T`s.
pub open spec fn opt_array_step<T: Decodable>(v: JsonValue, key: Seq<char>) -> Option<Seq<char>> {
    match v.present(key) {
        Some(JsonValue::Array(items)) => items_step::<T>(items@),
        Some(_) => Some(wrong_kind_message(key)),
        None => None,
    }
}

proof fn lemma_items_step_extends<T: Decodable>(prefix: Seq<JsonValue>, items: Seq<JsonValue>)
    requires
        prefix.len() <= items.len(),
        items.take(prefix.len() as int) == prefix,
        items_step::<T>(prefix) is Some,
    ensures
        items_step::<T>(items) == items_step::<T>(prefix),
    decreases items.len() - prefix.len(),
{
    if items.len() > prefix.len() {
        assert(items.drop_last().take(prefix.len() as int) == prefix);
        lemma_items_step_extends::<T>(prefix, items.drop_last());
    } else {
        assert(items == prefix);
    }
}

/// Every item is the JSON form of a `T`.
pub open spec fn all_accept<T: Decodable>(items: Seq<JsonValue>) -> bool {
    forall|i: int| 0 <= i < items.len() ==> #[trigger] T::accepts(items[i])
}

/// `xs` are the values read from `items`, one for one.
pub open spec fn all_read<T: Decodable>(xs: Seq<T>, items: Seq<JsonValue>) -> bool {
    xs.len() == items.len() && forall|i: int| 0 <= i < items.len() ==> #[trigger] xs[i].read_from(items[i])
}

/// The required member `key` is the JSON form of a `T`.
pub open spec fn field_accepts<T: Decodable>(v: JsonValue, key: Seq<char>) -> bool {
    match v.member(key) {
        Some(x) => T::accepts(x),
        None => false,
    }
}

/// `x` is read from the member `key`.
pub open spec fn field_read<T: Decodable>(x: T, v: JsonValue, key: Seq<char>) -> bool {
    match v.member(key) {
        Some(j) => x.read_from(j),
        None => false,
    }
}

/// The optional member `key` is missing, null, or the JSON form of a `T`.
pub open spec fn opt_field_accepts<T: Decodable>(v: JsonValue, key: Seq<char>) -> bool {
    match v.present(key) {
        Some(x) => T::accepts(x),
        None => true,
    }
}

/// `o` is read from the optional member `key`.
pub open spec fn opt_field_read<T: Decodable>(o: Option<T>, v: JsonValue, key: Seq<char>) -> bool {
    match (o, v.present(key)) {
        (None, None) => true,
        (Some(x), Some(j)) => x.read_from(j),
        _ => false,
    }
}

/// The required member `key` is an array of JSON forms of `T`.
pub open spec fn array_field_accepts<T: Decodable>(v: JsonValue, key: Seq<char>) -> bool {
    match v.member(key) {
        Some(JsonValue::Array(items)) => all_accept::<T>(items@),
        _ => false,
    }
}

/// `xs` are read from the array member `key`.
pub open spec fn array_field_read<T: Decodable>(xs: Seq<T>, v: JsonValue, key: Seq<char>) -> bool {
    match v.member(key) {
        Some(JsonValue::Array(items)) => all_read(xs, items@),
        _ => false,
    }
}

/// The optional member `key` is missing, null, or an array of JSON forms of `T`.
pub open spec fn opt_array_field_accepts<T: Decodable>(v: JsonValue, key: Seq<char>) -> bool {
    match v.present(key) {
        Some(JsonValue::Array(items)) => all_accept::<T>(items@),
        Some(_) => false,
        None => true,
    }
}

/// `o` is read from the optional array member `key`.
pub open spec fn opt_array_field_read<T: Decodable>(o: Option<Vec<T>>, v: JsonValue, key: Seq<char>) -> bool {
    match (o, v.present(key)) {
        (None, None) => true,
        (Some(xs), Some(JsonValue::Array(items))) => all_read(xs@, items@),
        _ => false,
    }
}

/// Reads each item as a `T`.
pub fn decode_items<T: Decodable>(items: &Vec<JsonValue>) -> (r: Result<Vec<T>, String>)
    ensures
        r is Ok <==> all_accept::<T>(items@),
        r is Ok <==> items_step::<T>(items@) is None,
        r matches Ok(xs) ==> all_read(xs@, items@),
        r matches Err(m) ==> items_step::<T>(items@) == Some(m@),
{
    let mut out: Vec<T> = Vec::new();
    let mut i: usize = 0;
    assert(items@.take(0) == Seq::<JsonValue>::empty());
    while i < items.len()
        invariant
            i <= items@.len(),
            out@.len() == i,
            forall|j: int| 0 <= j < i ==> #[trigger] T::accepts(items@[j]),
            forall|j: int| 0 <= j < i ==> #[trigger] out@[j].read_from(items@[j]),
            items_step::<T>(items@.take(i as int)) is None,
        decreases items@.len() - i,
    {
        assert(items@.take(i + 1).drop_last() == items@.take(i as int));
        assert(items@.take(i + 1).last() == items@[i as int]);
        match T::decode(&items[i]) {
            Ok(x) => out.push(x),
            Err(m) => {
                proof { lemma_items_step_extends::<T>(items@.take(i + 1), items@); }
                return Err(m);
            },
        }
        i = i + 1;
    }
    assert(items@.take(items@.len() as int) == items@);
    Ok(out)
}

/// Reads the required member `key` as a `T`.
pub fn decode_field<T: Decodable>(v: &JsonValue, key: &str) -> (r: Result<T, String>)
    ensures
        r is Ok <==> field_accepts::<T>(*v, key@),
        r is Ok <==> field_step::<T>(*v, key@) is None,
        r matches Ok(x) ==> field_read(x, *v, key@),
        r matches Err(m) ==> field_step::<T>(*v, key@) == Some(m@),
{
    match v.get(key) {
        Some(x) => T::decode(x),
        None => Err(crate::text::concat3("missing field `", key, "`")),
    }
}

/// Reads the optional member `key` as a `T`.
pub fn decode_opt_field<T: Decodable>(v: &JsonValue, key: &str) -> (r: Result<Option<T>, String>)
    ensures
        r is Ok <==> opt_field_accepts::<T>(*v, key@),
        r is Ok <==> opt_field_step::<T>(*v, key@) is None,
        r matches Ok(o) ==> opt_field_read(o, *v, key@),
        r matches Err(m) ==> opt_field_step::<T>(*v, key@) == Some(m@),
{
    match present_member(v, key) {
        Some(x) => match T::decode(x) {
            Ok(t) => Ok(Some(t)),
            Err(m) => Err(m),
        },
        None => Ok(None),
    }
}

/// Reads the required array member `key` as `T`s.
pub fn decode_array_field<T: Decodable>(v: &JsonValue, key: &str) -> (r: Result<Vec<T>, String>)
    ensures
        r is Ok <==> array_field_accepts::<T>(*v, key@),
        r is Ok <==> array_step::<T>(*v, key@) is None,
        r matches Ok(xs) ==> array_field_read(xs@, *v, key@),
        r matches Err(m) ==> array_step::<T>(*v, key@) == Some(m@),
{
    match v.get(key) {
        Some(JsonValue::Array(items)) => decode_items(items),
        _ => Err(crate::text::concat3("invalid or missing array field `", key, "`")),
    }
}

/// Reads the optional array member `key` as `T`s.
pub fn decode_opt_array_field<T: Decodable>(v: &JsonValue, key: &str) -> (r: Result<Option<Vec<T>>, String>)
    ensures
        r is Ok <==> opt_array_field_accepts::<T>(*v, key@),
        r is Ok <==> opt_array_step::<T>(*v, key@) is None,
        r matches Ok(o) ==> opt_array_field_read(o, *v, key@),
        r matches Err(m) ==> opt_array_step::<T>(*v, key@) == Some(m@),
{
    match present_member(v, key) {
        Some(JsonValue::Array(items)) => match decode_items(items) {
            Ok(xs) => Ok(Some(xs)),
            Err(m) => Err(m),
        },
        Some(_) => Err(crate::text::concat3("invalid type for field `", key, "`")),
        None => Ok(None),
    }
}

impl Decodable for String {
    open spec fn accepts(v: JsonValue) -> bool {
        v is String
    }

    open spec fn read_from(self, v: JsonValue) -> bool {
        v.string_text() == Some(self@)
    }

    open spec fn decode_error(v: JsonValue) -> Seq<char> {
        "invalid type: expected a string"@
    }

    fn decode(v: &JsonValue) -> (r: Result<String, String>) {
        match v {
            JsonValue::String(s) => Ok(s.clone()),
            _ => Err(owned("invalid type: expected a string")),
        }
    }
}

/// A position in a source text.
#[derive(Debug, Clone)]
pub struct Position {
    pub class: String,
    pub line: i64,
    pub column: i64,
    pub offset: i64,
}

impl Decodable for Position {
    open spec fn accepts(v: JsonValue) -> bool {
        &&& v is Object
        &&& v.member_text("$class"@) is Some
        &&& v.member_i64("line"@) is Some
        &&& v.member_i64("column"@) is Some
        &&& v.member_i64("offset"@) is Some
    }

    open spec fn read_from(self, v: JsonValue) -> bool {
        &&& v.member_text("$class"@) == Some(self.class@)
        &&& v.member_i64("line"@) == Some(self.line as int)
        &&& v.member_i64("column"@) == Some(self.column as int)
        &&& v.member_i64("offset"@) == Some(self.offset as int)
    }

    open spec fn decode_error(v: JsonValue) -> Seq<char> {
        or_else(object_step(v),
        or_else(text_step(v, "$class"@),
        or_else(i64_step(v, "line"@),
        or_else(i64_step(v, "column"@),
        or_else(i64_step(v, "offset"@),
        Seq::empty())))))
    }

    fn decode(v: &JsonValue) -> (r: Result<Position, String>) {
        if !v.is_object() {
            return Err(not_an_object());
        }
        let class = match required_string(v, "$class") {
            Ok(x) => x,
            Err(m) => return Err(m),
        };
        let line = match required_i64(v, "line") {
            Ok(x) => x,
            Err(m) => return Err(m),
        };
        let column = match required_i64(v, "column") {
            Ok(x) => x,
            Err(m) => return Err(m),
        };
        let offset = match required_i64(v, "offset") {
            Ok(x) => x,
            Err(m) => return Err(m),
        };
        Ok(Position { class, line, column, offset })
    }
}

/// A range in a source text.
#[derive(Debug, Clone)]
pub struct Range {
    pub class: String,
    pub start: Position,
    pub end: Position,
    pub source: Option<String>,
}

impl Decodable for Range {
    open spec fn accepts(v: JsonValue) -> bool {
        &&& v is Object
        &&& v.member_text("$class"@) is Some
        &&& field_accepts::<Position>(v, "start"@)
        &&& field_accepts::<Position>(v, "end"@)
        &&& v.optional_text_ok("source"@)
    }

    open spec fn read_from(self, v: JsonValue) -> bool {
        &&& v.member_text("$class"@) == Some(self.class@)
        &&& field_read(self.start, v, "start"@)
        &&& field_read(self.end, v, "end"@)
        &&& opt_text(self.source) == v.member_text("source"@)
    }

    open spec fn decode_error(v: JsonValue) -> Seq<char> {
        or_else(object_step(v),
        or_else(text_step(v, "$class"@),
        or_else(field_step::<Position>(v, "start"@),
        or_else(field_step::<Position>(v, "end"@),
        or_else(opt_text_step(v, "source"@),
        Seq::empty())))))
    }

    fn decode(v: &JsonValue) -> (r: Result<Range, String>) {
        if !v.is_object() {
            return Err(not_an_object());
        }
        let class = match required_string(v, "$class") {
            Ok(x) => x,
            Err(m) => return Err(m),
        };
        let start = match decode_field::<Position>(v, "start") {
            Ok(x) => x,
            Err(m) => return Err(m),
        };
        let end = match decode_field::<Position>(v, "end") {
            Ok(x) => x,
            Err(m) => return Err(m),
        };
        let source = match optional_string(v, "source") {
            Ok(x) => x,
            Err(m) => return Err(m),
        };
        Ok(Range { class, start, end, source })
    }
}

/// A reference to a type by its name.
#[derive(Debug, Clone)]
pub struct TypeIdentifier {
    pub class: String,
    pub name: String,
    pub namespace: Option<String>,
    pub resolved_name: Option<String>,
}

impl Decodable for TypeIdentifier {
    open spec fn accepts(v: JsonValue) -> bool {
        &&& v is Object
        &&& v.member_text("$class"@) is Some
        &&& v.member_text("name"@) is Some
        &&& v.optional_text_ok("namespace"@)
        &&& v.optional_text_ok("resolvedName"@)
    }

    open spec fn read_from(self, v: JsonValue) -> bool {
        &&& v.member_text("$class"@) == Some(self.class@)
        &&& v.member_text("name"@) == Some(self.name@)
        &&& opt_text(self.namespace) == v.member_text("namespace"@)
        &&& opt_text(self.resolved_name) == v.member_text("resolvedName"@)
    }

    open spec fn decode_error(v: JsonValue) -> Seq<char> {
        or_else(object_step(v),
        or_else(text_step(v, "$class"@),
        or_else(text_step(v, "name"@),
        or_else(opt_text_step(v, "namespace"@),
        or_else(opt_text_step(v, "resolvedName"@),
        Seq::empty())))))
    }

    fn decode(v: &JsonValue) -> (r: Result<TypeIdentifier, String>) {
        if !v.is_object() {
            return Err(not_an_object());
        }
        let class = match required_string(v, "$class") {
            Ok(x) => x,
            Err(m) => return Err(m),
        };
        let name = match required_string(v, "name") {
            Ok(x) => x,
            Err(m) => return Err(m),
        };
        let namespace = match optional_string(v, "namespace") {
            Ok(x) => x,
            Err(m) => return Err(m),
        };
        let resolved_name = match optional_string(v, "resolvedName") {
            Ok(x) => x,
            Err(m) => return Err(m),
        };
        Ok(TypeIdentifier { class, name, namespace, resolved_name })
    }
}

/// The identity clause of a declaration: `Identified` or `IdentifiedBy`.
#[derive(Debug, Clone)]
pub struct Identified {
    pub class: String,
}

impl Decodable for Identified {
    open spec fn accepts(v: JsonValue) -> bool {
        v is Object && v.member_text("$class"@) is Some
    }

    open spec fn read_from(self, v: JsonValue) -> bool {
        v.member_text("$class"@) == Some(self.class@)
    }

    open spec fn decode_error(v: JsonValue) -> Seq<char> {
        or_else(object_step(v),
        or_else(text_step(v, "$class"@),
        Seq::empty()))
    }

    fn decode(v: &JsonValue) -> (r: Result<Identified, String>) {
        if !v.is_object() {
            return Err(not_an_object());
        }
        let class = match required_string(v, "$class") {
            Ok(x) => x,
            Err(m) => return Err(m),
        };
        Ok(Identified { class })
    }
}

/// An argument of a decorator, by its class.
#[derive(Debug, Clone)]
pub struct DecoratorLiteral {
    pub class: String,
    pub location: Option<Range>,
}

impl Decodable for DecoratorLiteral {
    open spec fn accepts(v: JsonValue) -> bool {
        &&& v is Object
        &&& v.member_text("$class"@) is Some
        &&& opt_field_accepts::<Range>(v, "location"@)
    }

    open spec fn read_from(self, v: JsonValue) -> bool {
        &&& v.member_text("$class"@) == Some(self.class@)
        &&& opt_field_read(self.location, v, "location"@)
    }

    open spec fn decode_error(v: JsonValue) -> Seq<char> {
        or_else(object_step(v),
        or_else(text_step(v, "$class"@),
        or_else(opt_field_step::<Range>(v, "location"@),
        Seq::empty())))
    }

    fn decode(v: &JsonValue) -> (r: Result<DecoratorLiteral, String>) {
        if !v.is_object() {
            return Err(not_an_object());
        }
        let class = match required_string(v, "$class") {
            Ok(x) => x,
            Err(m) => return Err(m),
        };
        let location = match decode_opt_field::<Range>(v, "location") {
            Ok(x) => x,
            Err(m) => return Err(m),
        };
        Ok(DecoratorLiteral { class, location })
    }
}

/// A decorator (annotation) with its arguments.
#[derive(Debug, Clone)]
pub struct Decorator {
    pub class: String,
    pub name: String,
    pub arguments: Option<Vec<DecoratorLiteral>>,
    pub location: Option<Range>,
}

impl Decodable for Decorator {
    open spec fn accepts(v: JsonValue) -> bool {
        &&& v is Object
        &&& v.member_text("$class"@) is Some
        &&& v.member_text("name"@) is Some
        &&& opt_array_field_accepts::<DecoratorLiteral>(v, "arguments"@)
        &&& opt_field_accepts::<Range>(v, "location"@)
    }

    open spec fn read_from(self, v: JsonValue) -> bool {
        &&& v.member_text("$class"@) == Some(self.class@)
        &&& v.member_text("name"@) == Some(self.name@)
        &&& opt_array_field_read(self.arguments, v, "arguments"@)
        &&& opt_field_read(self.location, v, "location"@)
    }

    open spec fn decode_error(v: JsonValue) -> Seq<char> {
        or_else(object_step(v),
        or_else(text_step(v, "$class"@),
        or_else(text_step(v, "name"@),
        or_else(opt_array_step::<DecoratorLiteral>(v, "arguments"@),
        or_else(opt_field_step::<Range>(v, "location"@),
        Seq::empty())))))
    }

    fn decode(v: &JsonValue) -> (r: Result<Decorator, String>) {
        if !v.is_object() {
            return Err(not_an_object());
        }
        let class = match required_string(v, "$class") {
            Ok(x) => x,
            Err(m) => return Err(m),
        };
        let name = match required_string(v, "name") {
            Ok(x) => x,
            Err(m) => return Err(m),
        };
        let arguments = match decode_opt_array_field::<DecoratorLiteral>(v, "arguments") {
            Ok(x) => x,
            Err(m) => return Err(m),
        };
        let location = match decode_opt_field::<Range>(v, "location") {
            Ok(x) => x,
            Err(m) => return Err(m),
        };
        Ok(Decorator { class, name, arguments, location })
    }
}

/// A type imported under another name.
#[derive(Debug, Clone)]
pub struct AliasedType {
    pub class: String,
    pub name: String,
    pub aliased_name: String,
}

impl Decodable for AliasedType {
    open spec fn accepts(v: JsonValue) -> bool {
        &&& v is Object
        &&& v.member_text("$class"@) is Some
        &&& v.member_text("name"@) is Some
        &&& v.member_text("aliasedName"@) is Some
    }

    open spec fn read_from(self, v: JsonValue) -> bool {
        &&& v.member_text("$class"@) == Some(self.class@)
        &&& v.member_text("name"@) == Some(self.name@)
        &&& v.member_text("aliasedName"@) == Some(self.aliased_name@)
    }

    open spec fn decode_error(v: JsonValue) -> Seq<char> {
        or_else(object_step(v),
        or_else(text_step(v, "$class"@),
        or_else(text_step(v, "name"@),
        or_else(text_step(v, "aliasedName"@),
        Seq::empty()))))
    }

    fn decode(v: &JsonValue) -> (r: Result<AliasedType, String>) {
        if !v.is_object() {
            return Err(not_an_object());
        }
        let class = match required_string(v, "$class") {
            Ok(x) => x,
            Err(m) => return Err(m),
        };
        let name = match required_string(v, "name") {
            Ok(x) => x,
            Err(m) => return Err(m),
        };
        let aliased_name = match required_string(v, "aliasedName") {
            Ok(x) => x,
            Err(m) => return Err(m),
        };
        Ok(AliasedType { class, name, aliased_name })
    }
}

/// An import of every type of a namespace.
#[derive(Debug, Clone)]
pub struct ImportAll {
    pub class: String,
    pub namespace: String,
    pub uri: Option<String>,
}

impl Decodable for ImportAll {
    open spec fn accepts(v: JsonValue) -> bool {
        &&& v is Object
        &&& v.member_text("$class"@) is Some
        &&& v.member_text("namespace"@) is Some
        &&& v.optional_text_ok("uri"@)
    }

    open spec fn read_from(self, v: JsonValue) -> bool {
        &&& v.member_text("$class"@) == Some(self.class@)
        &&& v.member_text("namespace"@) == Some(self.namespace@)
        &&& opt_text(self.uri) == v.member_text("uri"@)
    }

    open spec fn decode_error(v: JsonValue) -> Seq<char> {
        or_else(object_step(v),
        or_else(text_step(v, "$class"@),
        or_else(text_step(v, "namespace"@),
        or_else(opt_text_step(v, "uri"@),
        Seq::empty()))))
    }

    fn decode(v: &JsonValue) -> (r: Result<ImportAll, String>) {
        if !v.is_object() {
            return Err(not_an_object());
        }
        let class = match required_string(v, "$class") {
            Ok(x) => x,
            Err(m) => return Err(m),
        };
        let namespace = match required_string(v, "namespace") {
            Ok(x) => x,
            Err(m) => return Err(m),
        };
        let uri = match optional_string(v, "uri") {
            Ok(x) => x,
            Err(m) => return Err(m),
        };
        Ok(ImportAll { class, namespace, uri })
    }
}

/// An import of one type.
#[derive(Debug, Clone)]
pub struct ImportType {
    pub class: String,
    pub name: String,
    pub namespace: String,
    pub uri: Option<String>,
}

impl Decodable for ImportType {
    open spec fn accepts(v: JsonValue) -> bool {
        &&& v is Object
        &&& v.member_text("$class"@) is Some
        &&& v.member_text("name"@) is Some
        &&& v.member_text("namespace"@) is Some
        &&& v.optional_text_ok("uri"@)
    }

    open spec fn read_from(self, v: JsonValue) -> bool {
        &&& v.member_text("$class"@) == Some(self.class@)
        &&& v.member_text("name"@) == Some(self.name@)
        &&& v.member_text("namespace"@) == Some(self.namespace@)
        &&& opt_text(self.uri) == v.member_text("uri"@)
    }

    open spec fn decode_error(v: JsonValue) -> Seq<char> {
        or_else(object_step(v),
        or_else(text_step(v, "$class"@),
        or_else(text_step(v, "name"@),
        or_else(text_step(v, "namespace"@),
        or_else(opt_text_step(v, "uri"@),
        Seq::empty())))))
    }

    fn decode(v: &JsonValue) -> (r: Result<ImportType, String>) {
        if !v.is_object() {
            return Err(not_an_object());
        }
        let class = match required_string(v, "$class") {
            Ok(x) => x,
            Err(m) => return Err(m),
        };
        let name = match required_string(v, "name") {
            Ok(x) => x,
            Err(m) => return Err(m),
        };
        let namespace = match required_string(v, "namespace") {
            Ok(x) => x,
            Err(m) => return Err(m),
        };
        let uri = match optional_string(v, "uri") {
            Ok(x) => x,
            Err(m) => return Err(m),
        };
        Ok(ImportType { class, name, namespace, uri })
    }
}

/// An import of several named types, some possibly under other names.
#[derive(Debug, Clone)]
pub struct ImportTypes {
    pub class: String,
    pub namespace: String,
    pub uri: Option<String>,
    pub types: Vec<String>,
    pub aliased_types: Option<Vec<AliasedType>>,
}

impl Decodable for ImportTypes {
    open spec fn accepts(v: JsonValue) -> bool {
        &&& v is Object
        &&& v.member_text("$class"@) is Some
        &&& v.member_text("namespace"@) is Some
        &&& v.optional_text_ok("uri"@)
        &&& array_field_accepts::<String>(v, "types"@)
        &&& opt_array_field_accepts::<AliasedType>(v, "aliasedTypes"@)
    }

    open spec fn read_from(self, v: JsonValue) -> bool {
        &&& v.member_text("$class"@) == Some(self.class@)
        &&& v.member_text("namespace"@) == Some(self.namespace@)
        &&& opt_text(self.uri) == v.member_text("uri"@)
        &&& array_field_read(self.types@, v, "types"@)
        &&& opt_array_field_read(self.aliased_types, v, "aliasedTypes"@)
    }

    open spec fn decode_error(v: JsonValue) -> Seq<char> {
        or_else(object_step(v),
        or_else(text_step(v, "$class"@),
        or_else(text_step(v, "namespace"@),
        or_else(opt_text_step(v, "uri"@),
        or_else(array_step::<String>(v, "types"@),
        or_else(opt_array_step::<AliasedType>(v, "aliasedTypes"@),
        Seq::empty()))))))
    }

    fn decode(v: &JsonValue) -> (r: Result<ImportTypes, String>) {
        if !v.is_object() {
            return Err(not_an_object());
        }
        let class = match required_string(v, "$class") {
            Ok(x) => x,
            Err(m) => return Err(m),
        };
        let namespace = match required_string(v, "namespace") {
            Ok(x) => x,
            Err(m) => return Err(m),
        };
        let uri = match optional_string(v, "uri") {
            Ok(x) => x,
            Err(m) => return Err(m),
        };
        let types = match decode_array_field::<String>(v, "types") {
            Ok(x) => x,
            Err(m) => return Err(m),
        };
        let aliased_types = match decode_opt_array_field::<AliasedType>(v, "aliasedTypes") {
            Ok(x) => x,
            Err(m) => return Err(m),
        };
        Ok(ImportTypes { class, namespace, uri, types, aliased_types })
    }
}


/// The members that every property shares (`concerto.metamodel@1.0.0.Property`).
#[derive(Debug, Clone)]
pub struct PropertyBody {
    pub class: String,
    pub name: String,
    pub is_array: bool,
    pub is_optional: bool,
    pub decorators: Option<Vec<Decorator>>,
    pub location: Option<Range>,
}

impl Decodable for PropertyBody {
    open spec fn accepts(v: JsonValue) -> bool {
        &&& v is Object
        &&& v.member_text("$class"@) is Some
        &&& v.member_text("name"@) is Some
        &&& v.member_bool("isArray"@) is Some
        &&& v.member_bool("isOptional"@) is Some
        &&& opt_array_field_accepts::<Decorator>(v, "decorators"@)
        &&& opt_field_accepts::<Range>(v, "location"@)
    }

    open spec fn read_from(self, v: JsonValue) -> bool {
        &&& v.member_text("$class"@) == Some(self.class@)
        &&& v.member_text("name"@) == Some(self.name@)
        &&& v.member_bool("isArray"@) == Some(self.is_array)
        &&& v.member_bool("isOptional"@) == Some(self.is_optional)
        &&& opt_array_field_read(self.decorators, v, "decorators"@)
        &&& opt_field_read(self.location, v, "location"@)
    }

    open spec fn decode_error(v: JsonValue) -> Seq<char> {
        or_else(object_step(v),
        or_else(text_step(v, "$class"@),
        or_else(text_step(v, "name"@),
        or_else(bool_step(v, "isArray"@),
        or_else(bool_step(v, "isOptional"@),
        or_else(opt_array_step::<Decorator>(v, "decorators"@),
        or_else(opt_field_step::<Range>(v, "location"@),
        Seq::empty())))))))
    }

    fn decode(v: &JsonValue) -> (r: Result<PropertyBody, String>) {
        if !v.is_object() {
            return Err(not_an_object());
        }
        let class = match required_string(v, "$class") {
            Ok(x) => x,
            Err(m) => return Err(m),
        };
        let name = match required_string(v, "name") {
            Ok(x) => x,
            Err(m) => return Err(m),
        };
        let is_array = match required_bool(v, "isArray") {
            Ok(x) => x,
            Err(m) => return Err(m),
        };
        let is_optional = match required_bool(v, "isOptional") {
            Ok(x) => x,
            Err(m) => return Err(m),
        };
        let decorators = match decode_opt_array_field::<Decorator>(v, "decorators") {
            Ok(x) => x,
            Err(m) => return Err(m),
        };
        let location = match decode_opt_field::<Range>(v, "location") {
            Ok(x) => x,
            Err(m) => return Err(m),
        };
        Ok(PropertyBody { class, name, is_array, is_optional, decorators, location })
    }
}

/// A property that refers to a type: an object property or a relationship.
#[derive(Debug, Clone)]
pub struct TypedPropertyBody {
    pub class: String,
    pub name: String,
    pub is_array: bool,
    pub is_optional: bool,
    pub decorators: Option<Vec<Decorator>>,
    pub location: Option<Range>,
    pub type_: TypeIdentifier,
}

impl Decodable for TypedPropertyBody {
    open spec fn accepts(v: JsonValue) -> bool {
        &&& PropertyBody::accepts(v)
        &&& field_accepts::<TypeIdentifier>(v, "type"@)
    }

    open spec fn read_from(self, v: JsonValue) -> bool {
        &&& v.member_text("$class"@) == Some(self.class@)
        &&& v.member_text("name"@) == Some(self.name@)
        &&& v.member_bool("isArray"@) == Some(self.is_array)
        &&& v.member_bool("isOptional"@) == Some(self.is_optional)
        &&& opt_array_field_read(self.decorators, v, "decorators"@)
        &&& opt_field_read(self.location, v, "location"@)
        &&& field_read(self.type_, v, "type"@)
    }

    open spec fn decode_error(v: JsonValue) -> Seq<char> {
        if !PropertyBody::accepts(v) {
            PropertyBody::decode_error(v)
        } else {
            or_else(field_step::<TypeIdentifier>(v, "type"@), Seq::empty())
        }
    }

    fn decode(v: &JsonValue) -> (r: Result<TypedPropertyBody, String>) {
        let body = match PropertyBody::decode(v) {
            Ok(x) => x,
            Err(m) => return Err(m),
        };
        let type_ = match decode_field::<TypeIdentifier>(v, "type") {
            Ok(x) => x,
            Err(m) => return Err(m),
        };
        Ok(TypedPropertyBody {
            class: body.class,
            name: body.name,
            is_array: body.is_array,
            is_optional: body.is_optional,
            decorators: body.decorators,
            location: body.location,
            type_,
        })
    }
}

/// A value of an enumeration (`concerto.metamodel@1.0.0.EnumProperty`).
#[derive(Debug, Clone)]
pub struct EnumPropertyBody {
    pub class: String,
    pub name: String,
    pub decorators: Option<Vec<Decorator>>,
    pub location: Option<Range>,
}

impl Decodable for EnumPropertyBody {
    open spec fn accepts(v: JsonValue) -> bool {
        &&& v is Object
        &&& v.member_text("$class"@) is Some
        &&& v.member_text("name"@) is Some
        &&& opt_array_field_accepts::<Decorator>(v, "decorators"@)
        &&& opt_field_accepts::<Range>(v, "location"@)
    }

    open spec fn read_from(self, v: JsonValue) -> bool {
        &&& v.member_text("$class"@) == Some(self.class@)
        &&& v.member_text("name"@) == Some(self.name@)
        &&& opt_array_field_read(self.decorators, v, "decorators"@)
        &&& opt_field_read(self.location, v, "location"@)
    }

    open spec fn decode_error(v: JsonValue) -> Seq<char> {
        or_else(object_step(v),
        or_else(text_step(v, "$class"@),
        or_else(text_step(v, "name"@),
        or_else(opt_array_step::<Decorator>(v, "decorators"@),
        or_else(opt_field_step::<Range>(v, "location"@),
        Seq::empty())))))
    }

    fn decode(v: &JsonValue) -> (r: Result<EnumPropertyBody, String>) {
        if !v.is_object() {
            return Err(not_an_object());
        }
        let class = match required_string(v, "$class") {
            Ok(x) => x,
            Err(m) => return Err(m),
        };
        let name = match required_string(v, "name") {
            Ok(x) => x,
            Err(m) => return Err(m),
        };
        let decorators = match decode_opt_array_field::<Decorator>(v, "decorators") {
            Ok(x) => x,
            Err(m) => return Err(m),
        };
        let location = match decode_opt_field::<Range>(v, "location") {
            Ok(x) => x,
            Err(m) => return Err(m),
        };
        Ok(EnumPropertyBody { class, name, decorators, location })
    }
}

/// The members of a named declaration without properties: a scalar, or the
/// common part of any declaration.
#[derive(Debug, Clone)]
pub struct NamedBody {
    pub class: String,
    pub name: String,
    pub decorators: Option<Vec<Decorator>>,
    pub location: Option<Range>,
}

impl Decodable for NamedBody {
    open spec fn accepts(v: JsonValue) -> bool {
        &&& v is Object
        &&& v.member_text("$class"@) is Some
        &&& v.member_text("name"@) is Some
        &&& opt_array_field_accepts::<Decorator>(v, "decorators"@)
        &&& opt_field_accepts::<Range>(v, "location"@)
    }

    open spec fn read_from(self, v: JsonValue) -> bool {
        &&& v.member_text("$class"@) == Some(self.class@)
        &&& v.member_text("name"@) == Some(self.name@)
        &&& opt_array_field_read(self.decorators, v, "decorators"@)
        &&& opt_field_read(self.location, v, "location"@)
    }

    open spec fn decode_error(v: JsonValue) -> Seq<char> {
        or_else(object_step(v),
        or_else(text_step(v, "$class"@),
        or_else(text_step(v, "name"@),
        or_else(opt_array_step::<Decorator>(v, "decorators"@),
        or_else(opt_field_step::<Range>(v, "location"@),
        Seq::empty())))))
    }

    fn decode(v: &JsonValue) -> (r: Result<NamedBody, String>) {
        if !v.is_object() {
            return Err(not_an_object());
        }
        let class = match required_string(v, "$class") {
            Ok(x) => x,
            Err(m) => return Err(m),
        };
        let name = match required_string(v, "name") {
            Ok(x) => x,
            Err(m) => return Err(m),
        };
        let decorators = match decode_opt_array_field::<Decorator>(v, "decorators") {
            Ok(x) => x,
            Err(m) => return Err(m),
        };
        let location = match decode_opt_field::<Range>(v, "location") {
            Ok(x) => x,
            Err(m) => return Err(m),
        };
        Ok(NamedBody { class, name, decorators, location })
    }
}

/// The key or the value type of a map declaration.
#[derive(Debug, Clone)]
pub struct MapTypeBody {
    pub class: String,
    pub decorators: Option<Vec<Decorator>>,
    pub location: Option<Range>,
}

impl Decodable for MapTypeBody {
    open spec fn accepts(v: JsonValue) -> bool {
        &&& v is Object
        &&& v.member_text("$class"@) is Some
        &&& opt_array_field_accepts::<Decorator>(v, "decorators"@)
        &&& opt_field_accepts::<Range>(v, "location"@)
    }

    open spec fn read_from(self, v: JsonValue) -> bool {
        &&& v.member_text("$class"@) == Some(self.class@)
        &&& opt_array_field_read(self.decorators, v, "decorators"@)
        &&& opt_field_read(self.location, v, "location"@)
    }

    open spec fn decode_error(v: JsonValue) -> Seq<char> {
        or_else(object_step(v),
        or_else(text_step(v, "$class"@),
        or_else(opt_array_step::<Decorator>(v, "decorators"@),
        or_else(opt_field_step::<Range>(v, "location"@),
        Seq::empty()))))
    }

    fn decode(v: &JsonValue) -> (r: Result<MapTypeBody, String>) {
        if !v.is_object() {
            return Err(not_an_object());
        }
        let class = match required_string(v, "$class") {
            Ok(x) => x,
            Err(m) => return Err(m),
        };
        let decorators = match decode_opt_array_field::<Decorator>(v, "decorators") {
            Ok(x) => x,
            Err(m) => return Err(m),
        };
        let location = match decode_opt_field::<Range>(v, "location") {
            Ok(x) => x,
            Err(m) => return Err(m),
        };
        Ok(MapTypeBody { class, decorators, location })
    }
}

/// A map key or value type that refers to a declared type.
#[derive(Debug, Clone)]
pub struct ObjectMapTypeBody {
    pub class: String,
    pub decorators: Option<Vec<Decorator>>,
    pub location: Option<Range>,
    pub type_: TypeIdentifier,
}

/// A map declaration (`concerto.metamodel@1.0.0.MapDeclaration`).
#[derive(Debug, Clone)]
pub struct MapDeclarationBody {
    pub class: String,
    pub name: String,
    pub decorators: Option<Vec<Decorator>>,
    pub location: Option<Range>,
    pub key: MapTypeBody,
    pub value: MapTypeBody,
}

impl Decodable for MapDeclarationBody {
    open spec fn accepts(v: JsonValue) -> bool {
        &&& NamedBody::accepts(v)
        &&& field_accepts::<MapTypeBody>(v, "key"@)
        &&& field_accepts::<MapTypeBody>(v, "value"@)
    }

    open spec fn read_from(self, v: JsonValue) -> bool {
        &&& v.member_text("$class"@) == Some(self.class@)
        &&& v.member_text("name"@) == Some(self.name@)
        &&& opt_array_field_read(self.decorators, v, "decorators"@)
        &&& opt_field_read(self.location, v, "location"@)
        &&& field_read(self.key, v, "key"@)
        &&& field_read(self.value, v, "value"@)
    }

    open spec fn decode_error(v: JsonValue) -> Seq<char> {
        if !NamedBody::accepts(v) {
            NamedBody::decode_error(v)
        } else {
            or_else(field_step::<MapTypeBody>(v, "key"@),
            or_else(field_step::<MapTypeBody>(v, "value"@),
            Seq::empty()))
        }
    }

    fn decode(v: &JsonValue) -> (r: Result<MapDeclarationBody, String>) {
        let body = match NamedBody::decode(v) {
            Ok(x) => x,
            Err(m) => return Err(m),
        };
        let key = match decode_field::<MapTypeBody>(v, "key") {
            Ok(x) => x,
            Err(m) => return Err(m),
        };
        let value = match decode_field::<MapTypeBody>(v, "value") {
            Ok(x) => x,
            Err(m) => return Err(m),
        };
        Ok(MapDeclarationBody {
            class: body.class,
            name: body.name,
            decorators: body.decorators,
            location: body.location,
            key,
            value,
        })
    }
}

/// The members of a concept, asset, participant, transaction or event
/// declaration other than its properties. Its JSON form needs a `properties`
/// array whose items all have the members of a property.
#[derive(Debug, Clone)]
pub struct ClassBody {
    pub class: String,
    pub name: String,
    pub decorators: Option<Vec<Decorator>>,
    pub location: Option<Range>,
    pub is_abstract: bool,
    pub identified: Option<Identified>,
    pub super_type: Option<TypeIdentifier>,
}

impl Decodable for ClassBody {
    open spec fn accepts(v: JsonValue) -> bool {
        &&& NamedBody::accepts(v)
        &&& v.member_bool("isAbstract"@) is Some
        &&& opt_field_accepts::<Identified>(v, "identified"@)
        &&& opt_field_accepts::<TypeIdentifier>(v, "superType"@)
        &&& array_field_accepts::<PropertyBody>(v, "properties"@)
    }

    open spec fn read_from(self, v: JsonValue) -> bool {
        &&& v.member_text("$class"@) == Some(self.class@)
        &&& v.member_text("name"@) == Some(self.name@)
        &&& opt_array_field_read(self.decorators, v, "decorators"@)
        &&& opt_field_read(self.location, v, "location"@)
        &&& v.member_bool("isAbstract"@) == Some(self.is_abstract)
        &&& opt_field_read(self.identified, v, "identified"@)
        &&& opt_field_read(self.super_type, v, "superType"@)
    }

    open spec fn decode_error(v: JsonValue) -> Seq<char> {
        if !NamedBody::accepts(v) {
            NamedBody::decode_error(v)
        } else {
            or_else(bool_step(v, "isAbstract"@),
            or_else(opt_field_step::<Identified>(v, "identified"@),
            or_else(opt_field_step::<TypeIdentifier>(v, "superType"@),
            or_else(array_step::<PropertyBody>(v, "properties"@),
            Seq::empty()))))
        }
    }

    fn decode(v: &JsonValue) -> (r: Result<ClassBody, String>) {
        let body = match NamedBody::decode(v) {
            Ok(x) => x,
            Err(m) => return Err(m),
        };
        let is_abstract = match required_bool(v, "isAbstract") {
            Ok(x) => x,
            Err(m) => return Err(m),
        };
        let identified = match decode_opt_field::<Identified>(v, "identified") {
            Ok(x) => x,
            Err(m) => return Err(m),
        };
        let super_type = match decode_opt_field::<TypeIdentifier>(v, "superType") {
            Ok(x) => x,
            Err(m) => return Err(m),
        };
        let _shapes = match decode_array_field::<PropertyBody>(v, "properties") {
            Ok(x) => x,
            Err(m) => return Err(m),
        };
        Ok(ClassBody {
            class: body.class,
            name: body.name,
            decorators: body.decorators,
            location: body.location,
            is_abstract,
            identified,
            super_type,
        })
    }
}

/// The members of an enum declaration other than its values. Its JSON form
/// needs a `properties` array of enum values.
#[derive(Debug, Clone)]
pub struct EnumBody {
    pub class: String,
    pub name: String,
    pub decorators: Option<Vec<Decorator>>,
    pub location: Option<Range>,
}

impl Decodable for EnumBody {
    open spec fn accepts(v: JsonValue) -> bool {
        &&& NamedBody::accepts(v)
        &&& array_field_accepts::<EnumPropertyBody>(v, "properties"@)
    }

    open spec fn read_from(self, v: JsonValue) -> bool {
        &&& v.member_text("$class"@) == Some(self.class@)
        &&& v.member_text("name"@) == Some(self.name@)
        &&& opt_array_field_read(self.decorators, v, "decorators"@)
        &&& opt_field_read(self.location, v, "location"@)
    }

    open spec fn decode_error(v: JsonValue) -> Seq<char> {
        if !NamedBody::accepts(v) {
            NamedBody::decode_error(v)
        } else {
            or_else(array_step::<EnumPropertyBody>(v, "properties"@), Seq::empty())
        }
    }

    fn decode(v: &JsonValue) -> (r: Result<EnumBody, String>) {
        let body = match NamedBody::decode(v) {
            Ok(x) => x,
            Err(m) => return Err(m),
        };
        let _shapes = match decode_array_field::<EnumPropertyBody>(v, "properties") {
            Ok(x) => x,
            Err(m) => return Err(m),
        };
        Ok(EnumBody { class: body.class, name: body.name, decorators: body.decorators, location: body.location })
    }
}

} // verus!
