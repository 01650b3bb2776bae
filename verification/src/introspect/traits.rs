//! The capabilities shared by declarations.
use vstd::prelude::*;
use crate::error::ConcertoError;
use crate::metamodel::{Decorator, Range, TypeIdentifier};
use crate::text::{contains_seq, str_eq};
use super::properties::PropertyDecl;
use super::validation::ValidationContext;

verus! {

/// The decorators held in an optional list.
pub open spec fn decorators_of(o: Option<Vec<Decorator>>) -> Seq<Decorator> {
    match o {
        Some(v) => v@,
        None => Seq::empty(),
    }
}

/// Position of the first decorator named `name`, or -1.
pub open spec fn first_decorator_index(ds: Seq<Decorator>, name: Seq<char>) -> int
    decreases ds.len(),
{
    if ds.len() == 0 {
        -1
    } else if ds[0].name@ == name {
        0
    } else {
        let r = first_decorator_index(ds.drop_first(), name);
        if r < 0 { -1 } else { r + 1 }
    }
}

proof fn lemma_first_decorator_index(ds: Seq<Decorator>, name: Seq<char>)
    ensures
        -1 <= first_decorator_index(ds, name) < ds.len(),
        first_decorator_index(ds, name) >= 0 ==> ds[first_decorator_index(ds, name)].name@ == name,
        forall|j: int| 0 <= j < ds.len() && (first_decorator_index(ds, name) < 0 || j < first_decorator_index(ds, name))
            ==> #[trigger] ds[j].name@ != name,
    decreases ds.len(),
{
    if ds.len() > 0 && ds[0].name@ != name {
        lemma_first_decorator_index(ds.drop_first(), name);
        assert forall|j: int| 0 <= j < ds.len() && (first_decorator_index(ds, name) < 0 || j < first_decorator_index(ds, name))
            implies #[trigger] ds[j].name@ != name by {
            if j > 0 {
                assert(ds[j] == ds.drop_first()[j - 1]);
            }
        }
    }
}

/// Provides access to decorators.
pub trait Decorated {
    spec fn decorator_list(&self) -> Seq<Decorator>;

    fn decorators(&self) -> (r: &[Decorator])
        ensures
            r@ == self.decorator_list();

    /// The first decorator named `name`.
    fn decorator(&self, name: &str) -> (r: Option<&Decorator>)
        ensures
            match r {
                Some(d) => first_decorator_index(self.decorator_list(), name@) >= 0
                    && *d == self.decorator_list()[first_decorator_index(self.decorator_list(), name@)],
                None => first_decorator_index(self.decorator_list(), name@) < 0,
            },
    {
        let ds = self.decorators();
        let mut i: usize = 0;
        proof { lemma_first_decorator_index(ds@, name@); }
        while i < ds.len()
            invariant
                ds@ == self.decorator_list(),
                i <= ds@.len(),
                forall|j: int| 0 <= j < i ==> #[trigger] ds@[j].name@ != name@,
                -1 <= first_decorator_index(ds@, name@) < ds@.len(),
                first_decorator_index(ds@, name@) >= 0 ==> ds@[first_decorator_index(ds@, name@)].name@ == name@,
                forall|j: int| 0 <= j < ds@.len() && (first_decorator_index(ds@, name@) < 0 || j < first_decorator_index(ds@, name@))
                    ==> #[trigger] ds@[j].name@ != name@,
            decreases ds@.len() - i,
        {
            if str_eq(ds[i].name.as_str(), name) {
                assert(ds@[i as int].name@ == name@);
                return Some(&ds[i]);
            }
            i = i + 1;
        }
        None
    }
}

/// Something that has a name and an optional source location.
pub trait Named: Decorated {
    spec fn spec_name(&self) -> Seq<char>;

    spec fn spec_location(&self) -> Option<Range>;

    fn name(&self) -> (r: &str)
        ensures
            r@ == self.spec_name();

    fn location(&self) -> (r: Option<&Range>)
        ensures
            match r {
                Some(l) => self.spec_location() == Some(*l),
                None => self.spec_location() is None,
            };
}

/// A declaration that owns properties and may extend a super-type.
pub trait HasProperties: Named {
    spec fn property_list(&self) -> Seq<PropertyDecl>;

    spec fn super_type_ref(&self) -> Option<TypeIdentifier>;

    spec fn abstract_flag(&self) -> bool;

    fn own_properties(&self) -> (r: &[PropertyDecl])
        ensures
            r@ == self.property_list();

    fn super_type(&self) -> (r: Option<&TypeIdentifier>)
        ensures
            match r {
                Some(t) => self.super_type_ref() == Some(*t),
                None => self.super_type_ref() is None,
            };

    fn is_abstract(&self) -> (r: bool)
        ensures
            r == self.abstract_flag();
}

/// The identity clause names `IdentifiedBy`, the explicit form of identity.
pub open spec fn names_identified_by(class: Seq<char>) -> bool {
    contains_seq(class, "IdentifiedBy"@)
}

/// A declaration that may carry an identity field. The identity is read from the
/// `$class` of the declaration's `identified` member: `IdentifiedBy` in it means
/// an explicit identity, anything else the system identity `$identifier`.
pub trait Identifiable: HasProperties {
    /// The `$class` of the identity clause, when there is one.
    spec fn identity_class(&self) -> Option<Seq<char>>;

    fn is_identified(&self) -> (r: bool)
        ensures
            r == self.identity_class() is Some;

    fn is_system_identified(&self) -> (r: bool)
        ensures
            r == (self.identity_class() matches Some(c) && !names_identified_by(c));

    fn is_explicitly_identified(&self) -> (r: bool)
        ensures
            r == (self.identity_class() matches Some(c) && names_identified_by(c));

    fn identifier_field_name(&self) -> (r: Option<&str>)
        ensures
            match r {
                Some(s) => (self.identity_class() matches Some(c) && !names_identified_by(c)) && s@ == "$identifier"@,
                None => !(self.identity_class() matches Some(c) && !names_identified_by(c)),
            };
}

/// Types that can be validated against a [`ValidationContext`].
pub trait Validate {
    fn validate(&self, ctx: &ValidationContext<'_>) -> Result<(), ConcertoError>;
}

} // verus!
