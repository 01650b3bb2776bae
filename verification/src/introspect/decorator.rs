//! A decorator on a class, a property or a model.
use vstd::prelude::*;
use crate::metamodel::{self as mm, DecoratorLiteral, Range};

verus! {

/// [Decorator] encapsulates a decorator (annotation) on a Class, Property, or a Model.
#[derive(Debug, Clone)]
pub struct Decorator(pub mm::Decorator);

impl Decorator {
    pub fn name(&self) -> (r: &str)
        ensures
            r@ == self.0.name@,
    {
        self.0.name.as_str()
    }

    /// The arguments of the decorator; none when it has no `arguments` member.
    pub fn arguments(&self) -> (r: &[DecoratorLiteral])
        ensures
            match self.0.arguments {
                Some(v) => r@ == v@,
                None => r@.len() == 0,
            },
    {
        match &self.0.arguments {
            Some(v) => v.as_slice(),
            None => {
                let e: &[DecoratorLiteral] = &[];
                e
            },
        }
    }

    pub fn location(&self) -> (r: Option<&Range>)
        ensures
            match r {
                Some(l) => self.0.location == Some(*l),
                None => self.0.location is None,
            },
    {
        self.0.location.as_ref()
    }
}

impl From<mm::Decorator> for Decorator {
    fn from(d: mm::Decorator) -> (r: Self) {
        Decorator(d)
    }
}

impl vstd::std_specs::convert::FromSpecImpl<mm::Decorator> for Decorator {
    open spec fn obeys_from_spec() -> bool {
        true
    }

    open spec fn from_spec(d: mm::Decorator) -> Decorator {
        Decorator(d)
    }
}

} // verus!
