//! High-level introspection queries over a model manager.
use vstd::prelude::*;
use crate::error::{ConcertoError, ErrorView};
use crate::model_manager::{ModelManager, all_class_decls};
use super::declarations::{ClassDeclaration, Declaration};
use super::validation::lookup_type;

verus! {

/// Provides high-level introspection queries over a [`ModelManager`].
pub struct Introspector<'a> {
    model_manager: &'a ModelManager,
}

impl<'a> Introspector<'a> {
    pub closed spec fn manager(&self) -> ModelManager {
        *self.model_manager
    }

    pub fn new(model_manager: &'a ModelManager) -> (r: Self)
        ensures
            r.manager() == *model_manager,
    {
        Introspector { model_manager }
    }

    /// Returns all class declarations across all loaded models.
    pub fn class_declarations(&self) -> (r: Vec<&ClassDeclaration>)
        ensures
            r@.map_values(|c: &ClassDeclaration| *c) == all_class_decls(self.manager().files()),
    {
        self.model_manager.class_declarations()
    }

    /// Look up a class declaration by fully-qualified name.
    pub fn get_class_declaration(&self, fqn: &str) -> (r: Result<&ClassDeclaration, ConcertoError>)
        ensures
            match r {
                Ok(c) => lookup_type(self.manager().files(), fqn@) == Some(Declaration::Class(*c)),
                Err(e) => !(lookup_type(self.manager().files(), fqn@) matches Some(Declaration::Class(_)))
                    && e@ == (ErrorView::TypeNotFound { name: fqn@ }),
            },
    {
        self.model_manager.get_class_declaration(fqn)
    }

    pub fn model_manager(&self) -> (r: &ModelManager)
        ensures
            *r == self.manager(),
    {
        self.model_manager
    }
}

} // verus!
