//! Concerto model management, model validation and instance validation.

pub mod text;
pub mod json;
pub mod error;
pub mod metamodel;
pub mod model_util;
pub mod introspect;
pub mod rootmodel;
pub mod model_manager;
pub mod validation;
