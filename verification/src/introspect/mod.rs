//! Introspection of Concerto models: declarations, properties, imports and
//! model files, and the validation of a set of model files.

pub mod traits;
pub mod decorator;
pub mod properties;
pub mod imports;
pub mod map_types;
pub mod declarations;
pub mod model_file;
pub mod validation;
pub mod introspector;
