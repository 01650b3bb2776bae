//! Validation of instances against a loaded model.

pub mod object_validator;
