//! Imports of a model file.
use vstd::prelude::*;
use crate::error::{ConcertoError, illegal, illegal_model};
use crate::json::JsonValue;
use crate::metamodel::{Decodable, ImportAll, ImportType, ImportTypes};
use crate::model_util::{fully_qualified_name, get_short_name, qualified};
use crate::text::{concat2, str_eq};
use super::properties::{class_of, class_text, invalid, invalid_error, kind_of};

verus! {

/// Sum type for imports.
#[derive(Debug, Clone)]
pub enum ImportDecl {
    All(ImportAll),
    Type(ImportType),
    Types(ImportTypes),
}

/// The JSON form of an import.
pub open spec fn import_accepts(v: JsonValue) -> bool {
    let k = kind_of(v);
    if k == "ImportAll"@ {
        ImportAll::accepts(v)
    } else if k == "ImportType"@ {
        ImportType::accepts(v)
    } else if k == "ImportTypes"@ {
        ImportTypes::accepts(v)
    } else {
        false
    }
}

/// The error for a JSON value that is not the form of an import.
pub open spec fn import_error(v: JsonValue, e: crate::error::ErrorView) -> bool {
    let k = kind_of(v);
    if k == "ImportAll"@ {
        e == invalid_error(k, ImportAll::decode_error(v))
    } else if k == "ImportType"@ {
        e == invalid_error(k, ImportType::decode_error(v))
    } else if k == "ImportTypes"@ {
        e == invalid_error(k, ImportTypes::decode_error(v))
    } else {
        e == illegal("Unknown import type: "@ + class_text(v), None)
    }
}

impl ImportDecl {
    /// `self` is the import read from `v`.
    pub open spec fn read_from(self, v: JsonValue) -> bool {
        let k = kind_of(v);
        match self {
            ImportDecl::All(i) => k == "ImportAll"@ && i.read_from(v),
            ImportDecl::Type(i) => k == "ImportType"@ && i.read_from(v),
            ImportDecl::Types(i) => k == "ImportTypes"@ && i.read_from(v),
        }
    }

    pub open spec fn spec_namespace(self) -> Seq<char> {
        match self {
            ImportDecl::All(i) => i.namespace@,
            ImportDecl::Type(i) => i.namespace@,
            ImportDecl::Types(i) => i.namespace@,
        }
    }

    pub open spec fn spec_uri(self) -> Option<Seq<char>> {
        match self {
            ImportDecl::All(i) => crate::error::opt_text(i.uri),
            ImportDecl::Type(i) => crate::error::opt_text(i.uri),
            ImportDecl::Types(i) => crate::error::opt_text(i.uri),
        }
    }

    /// The fully-qualified names that the import names.
    pub open spec fn spec_fully_qualified_names(self) -> Seq<Seq<char>> {
        match self {
            ImportDecl::All(_) => Seq::empty(),
            ImportDecl::Type(i) => seq![qualified(i.namespace@, i.name@)],
            ImportDecl::Types(i) => i.types@.map_values(|t: String| qualified(i.namespace@, t@)),
        }
    }

    pub fn namespace(&self) -> (r: &str)
        ensures
            r@ == self.spec_namespace(),
    {
        match self {
            ImportDecl::All(i) => i.namespace.as_str(),
            ImportDecl::Type(i) => i.namespace.as_str(),
            ImportDecl::Types(i) => i.namespace.as_str(),
        }
    }

    pub fn uri(&self) -> (r: Option<&str>)
        ensures
            match r {
                Some(s) => self.spec_uri() == Some(s@),
                None => self.spec_uri() is None,
            },
    {
        let u = match self {
            ImportDecl::All(i) => &i.uri,
            ImportDecl::Type(i) => &i.uri,
            ImportDecl::Types(i) => &i.uri,
        };
        match u {
            Some(s) => Some(s.as_str()),
            None => None,
        }
    }

    /// Returns the fully-qualified names introduced by this import. An import
    /// of a whole namespace names no type by itself.
    pub fn fully_qualified_names(&self) -> (r: Vec<String>)
        ensures
            r@.map_values(|s: String| s@) == self.spec_fully_qualified_names(),
    {
        match self {
            ImportDecl::All(_) => {
                let r: Vec<String> = Vec::new();
                assert(r@.map_values(|s: String| s@) =~= self.spec_fully_qualified_names());
                r
            },
            ImportDecl::Type(i) => {
                let mut r: Vec<String> = Vec::new();
                r.push(fully_qualified_name(i.namespace.as_str(), i.name.as_str()));
                assert(r@.map_values(|s: String| s@) =~= self.spec_fully_qualified_names());
                r
            },
            ImportDecl::Types(i) => {
                let mut r: Vec<String> = Vec::new();
                let mut k: usize = 0;
                while k < i.types.len()
                    invariant
                        k <= i.types@.len(),
                        r@.len() == k,
                        forall|j: int| 0 <= j < k ==> #[trigger] r@[j]@ == qualified(i.namespace@, i.types@[j]@),
                    decreases i.types@.len() - k,
                {
                    r.push(fully_qualified_name(i.namespace.as_str(), i.types[k].as_str()));
                    k = k + 1;
                }
                assert(r@.map_values(|s: String| s@) =~= self.spec_fully_qualified_names());
                r
            },
        }
    }

    /// Construct an [`ImportDecl`] from its JSON form by inspecting `$class`.
    pub fn try_from(value: &JsonValue) -> (r: Result<ImportDecl, ConcertoError>)
        ensures
            r is Ok <==> import_accepts(*value),
            r matches Ok(i) ==> i.read_from(*value),
            r matches Err(e) ==> import_error(*value, e@),
    {
        let class = class_of(value);
        let kind = get_short_name(class);
        if str_eq(kind, "ImportAll") {
            match ImportAll::decode(value) {
                Ok(i) => Ok(ImportDecl::All(i)),
                Err(e) => Err(invalid(kind, e)),
            }
        } else if str_eq(kind, "ImportType") {
            match ImportType::decode(value) {
                Ok(i) => Ok(ImportDecl::Type(i)),
                Err(e) => Err(invalid(kind, e)),
            }
        } else if str_eq(kind, "ImportTypes") {
            match ImportTypes::decode(value) {
                Ok(i) => Ok(ImportDecl::Types(i)),
                Err(e) => Err(invalid(kind, e)),
            }
        } else {
            proof { reveal_strlit("Unknown import type: "); }
            Err(illegal_model(concat2("Unknown import type: ", class), None))
        }
    }
}

} // verus!
