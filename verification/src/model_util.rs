//! Helpers on fully-qualified names, namespaces and identifiers.
use vstd::prelude::*;
use vstd::string::*;
use crate::error::{ConcertoError, ErrorView, illegal, illegal_model};
use crate::text::{chars_of, concat2, concat3, last_index_of, first_index_of, count_of, str_eq,
    rfind_char, lemma_last_index_of_bounds, lemma_first_index_of_bounds, lemma_last_index_of_is};

verus! {

/// The part of `fqn` after its last dot, or all of it when it has no dot.
pub open spec fn short_name_of(fqn: Seq<char>) -> Seq<char> {
    fqn.subrange(last_index_of(fqn, '.') + 1, fqn.len() as int)
}

/// The part of `fqn` before its last dot, or the empty text when it has no dot.
pub open spec fn namespace_of(fqn: Seq<char>) -> Seq<char> {
    if last_index_of(fqn, '.') < 0 {
        Seq::empty()
    } else {
        fqn.subrange(0, last_index_of(fqn, '.'))
    }
}

/// `namespace.simple_name`, or `simple_name` alone for an empty namespace.
pub open spec fn qualified(namespace: Seq<char>, simple_name: Seq<char>) -> Seq<char> {
    if namespace.len() == 0 {
        simple_name
    } else {
        namespace + seq!['.'] + simple_name
    }
}

/// Returns everything after the last dot of the fully-qualified name.
pub fn get_short_name(fqn: &str) -> (r: &str)
    ensures
        r@ == short_name_of(fqn@),
{
    proof { lemma_last_index_of_bounds(fqn@, '.'); }
    let n = fqn.unicode_len();
    match rfind_char(fqn, '.') {
        Some(idx) => fqn.substring_char(idx + 1, n),
        None => fqn.substring_char(0, n),
    }
}

/// Returns the namespace portion of a fully-qualified name (everything
/// before the last dot). Returns an empty string if there is no dot.
pub fn get_namespace(fqn: &str) -> (r: &str)
    ensures
        r@ == namespace_of(fqn@),
{
    proof { lemma_last_index_of_bounds(fqn@, '.'); }
    match rfind_char(fqn, '.') {
        Some(idx) => fqn.substring_char(0, idx),
        None => {
            let e = "";
            proof { reveal_strlit(""); }
            assert(e@ =~= Seq::<char>::empty());
            e
        },
    }
}

/// Builds a fully-qualified name from a namespace and a short type name.
pub fn fully_qualified_name(namespace: &str, simple_name: &str) -> (r: String)
    ensures
        r@ == qualified(namespace@, simple_name@),
{
    if namespace.unicode_len() == 0 {
        String::from_str(simple_name)
    } else {
        proof { reveal_strlit("."); }
        concat3(namespace, ".", simple_name)
    }
}

/// Result of parsing a potentially-versioned namespace string.
#[derive(Debug, Clone, PartialEq, Eq)]
pub struct ParsedNamespace {
    /// The namespace name without the version.
    pub name: String,
    /// The version string (e.g. `"1.0.0"`), if present.
    pub version: Option<String>,
}

/// What `parse_namespace` gives for `ns`: the name and the version, or the error
/// for a text with two or more `@`.
pub open spec fn parsed_namespace(ns: Seq<char>) -> Result<(Seq<char>, Option<Seq<char>>), ErrorView> {
    if count_of(ns, '@') == 0 {
        Ok((ns, None))
    } else if count_of(ns, '@') == 1 {
        let at = first_index_of(ns, '@');
        Ok((ns.subrange(0, at), Some(ns.subrange(at + 1, ns.len() as int))))
    } else {
        Err(illegal("Invalid namespace "@ + ns, None))
    }
}

pub proof fn lemma_count_of_zero(s: Seq<char>, c: char)
    ensures
        (count_of(s, c) == 0) == (forall|j: int| 0 <= j < s.len() ==> s[j] != c),
    decreases s.len(),
{
    if s.len() > 0 {
        lemma_count_of_zero(s.drop_last(), c);
        assert forall|j: int| 0 <= j < s.len() - 1 implies s.drop_last()[j] == s[j] by {}
    }
}

/// The count of `c` in the first `i` characters, as a loop counts it.
proof fn lemma_count_of_prefix(s: Seq<char>, c: char, i: int)
    requires
        0 <= i < s.len(),
    ensures
        count_of(s.subrange(0, i + 1), c) == count_of(s.subrange(0, i), c) + if s[i] == c { 1nat } else { 0nat },
{
    assert(s.subrange(0, i + 1).drop_last() =~= s.subrange(0, i));
}

/// Parses a namespace that may contain a `@version` suffix.
pub fn parse_namespace(ns: &str) -> (r: Result<ParsedNamespace, ConcertoError>)
    ensures
        match (r, parsed_namespace(ns@)) {
            (Ok(p), Ok((name, version))) => p.name@ == name && crate::error::opt_text(p.version) == version,
            (Err(e), Err(ev)) => e@ == ev,
            _ => false,
        },
{
    let v = chars_of(ns);
    let n = v.len();
    let mut count: usize = 0;
    let mut first: usize = 0;
    let mut i: usize = 0;
    proof { lemma_first_index_of_bounds(ns@, '@'); }
    while i < n
        invariant
            v@ == ns@,
            n == v@.len(),
            i <= n,
            count <= i,
            count == count_of(ns@.subrange(0, i as int), '@'),
            count == 0 ==> forall|j: int| 0 <= j < i ==> ns@[j] != '@',
            count > 0 ==> first < i && ns@[first as int] == '@' && forall|j: int| 0 <= j < first ==> ns@[j] != '@',
        decreases n - i,
    {
        proof { lemma_count_of_prefix(ns@, '@', i as int); }
        if v[i] == '@' {
            if count == 0 {
                first = i;
            }
            count = count + 1;
        }
        i = i + 1;
    }
    assert(ns@.subrange(0, n as int) =~= ns@);
    proof {
        if count > 0 {
            lemma_first_index_is(ns@, '@', first as int);
        }
    }
    if count == 0 {
        Ok(ParsedNamespace { name: String::from_str(ns), version: None })
    } else if count == 1 {
        let name = String::from_str(ns.substring_char(0, first));
        let version = String::from_str(ns.substring_char(first + 1, n));
        Ok(ParsedNamespace { name, version: Some(version) })
    } else {
        proof { reveal_strlit("Invalid namespace "); }
        Err(illegal_model(concat2("Invalid namespace ", ns), None))
    }
}

proof fn lemma_first_index_is(s: Seq<char>, c: char, k: int)
    requires
        0 <= k < s.len(),
        s[k] == c,
        forall|j: int| 0 <= j < k ==> s[j] != c,
    ensures
        first_index_of(s, c) == k,
    decreases s.len(),
{
    if k > 0 {
        assert forall|j: int| 0 <= j < k - 1 implies s.drop_first()[j] != c by {
            assert(s.drop_first()[j] == s[j + 1]);
        }
        lemma_first_index_is(s.drop_first(), c, k - 1);
    }
}

/// The six primitive types of Concerto.
pub open spec fn is_primitive_name(simple_name: Seq<char>) -> bool {
    simple_name == "Boolean"@ || simple_name == "String"@ || simple_name == "DateTime"@
        || simple_name == "Double"@ || simple_name == "Integer"@ || simple_name == "Long"@
}

/// The system properties that are private to the runtime.
pub open spec fn is_private_reserved_name(name: Seq<char>) -> bool {
    name == "$classDeclaration"@ || name == "$namespace"@ || name == "$type"@
        || name == "$modelManager"@ || name == "$validator"@ || name == "$identifierFieldName"@
        || name == "$imports"@ || name == "$superTypes"@ || name == "$id"@
}

/// All reserved system properties.
pub open spec fn is_reserved_name(name: Seq<char>) -> bool {
    name == "$class"@ || name == "$identifier"@ || name == "$timestamp"@ || is_private_reserved_name(name)
}

/// Returns `true` if `simple_name` is one of the Concerto primitive types.
pub fn is_primitive_type(simple_name: &str) -> (r: bool)
    ensures
        r == is_primitive_name(simple_name@),
{
    str_eq(simple_name, "Boolean") || str_eq(simple_name, "String") || str_eq(simple_name, "DateTime")
        || str_eq(simple_name, "Double") || str_eq(simple_name, "Integer") || str_eq(simple_name, "Long")
}

/// Returns `true` if `name` is a private (internal-only) system property.
pub fn is_private_system_property(name: &str) -> (r: bool)
    ensures
        r == is_private_reserved_name(name@),
{
    str_eq(name, "$classDeclaration") || str_eq(name, "$namespace") || str_eq(name, "$type")
        || str_eq(name, "$modelManager") || str_eq(name, "$validator")
        || str_eq(name, "$identifierFieldName") || str_eq(name, "$imports")
        || str_eq(name, "$superTypes") || str_eq(name, "$id")
}

/// Returns `true` if `name` is a reserved system property (e.g. `$class`).
pub fn is_system_property(name: &str) -> (r: bool)
    ensures
        r == is_reserved_name(name@),
{
    str_eq(name, "$class") || str_eq(name, "$identifier") || str_eq(name, "$timestamp")
        || is_private_system_property(name)
}

/// The Unicode identifier pattern of Concerto.
pub open spec fn identifier_pattern() -> Seq<char> {
    "^[\\p{Lu}\\p{Ll}\\p{Lt}\\p{Lm}\\p{Lo}\\p{Nl}$_][\\p{Lu}\\p{Ll}\\p{Lt}\\p{Lm}\\p{Lo}\\p{Nl}$_\\p{Mn}\\p{Mc}\\p{Nd}\\p{Pc}\\x{200C}\\x{200D}]*$"@
}

/// What the `regex` crate answers for `text` against `pattern`: `None` when
/// `regex::Regex::new` refuses the pattern, else `Regex::is_match` of the text.
pub uninterp spec fn regex_match_outcome(pattern: Seq<char>, text: Seq<char>) -> Option<bool>;

/// Compiles `pattern` with `regex::Regex::new` and tests `text` with
/// `Regex::is_match`. The contract only ties the outcome to the name above:
/// the Unicode classes of the pattern are left to the `regex` crate.
#[verifier::external_body]
fn regex_outcome(pattern: &str, text: &str) -> (r: Option<bool>)
    ensures
        r == regex_match_outcome(pattern@, text@),
{
    match regex::Regex::new(pattern) {
        Ok(re) => Some(re.is_match(text)),
        Err(_) => None,
    }
}

/// Returns `true` if `name` is a valid Concerto identifier.
pub fn is_valid_identifier(name: &str) -> (r: bool)
    ensures
        r == (regex_match_outcome(identifier_pattern(), name@) == Some(true)),
{
    let pattern = "^[\\p{Lu}\\p{Ll}\\p{Lt}\\p{Lm}\\p{Lo}\\p{Nl}$_][\\p{Lu}\\p{Ll}\\p{Lt}\\p{Lm}\\p{Lo}\\p{Nl}$_\\p{Mn}\\p{Mc}\\p{Nd}\\p{Pc}\\x{200C}\\x{200D}]*$";
    match regex_outcome(pattern, name) {
        Some(b) => b,
        None => false,
    }
}

/// What `remove_namespace_version` gives for `fqn`.
pub open spec fn without_namespace_version(fqn: Seq<char>) -> Seq<char> {
    if is_primitive_name(fqn) {
        fqn
    } else {
        match parsed_namespace(namespace_of(fqn)) {
            Ok((name, _)) => qualified(name, short_name_of(fqn)),
            Err(_) => fqn,
        }
    }
}

/// Strips the `@version` part from the namespace portion of a
/// fully-qualified type name. Primitive types are returned unchanged.
pub fn remove_namespace_version(fqn: &str) -> (r: String)
    ensures
        r@ == without_namespace_version(fqn@),
{
    if is_primitive_type(fqn) {
        return String::from_str(fqn);
    }
    let ns = get_namespace(fqn);
    let parsed = match parse_namespace(ns) {
        Ok(p) => p,
        Err(_) => return String::from_str(fqn),
    };
    let simple_name = get_short_name(fqn);
    fully_qualified_name(parsed.name.as_str(), simple_name)
}

/// A fully-qualified name splits back into its namespace and short name, for a
/// short name without a dot.
pub proof fn law_split_of_qualified(namespace: Seq<char>, simple_name: Seq<char>)
    requires
        forall|j: int| 0 <= j < simple_name.len() ==> simple_name[j] != '.',
    ensures
        namespace_of(qualified(namespace, simple_name)) == namespace,
        short_name_of(qualified(namespace, simple_name)) == simple_name,
{
    let q = qualified(namespace, simple_name);
    if namespace.len() == 0 {
        lemma_last_index_of_is(q, '.', -1);
        assert(q.subrange(0, q.len() as int) == q);
    } else {
        let k = namespace.len() as int;
        assert(q[k] == '.');
        assert forall|j: int| k < j < q.len() implies q[j] != '.' by {
            assert(q[j] == simple_name[j - k - 1]);
        }
        lemma_last_index_of_is(q, '.', k);
        assert(q.subrange(0, k) == namespace);
        assert(q.subrange(k + 1, q.len() as int) == simple_name);
    }
}

/// Joining the namespace and the short name of a name gives the name back,
/// unless its only separating dot is its first character.
pub proof fn law_qualified_of_split(fqn: Seq<char>)
    requires
        last_index_of(fqn, '.') != 0,
    ensures
        qualified(namespace_of(fqn), short_name_of(fqn)) == fqn,
{
    lemma_last_index_of_bounds(fqn, '.');
    let k = last_index_of(fqn, '.');
    if k < 0 {
        assert(fqn.subrange(0, fqn.len() as int) == fqn);
    } else {
        assert(fqn.subrange(0, k) + seq!['.'] + fqn.subrange(k + 1, fqn.len() as int) == fqn);
    }
}

/// A namespace is its name followed, when it has one, by `@` and its version.
pub proof fn law_parse_namespace_round_trip(ns: Seq<char>)
    ensures
        match parsed_namespace(ns) {
            Ok((name, Some(version))) => ns == name + "@"@ + version,
            Ok((name, None)) => ns == name,
            Err(_) => count_of(ns, '@') >= 2,
        },
{
    if count_of(ns, '@') == 1 {
        lemma_count_of_zero(ns, '@');
        lemma_first_index_of_bounds(ns, '@');
        let at = first_index_of(ns, '@');
        reveal_strlit("@");
        assert(ns.subrange(0, at) + "@"@ + ns.subrange(at + 1, ns.len() as int) == ns);
    }
}

/// The name part of a namespace holds no `@`.
proof fn lemma_namespace_name_unversioned(ns: Seq<char>)
    requires
        parsed_namespace(ns) is Ok,
    ensures
        count_of(parsed_namespace(ns)->Ok_0.0, '@') == 0,
{
    if count_of(ns, '@') == 1 {
        lemma_count_of_zero(ns, '@');
        lemma_first_index_of_bounds(ns, '@');
        let at = first_index_of(ns, '@');
        let name = ns.subrange(0, at);
        assert forall|j: int| 0 <= j < name.len() implies name[j] != '@' by {
            assert(name[j] == ns[j]);
        }
        lemma_count_of_zero(name, '@');
    }
}

/// Private system properties are system properties.
pub proof fn law_private_is_system(name: Seq<char>)
    requires
        is_private_reserved_name(name),
    ensures
        is_reserved_name(name),
{
}

/// Removing the namespace version twice removes no more than once.
pub proof fn law_remove_version_idempotent(fqn: Seq<char>)
    ensures
        without_namespace_version(without_namespace_version(fqn)) == without_namespace_version(fqn),
{
    let r = without_namespace_version(fqn);
    if !is_primitive_name(fqn) && parsed_namespace(namespace_of(fqn)) is Ok {
        let name = parsed_namespace(namespace_of(fqn))->Ok_0.0;
        let simple = short_name_of(fqn);
        lemma_last_index_of_bounds(fqn, '.');
        assert forall|j: int| 0 <= j < simple.len() implies simple[j] != '.' by {
            assert(simple[j] == fqn[last_index_of(fqn, '.') + 1 + j]);
        }
        law_split_of_qualified(name, simple);
        lemma_namespace_name_unversioned(namespace_of(fqn));
        assert(parsed_namespace(name) == Ok::<(Seq<char>, Option<Seq<char>>), ErrorView>((name, None)));
    }
}

} // verus!
