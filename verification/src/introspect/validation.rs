//! Checks that a set of model files is well formed: super types exist, are
//! classes and do not form a cycle, property names are not repeated along a
//! class's ancestry, and referenced types exist.
use vstd::prelude::*;
use crate::error::{ConcertoError, ErrorView, illegal, illegal_model, opt_text};
use crate::metamodel::TypeIdentifier;
use crate::model_util::{fully_qualified_name, get_namespace, get_short_name, is_primitive_name,
    is_primitive_type, namespace_of, qualified, short_name_of};
use crate::text::{concat3, concat5, owned, str_eq};
use super::declarations::{ClassDeclaration, Declaration, MapDeclaration, ScalarDeclaration};
use super::model_file::{ModelFile, ModelFileView, last_named, lemma_last_named, resolve_short_name};
use super::properties::PropertyDecl;
use super::traits::{HasProperties, Identifiable, Named};

verus! {

/// Position of the first file whose namespace is `ns`, or -1.
pub open spec fn file_index(files: Seq<ModelFile>, ns: Seq<char>) -> int
    decreases files.len(),
{
    if files.len() == 0 {
        -1
    } else {
        let k = file_index(files.drop_last(), ns);
        if k >= 0 {
            k
        } else if files.last()@.namespace == ns {
            files.len() - 1
        } else {
            -1
        }
    }
}

pub proof fn lemma_file_index(files: Seq<ModelFile>, ns: Seq<char>)
    ensures
        -1 <= file_index(files, ns) < files.len(),
        file_index(files, ns) >= 0 ==> files[file_index(files, ns)]@.namespace == ns,
        forall|j: int| 0 <= j < files.len() && (j < file_index(files, ns) || file_index(files, ns) < 0)
            ==> #[trigger] files[j]@.namespace != ns,
    decreases files.len(),
{
    if files.len() > 0 {
        lemma_file_index(files.drop_last(), ns);
        assert forall|j: int| 0 <= j < files.len() - 1 implies #[trigger] files[j] == files.drop_last()[j] by {}
    }
}

/// The declaration that a fully-qualified name denotes: the last declaration of
/// that short name in the first file of that namespace.
pub open spec fn lookup_type(files: Seq<ModelFile>, fqn: Seq<char>) -> Option<Declaration> {
    let i = file_index(files, namespace_of(fqn));
    if i < 0 {
        None
    } else {
        let ds = files[i]@.declarations;
        let k = last_named(ds, short_name_of(fqn));
        if k < 0 { None } else { Some(ds[k]) }
    }
}

/// The class declaration that a fully-qualified name denotes, if it denotes one.
pub open spec fn lookup_class(files: Seq<ModelFile>, fqn: Seq<char>) -> Option<ClassDeclaration> {
    match lookup_type(files, fqn) {
        Some(Declaration::Class(c)) => Some(c),
        _ => None,
    }
}

/// The fully-qualified name that a type identifier stands for in model file `m`:
/// its resolved name, else its namespace and name, else the name resolved in `m`.
pub open spec fn resolve_type_id(t: TypeIdentifier, m: ModelFileView) -> Result<Seq<char>, ErrorView> {
    match t.resolved_name {
        Some(r) => Ok(r@),
        None => match t.namespace {
            Some(ns) => Ok(qualified(ns@, t.name@)),
            None => resolve_short_name(m, t.name@),
        },
    }
}

/// Like `resolve_type_id`, but a name that `m` cannot resolve is taken to be in
/// `m`'s namespace.
pub open spec fn resolve_or_guess(t: TypeIdentifier, m: ModelFileView) -> Seq<char> {
    match resolve_type_id(t, m) {
        Ok(f) => f,
        Err(_) => qualified(m.namespace, t.name@),
    }
}

/// The declarations of all files, file after file.
pub open spec fn all_decls(files: Seq<ModelFile>) -> Seq<Declaration>
    decreases files.len(),
{
    if files.len() == 0 {
        Seq::empty()
    } else {
        all_decls(files.drop_last()) + files.last()@.declarations
    }
}

pub proof fn lemma_all_decls_contains(files: Seq<ModelFile>, i: int, k: int)
    requires
        0 <= i < files.len(),
        0 <= k < files[i]@.declarations.len(),
    ensures
        all_decls(files).contains(files[i]@.declarations[k]),
    decreases files.len(),
{
    let before = all_decls(files.drop_last());
    if i == files.len() - 1 {
        assert(all_decls(files)[before.len() + k] == files[i]@.declarations[k]);
    } else {
        assert(files.drop_last()[i] == files[i]);
        lemma_all_decls_contains(files.drop_last(), i, k);
        let x = choose|x: int| 0 <= x < before.len() && before[x] == files[i]@.declarations[k];
        assert(all_decls(files)[x] == before[x]);
    }
}

pub proof fn lemma_lookup_in_files(files: Seq<ModelFile>, fqn: Seq<char>)
    requires
        lookup_type(files, fqn) is Some,
    ensures
        all_decls(files).contains(lookup_type(files, fqn)->0),
{
    lemma_file_index(files, namespace_of(fqn));
    let i = file_index(files, namespace_of(fqn));
    lemma_last_named(files[i]@.declarations, short_name_of(fqn));
    lemma_all_decls_contains(files, i, last_named(files[i]@.declarations, short_name_of(fqn)));
}

/// The `k`-th class met walking up from `cd` through super types, each resolved
/// in model file `m` (a name `m` cannot resolve is taken to be in `m`'s namespace).
pub open spec fn walk_decl(files: Seq<ModelFile>, m: ModelFileView, cd: ClassDeclaration, k: nat) -> Option<ClassDeclaration>
    decreases k,
{
    if k == 0 {
        Some(cd)
    } else {
        match walk_decl(files, m, cd, (k - 1) as nat) {
            Some(d) => match d.super_type_ref() {
                Some(t) => lookup_class(files, resolve_or_guess(t, m)),
                None => None,
            },
            None => None,
        }
    }
}

/// The super-type name met at step `k` of that walk.
pub open spec fn walk_fqn(files: Seq<ModelFile>, m: ModelFileView, cd: ClassDeclaration, k: nat) -> Option<Seq<char>> {
    match walk_decl(files, m, cd, k) {
        Some(d) => match d.super_type_ref() {
            Some(t) => Some(resolve_or_guess(t, m)),
            None => None,
        },
        None => None,
    }
}

/// The name the walk starts from: `cd`'s name in `m`'s namespace.
pub open spec fn walk_start(m: ModelFileView, cd: ClassDeclaration) -> Seq<char> {
    qualified(m.namespace, cd.spec_name())
}

/// Step `k` of the walk meets a name met before, or the starting name.
pub open spec fn repeats_at(files: Seq<ModelFile>, m: ModelFileView, cd: ClassDeclaration, k: nat) -> bool {
    match walk_fqn(files, m, cd, k) {
        Some(f) => f == walk_start(m, cd)
            || exists|j: nat| j < k && #[trigger] walk_fqn(files, m, cd, j) == Some(f),
        None => false,
    }
}

/// The inheritance walk from `cd` comes back to a name it has met.
pub open spec fn has_cycle(files: Seq<ModelFile>, m: ModelFileView, cd: ClassDeclaration) -> bool {
    exists|k: nat| #[trigger] repeats_at(files, m, cd, k)
}

pub open spec fn cycle_message(start: Seq<char>) -> Seq<char> {
    "Circular inheritance detected for '"@ + start + "'"@
}

proof fn lemma_walk_ended(files: Seq<ModelFile>, m: ModelFileView, cd: ClassDeclaration, a: nat, b: nat)
    requires
        walk_decl(files, m, cd, a) is None,
        a <= b,
    ensures
        walk_decl(files, m, cd, b) is None,
    decreases b - a,
{
    if a < b {
        lemma_walk_ended(files, m, cd, a, (b - 1) as nat);
    }
}

proof fn lemma_walk_in_files(files: Seq<ModelFile>, m: ModelFileView, cd: ClassDeclaration, k: nat)
    requires
        k >= 1,
        walk_decl(files, m, cd, k) is Some,
    ensures
        all_decls(files).contains(Declaration::Class(walk_decl(files, m, cd, k)->0)),
{
    let d = walk_decl(files, m, cd, (k - 1) as nat)->0;
    let t = d.super_type_ref()->0;
    lemma_lookup_in_files(files, resolve_or_guess(t, m));
}

/// Without a repeat up to step `k`, the classes met at steps 1 to `k` are
/// distinct declarations of the files, so there are no more of them than there
/// are declarations.
proof fn lemma_walk_bounded(files: Seq<ModelFile>, m: ModelFileView, cd: ClassDeclaration, k: nat)
    requires
        walk_decl(files, m, cd, k + 1) is Some,
        forall|j: nat| j <= k ==> !#[trigger] repeats_at(files, m, cd, j),
    ensures
        k <= all_decls(files).len(),
{
    let all = all_decls(files);
    let s = Seq::new(k, |i: int| Declaration::Class(walk_decl(files, m, cd, (i + 1) as nat)->0));
    assert forall|n: nat| 1 <= n <= k implies #[trigger] walk_decl(files, m, cd, n) is Some
        && walk_fqn(files, m, cd, n) is Some by {
        if walk_decl(files, m, cd, n) is None {
            lemma_walk_ended(files, m, cd, n, k + 1);
        }
        if walk_fqn(files, m, cd, n) is None {
            assert(walk_decl(files, m, cd, n + 1) is None);
            lemma_walk_ended(files, m, cd, n + 1, k + 1);
        }
    }
    assert forall|i: int| 0 <= i < s.len() implies all.contains(#[trigger] s[i]) by {
        lemma_walk_in_files(files, m, cd, (i + 1) as nat);
    }
    assert forall|a: int, b: int| 0 <= a < s.len() && 0 <= b < s.len() && a != b
        implies #[trigger] s[a] != #[trigger] s[b] by {
        if s[a] == s[b] {
            let (lo, hi) = if a < b { (a, b) } else { (b, a) };
            assert(walk_decl(files, m, cd, (lo + 1) as nat) == walk_decl(files, m, cd, (hi + 1) as nat));
            let f = walk_fqn(files, m, cd, (lo + 1) as nat)->0;
            assert(walk_fqn(files, m, cd, (hi + 1) as nat) == Some(f));
            assert(repeats_at(files, m, cd, (hi + 1) as nat));
        }
    }
    s.unique_seq_to_set();
    all.lemma_cardinality_of_set();
    assert(s.to_set().subset_of(all.to_set()));
    vstd::seq_lib::seq_to_set_is_finite(all);
    vstd::set_lib::lemma_len_subset(s.to_set(), all.to_set());
}

/// The super class of `c` when its super type resolves in `m` (without guessing)
/// to a class declaration.
pub open spec fn strict_super(files: Seq<ModelFile>, m: ModelFileView, c: ClassDeclaration) -> Option<ClassDeclaration> {
    match c.super_type_ref() {
        Some(t) => match resolve_type_id(t, m) {
            Ok(f) => lookup_class(files, f),
            Err(_) => None,
        },
        None => None,
    }
}

/// The `k`-th ancestor of `c` along `strict_super`.
pub open spec fn strict_anc(files: Seq<ModelFile>, m: ModelFileView, c: ClassDeclaration, k: nat) -> Option<ClassDeclaration>
    decreases k,
{
    if k == 0 {
        Some(c)
    } else {
        match strict_super(files, m, c) {
            Some(s) => strict_anc(files, m, s, (k - 1) as nat),
            None => None,
        }
    }
}

/// The (class name, property name) pairs of `c`'s own properties.
pub open spec fn own_pairs(c: ClassDeclaration) -> Seq<(Seq<char>, Seq<char>)> {
    c.property_list().map_values(|p: PropertyDecl| (c.spec_name(), p.spec_name()))
}

/// The property pairs along `c`'s ancestry, at most `fuel` steps up: the
/// ancestors' first, the root-most first, then `c`'s own.
pub open spec fn chain_pairs(files: Seq<ModelFile>, m: ModelFileView, c: ClassDeclaration, fuel: nat) -> Seq<(Seq<char>, Seq<char>)>
    decreases fuel,
{
    if fuel == 0 {
        own_pairs(c)
    } else {
        match strict_super(files, m, c) {
            Some(s) => chain_pairs(files, m, s, (fuel - 1) as nat) + own_pairs(c),
            None => own_pairs(c),
        }
    }
}

/// The property pairs along `c`'s whole ancestry (meaningful when it ends).
pub open spec fn inherited_pairs(files: Seq<ModelFile>, m: ModelFileView, c: ClassDeclaration) -> Seq<(Seq<char>, Seq<char>)> {
    chain_pairs(files, m, c, choose|n: nat| #[trigger] strict_anc(files, m, c, n) is None)
}

/// The first pair whose property name occurs in an earlier pair.
pub open spec fn first_repeat(pairs: Seq<(Seq<char>, Seq<char>)>) -> Option<(Seq<char>, Seq<char>)>
    decreases pairs.len(),
{
    if pairs.len() == 0 {
        None
    } else {
        match first_repeat(pairs.drop_last()) {
            Some(x) => Some(x),
            None => if exists|i: int| 0 <= i < pairs.len() - 1 && (#[trigger] pairs[i]).1 == pairs.last().1 {
                Some(pairs.last())
            } else {
                None
            },
        }
    }
}

proof fn lemma_anc_step(files: Seq<ModelFile>, m: ModelFileView, c: ClassDeclaration, k: nat)
    ensures
        strict_anc(files, m, c, k + 1) == match strict_anc(files, m, c, k) {
            Some(d) => strict_super(files, m, d),
            None => None,
        },
    decreases k,
{
    match strict_super(files, m, c) {
        Some(s) => {
            if k > 0 {
                lemma_anc_step(files, m, s, (k - 1) as nat);
            } else {
                assert(strict_anc(files, m, s, 0) == Some(s));
            }
        },
        None => {},
    }
}

proof fn lemma_anc_ended(files: Seq<ModelFile>, m: ModelFileView, c: ClassDeclaration, a: nat, b: nat)
    requires
        strict_anc(files, m, c, a) is None,
        a <= b,
    ensures
        strict_anc(files, m, c, b) is None,
    decreases b - a,
{
    if a < b {
        lemma_anc_ended(files, m, c, a, (b - 1) as nat);
        lemma_anc_step(files, m, c, (b - 1) as nat);
    }
}

/// The strict ancestry follows the walk for as long as it goes.
proof fn lemma_anc_on_walk(files: Seq<ModelFile>, m: ModelFileView, c: ClassDeclaration, k: nat)
    ensures
        strict_anc(files, m, c, k) is Some ==> walk_decl(files, m, c, k) == strict_anc(files, m, c, k),
    decreases k,
{
    if k > 0 {
        lemma_anc_on_walk(files, m, c, (k - 1) as nat);
        lemma_anc_step(files, m, c, (k - 1) as nat);
    }
}

proof fn lemma_chain_pairs_stable(files: Seq<ModelFile>, m: ModelFileView, c: ClassDeclaration, n: nat, f: nat, g: nat)
    requires
        strict_anc(files, m, c, n) is None,
        n <= f + 1,
        n <= g + 1,
    ensures
        chain_pairs(files, m, c, f) == chain_pairs(files, m, c, g),
    decreases n,
{
    match strict_super(files, m, c) {
        Some(s) => {
            lemma_chain_pairs_stable(files, m, s, (n - 1) as nat, (f - 1) as nat, (g - 1) as nat);
        },
        None => {},
    }
}

/// A repeat found in a prefix is the first repeat of the whole.
proof fn lemma_first_repeat_extends(prefix: Seq<(Seq<char>, Seq<char>)>, whole: Seq<(Seq<char>, Seq<char>)>)
    requires
        prefix.len() <= whole.len(),
        whole.take(prefix.len() as int) == prefix,
        first_repeat(prefix) is Some,
    ensures
        first_repeat(whole) == first_repeat(prefix),
    decreases whole.len() - prefix.len(),
{
    if whole.len() > prefix.len() {
        assert(whole.drop_last().take(prefix.len() as int) == prefix);
        lemma_first_repeat_extends(prefix, whole.drop_last());
    } else {
        assert(whole == prefix);
    }
}

/// With the chain of `cd` in hand, the pairs of the chain from position `j` up
/// are `cd`'s whole inherited pairs once `j` is 0.
proof fn lemma_chain_pairs_after(files: Seq<ModelFile>, m: ModelFileView, cd: ClassDeclaration,
    chain: Seq<&ClassDeclaration>, j: nat, top: nat, acc: Seq<(Seq<char>, Seq<char>)>)
    requires
        top + 1 == chain.len(),
        forall|x: int| 0 <= x < chain.len() ==> strict_anc(files, m, cd, x as nat) == Some(*(#[trigger] chain[x])),
        strict_anc(files, m, cd, chain.len() as nat) is None,
    ensures
        chain_pairs(files, m, cd, top) == inherited_pairs(files, m, cd),
{
    let n = choose|n: nat| #[trigger] strict_anc(files, m, cd, n) is None;
    assert(strict_anc(files, m, cd, (chain.len() - 1) as nat) == Some(*chain[chain.len() - 1]));
    if n < chain.len() {
        lemma_anc_ended(files, m, cd, n, (chain.len() - 1) as nat);
    }
    lemma_chain_pairs_stable(files, m, cd, chain.len() as nat, top, n);
}

pub open spec fn missing_super_message(fqn: Seq<char>, name: Seq<char>) -> Seq<char> {
    "Super type '"@ + fqn + "' not found for '"@ + name + "'"@
}

pub open spec fn non_class_super_message(fqn: Seq<char>, name: Seq<char>) -> Seq<char> {
    "Super type '"@ + fqn + "' of '"@ + name + "' is not a class declaration"@
}

pub open spec fn missing_type_message(fqn: Seq<char>, prop: Seq<char>) -> Seq<char> {
    "Type '"@ + fqn + "' not found for property '"@ + prop + "'"@
}

pub open spec fn primitive_relationship_message(prop: Seq<char>, simple_type: Seq<char>) -> Seq<char> {
    "Relationship '"@ + prop + "' cannot have primitive type '"@ + simple_type + "'"@
}

pub open spec fn missing_target_message(fqn: Seq<char>, prop: Seq<char>) -> Seq<char> {
    "Relationship target type '"@ + fqn + "' not found for '"@ + prop + "'"@
}

pub open spec fn unidentified_target_message(prop: Seq<char>, fqn: Seq<char>) -> Seq<char> {
    "Relationship '"@ + prop + "' must point to an identified type, but '"@ + fqn + "' is not identified"@
}

/// What checking property `p` of a class in model file `m` gives: an object
/// property's type must exist (or be primitive); a relationship's type must not
/// be primitive, must exist, and must be identified when it is a class.
pub open spec fn property_outcome(files: Seq<ModelFile>, m: ModelFileView, p: PropertyDecl) -> Result<(), ErrorView> {
    match p {
        PropertyDecl::Object(b) => match resolve_type_id(b.type_, m) {
            Err(e) => Err(e),
            Ok(f) => if lookup_type(files, f) is None && !is_primitive_name(b.type_.name@) {
                Err(illegal(missing_type_message(f, b.name@), m.file_name))
            } else {
                Ok(())
            },
        },
        PropertyDecl::Relationship(b) => match resolve_type_id(b.type_, m) {
            Err(e) => Err(e),
            Ok(f) => if is_primitive_name(b.type_.name@) {
                Err(illegal(primitive_relationship_message(b.name@, b.type_.name@), m.file_name))
            } else {
                match lookup_type(files, f) {
                    None => Err(illegal(missing_target_message(f, b.name@), m.file_name)),
                    Some(Declaration::Class(c)) => if c.identity_class() is None {
                        Err(illegal(unidentified_target_message(b.name@, f), m.file_name))
                    } else {
                        Ok(())
                    },
                    Some(_) => Ok(()),
                }
            },
        },
        _ => Ok(()),
    }
}

/// The first failure among the properties `ps`, in order.
pub open spec fn properties_outcome(files: Seq<ModelFile>, m: ModelFileView, ps: Seq<PropertyDecl>) -> Result<(), ErrorView>
    decreases ps.len(),
{
    if ps.len() == 0 {
        Ok(())
    } else {
        match properties_outcome(files, m, ps.drop_last()) {
            Err(e) => Err(e),
            Ok(_) => property_outcome(files, m, ps.last()),
        }
    }
}

/// What checking the super type of class `c` in model file `m` gives.
pub open spec fn super_outcome(files: Seq<ModelFile>, m: ModelFileView, c: ClassDeclaration) -> Result<(), ErrorView> {
    match c.super_type_ref() {
        None => Ok(()),
        Some(t) => match resolve_type_id(t, m) {
            Err(e) => Err(e),
            Ok(f) => match lookup_type(files, f) {
                None => Err(illegal(missing_super_message(f, c.spec_name()), m.file_name)),
                Some(Declaration::Class(_)) => if has_cycle(files, m, c) {
                    Err(illegal(cycle_message(walk_start(m, c)), m.file_name))
                } else {
                    Ok(())
                },
                Some(_) => Err(illegal(non_class_super_message(f, c.spec_name()), m.file_name)),
            },
        },
    }
}

/// What validating class `c` of model file `m` gives: its super type, then
/// repeated property names along its ancestry, then each own property.
pub open spec fn class_outcome(files: Seq<ModelFile>, m: ModelFileView, c: ClassDeclaration) -> Result<(), ErrorView> {
    match super_outcome(files, m, c) {
        Err(e) => Err(e),
        Ok(_) => match first_repeat(inherited_pairs(files, m, c)) {
            Some(x) => Err(illegal(duplicate_message(x.1, x.0), m.file_name)),
            None => properties_outcome(files, m, c.property_list()),
        },
    }
}

/// The first failure among the declarations `ds` of model file `m`.
pub open spec fn declarations_outcome(files: Seq<ModelFile>, m: ModelFileView, ds: Seq<Declaration>) -> Result<(), ErrorView>
    decreases ds.len(),
{
    if ds.len() == 0 {
        Ok(())
    } else {
        match declarations_outcome(files, m, ds.drop_last()) {
            Err(e) => Err(e),
            Ok(_) => match ds.last() {
                Declaration::Class(c) => class_outcome(files, m, c),
                _ => Ok(()),
            },
        }
    }
}

/// What validating model file `m` among `files` gives.
pub open spec fn file_outcome(files: Seq<ModelFile>, m: ModelFileView) -> Result<(), ErrorView> {
    declarations_outcome(files, m, m.declarations)
}

/// The first failure among the first `n` files.
pub open spec fn files_outcome(files: Seq<ModelFile>, n: nat) -> Result<(), ErrorView>
    decreases n,
{
    if n == 0 {
        Ok(())
    } else {
        match files_outcome(files, (n - 1) as nat) {
            Err(e) => Err(e),
            Ok(_) => file_outcome(files, files[n - 1]@),
        }
    }
}

/// What validating all of `files` gives.
pub open spec fn model_files_outcome(files: Seq<ModelFile>) -> Result<(), ErrorView> {
    files_outcome(files, files.len())
}

proof fn lemma_files_ok(files: Seq<ModelFile>, n: nat)
    requires
        n <= files.len(),
        files_outcome(files, n) is Ok,
    ensures
        forall|i: int| 0 <= i < n ==> #[trigger] file_outcome(files, files[i]@) is Ok,
    decreases n,
{
    if n > 0 {
        lemma_files_ok(files, (n - 1) as nat);
    }
}

proof fn lemma_declarations_ok(files: Seq<ModelFile>, m: ModelFileView, ds: Seq<Declaration>)
    requires
        declarations_outcome(files, m, ds) is Ok,
    ensures
        forall|j: int| 0 <= j < ds.len() && (#[trigger] ds[j]) is Class
            ==> class_outcome(files, m, ds[j]->Class_0) is Ok,
    decreases ds.len(),
{
    if ds.len() > 0 {
        let rest = ds.drop_last();
        lemma_declarations_ok(files, m, rest);
        assert forall|j: int| 0 <= j < ds.len() && (#[trigger] ds[j]) is Class
            implies class_outcome(files, m, ds[j]->Class_0) is Ok by {
            if j < ds.len() - 1 {
                assert(rest[j] == ds[j]);
            }
        }
    }
}

proof fn lemma_properties_ok(files: Seq<ModelFile>, m: ModelFileView, ps: Seq<PropertyDecl>)
    requires
        properties_outcome(files, m, ps) is Ok,
    ensures
        forall|k: int| 0 <= k < ps.len() ==> #[trigger] property_outcome(files, m, ps[k]) is Ok,
    decreases ps.len(),
{
    if ps.len() > 0 {
        let rest = ps.drop_last();
        lemma_properties_ok(files, m, rest);
        assert forall|k: int| 0 <= k < ps.len() implies #[trigger] property_outcome(files, m, ps[k]) is Ok by {
            if k < ps.len() - 1 {
                assert(rest[k] == ps[k]);
            }
        }
    }
}

/// In a set of model files that validates, every property of every class
/// declaration names a type that exists: an object property's type, array or
/// not, resolves in its file to a declared type or is primitive; a
/// relationship's type resolves to a declared type that is not primitive, and,
/// when that type is a class, an identified one.
pub proof fn law_valid_files_declare_property_types(files: Seq<ModelFile>, i: int, j: int, k: int)
    requires
        model_files_outcome(files) is Ok,
        0 <= i < files.len(),
        0 <= j < files[i]@.declarations.len(),
        files[i]@.declarations[j] is Class,
        0 <= k < files[i]@.declarations[j]->Class_0.property_list().len(),
    ensures
        files[i]@.declarations[j]->Class_0.property_list()[k] matches PropertyDecl::Object(b) ==> (
            resolve_type_id(b.type_, files[i]@) matches Ok(f)
            && (lookup_type(files, f) is Some || is_primitive_name(b.type_.name@))),
        files[i]@.declarations[j]->Class_0.property_list()[k] matches PropertyDecl::Relationship(b) ==> (
            resolve_type_id(b.type_, files[i]@) matches Ok(f)
            && !is_primitive_name(b.type_.name@)
            && lookup_type(files, f) is Some
            && (lookup_type(files, f) matches Some(Declaration::Class(c)) ==> c.identity_class() is Some)),
{
    let m = files[i]@;
    let c = m.declarations[j]->Class_0;
    lemma_files_ok(files, files.len());
    assert(file_outcome(files, files[i]@) is Ok);
    lemma_declarations_ok(files, m, m.declarations);
    assert(m.declarations[j] is Class);
    assert(class_outcome(files, m, c) is Ok);
    lemma_properties_ok(files, m, c.property_list());
    assert(property_outcome(files, m, c.property_list()[k]) is Ok);
}

/// `r` is the outcome `o`: both succeed, or both fail with the same error.
pub open spec fn same_outcome(r: Result<(), ConcertoError>, o: Result<(), ErrorView>) -> bool {
    match (r, o) {
        (Ok(_), Ok(_)) => true,
        (Err(e), Err(ev)) => e@ == ev,
        _ => false,
    }
}

proof fn lemma_properties_outcome_fails(files: Seq<ModelFile>, m: ModelFileView, prefix: Seq<PropertyDecl>, ps: Seq<PropertyDecl>)
    requires
        prefix.len() <= ps.len(),
        ps.take(prefix.len() as int) == prefix,
        properties_outcome(files, m, prefix) is Err,
    ensures
        properties_outcome(files, m, ps) == properties_outcome(files, m, prefix),
    decreases ps.len() - prefix.len(),
{
    if ps.len() > prefix.len() {
        assert(ps.drop_last().take(prefix.len() as int) == prefix);
        lemma_properties_outcome_fails(files, m, prefix, ps.drop_last());
    } else {
        assert(ps == prefix);
    }
}

proof fn lemma_declarations_outcome_fails(files: Seq<ModelFile>, m: ModelFileView, prefix: Seq<Declaration>, ds: Seq<Declaration>)
    requires
        prefix.len() <= ds.len(),
        ds.take(prefix.len() as int) == prefix,
        declarations_outcome(files, m, prefix) is Err,
    ensures
        declarations_outcome(files, m, ds) == declarations_outcome(files, m, prefix),
    decreases ds.len() - prefix.len(),
{
    if ds.len() > prefix.len() {
        assert(ds.drop_last().take(prefix.len() as int) == prefix);
        lemma_declarations_outcome_fails(files, m, prefix, ds.drop_last());
    } else {
        assert(ds == prefix);
    }
}

proof fn lemma_files_outcome_fails(files: Seq<ModelFile>, n: nat)
    requires
        n <= files.len(),
        files_outcome(files, n) is Err,
    ensures
        files_outcome(files, files.len()) == files_outcome(files, n),
    decreases files.len() - n,
{
    if n < files.len() {
        lemma_files_outcome_fails(files, n + 1);
    }
}

/// Position of the first property of `ps` named `name`, or -1.
pub open spec fn first_property_named(ps: Seq<PropertyDecl>, name: Seq<char>) -> int
    decreases ps.len(),
{
    if ps.len() == 0 {
        -1
    } else {
        let k = first_property_named(ps.drop_last(), name);
        if k >= 0 {
            k
        } else if ps.last().spec_name() == name {
            ps.len() - 1
        } else {
            -1
        }
    }
}

/// The first property named `name` along `c`'s ancestry, `c`'s own first,
/// looking at most `fuel` steps up.
pub open spec fn property_in_chain(files: Seq<ModelFile>, m: ModelFileView, c: ClassDeclaration, name: Seq<char>,
    fuel: nat) -> Option<PropertyDecl>
    decreases fuel,
{
    let k = first_property_named(c.property_list(), name);
    if k >= 0 {
        Some(c.property_list()[k])
    } else if fuel == 0 {
        None
    } else {
        match strict_super(files, m, c) {
            Some(s) => property_in_chain(files, m, s, name, (fuel - 1) as nat),
            None => None,
        }
    }
}

proof fn lemma_first_property_named(ps: Seq<PropertyDecl>, name: Seq<char>)
    ensures
        -1 <= first_property_named(ps, name) < ps.len(),
        first_property_named(ps, name) >= 0 ==> ps[first_property_named(ps, name)].spec_name() == name,
        forall|j: int| 0 <= j < ps.len() && (j < first_property_named(ps, name) || first_property_named(ps, name) < 0)
            ==> #[trigger] ps[j].spec_name() != name,
    decreases ps.len(),
{
    if ps.len() > 0 {
        lemma_first_property_named(ps.drop_last(), name);
        assert forall|j: int| 0 <= j < ps.len() - 1 implies #[trigger] ps[j] == ps.drop_last()[j] by {}
    }
}

proof fn lemma_files_outcome_ok(files: Seq<ModelFile>, n: nat, i: int)
    requires
        n <= files.len(),
        files_outcome(files, n) is Ok,
        0 <= i < n,
    ensures
        file_outcome(files, files[i]@) is Ok,
    decreases n,
{
    if i < n - 1 {
        lemma_files_outcome_ok(files, (n - 1) as nat, i);
    }
}

proof fn lemma_declarations_outcome_ok(files: Seq<ModelFile>, m: ModelFileView, ds: Seq<Declaration>, j: int)
    requires
        declarations_outcome(files, m, ds) is Ok,
        0 <= j < ds.len(),
    ensures
        ds[j] matches Declaration::Class(c) ==> class_outcome(files, m, c) is Ok,
    decreases ds.len(),
{
    if j < ds.len() - 1 {
        assert(ds.drop_last()[j] == ds[j]);
        lemma_declarations_outcome_ok(files, m, ds.drop_last(), j);
    }
}

/// In a set of model files that validates, every class passes its checks: its
/// super type, when it has one, names an existing class and its inheritance
/// has no cycle; no property name repeats along its ancestry; and each own
/// property's type checks out.
pub proof fn law_validated_classes(files: Seq<ModelFile>, i: int, j: int)
    requires
        model_files_outcome(files) is Ok,
        0 <= i < files.len(),
        0 <= j < files[i]@.declarations.len(),
    ensures
        files[i]@.declarations[j] matches Declaration::Class(c) ==> {
            &&& c.super_type_ref() matches Some(t) ==> {
                &&& resolve_type_id(t, files[i]@) is Ok
                &&& lookup_class(files, resolve_type_id(t, files[i]@)->Ok_0) is Some
                &&& !has_cycle(files, files[i]@, c)
            }
            &&& first_repeat(inherited_pairs(files, files[i]@, c)) is None
            &&& properties_outcome(files, files[i]@, c.property_list()) is Ok
        },
{
    lemma_files_outcome_ok(files, files.len(), i);
    lemma_declarations_outcome_ok(files, files[i]@, files[i]@.declarations, j);
}

/// Type resolution over a set of model files, seen from one namespace.
pub struct ValidationContext<'a> {
    model_files: &'a [ModelFile],
    current_namespace: &'a str,
}

impl<'a> ValidationContext<'a> {
    pub closed spec fn files(&self) -> Seq<ModelFile> {
        self.model_files@
    }

    pub closed spec fn namespace(&self) -> Seq<char> {
        self.current_namespace@
    }

    pub fn new(model_files: &'a [ModelFile], current_namespace: &'a str) -> (r: Self)
        ensures
            r.files() == model_files@,
            r.namespace() == current_namespace@,
    {
        ValidationContext { model_files, current_namespace }
    }

    /// Resolve a fully-qualified type name to its declaration.
    pub fn get_type(&self, fqn: &str) -> (r: Option<&'a Declaration>)
        ensures
            match r {
                Some(d) => lookup_type(self.files(), fqn@) == Some(*d),
                None => lookup_type(self.files(), fqn@) is None,
            },
    {
        let ns = get_namespace(fqn);
        let short = get_short_name(fqn);
        match find_file(self.model_files, ns) {
            Some(i) => self.model_files[i].get_local_type(short),
            None => None,
        }
    }

    /// The model file of the current namespace.
    pub fn current_model_file(&self) -> (r: Option<&'a ModelFile>)
        ensures
            match r {
                Some(m) => file_index(self.files(), self.namespace()) >= 0
                    && *m == self.files()[file_index(self.files(), self.namespace())],
                None => file_index(self.files(), self.namespace()) < 0,
            },
    {
        match find_file(self.model_files, self.current_namespace) {
            Some(i) => Some(&self.model_files[i]),
            None => None,
        }
    }
}

/// Position of the first file of namespace `ns`.
pub(crate) fn find_file(files: &[ModelFile], ns: &str) -> (r: Option<usize>)
    ensures
        match r {
            Some(i) => i < files@.len() && i as int == file_index(files@, ns@),
            None => file_index(files@, ns@) < 0,
        },
{
    proof { lemma_file_index(files@, ns@); }
    let mut i: usize = 0;
    while i < files.len()
        invariant
            i <= files@.len(),
            -1 <= file_index(files@, ns@) < files@.len(),
            file_index(files@, ns@) >= 0 ==> files@[file_index(files@, ns@)]@.namespace == ns@,
            forall|j: int| 0 <= j < files@.len() && (j < file_index(files@, ns@) || file_index(files@, ns@) < 0)
                ==> #[trigger] files@[j]@.namespace != ns@,
            forall|j: int| 0 <= j < i ==> #[trigger] files@[j]@.namespace != ns@,
        decreases files@.len() - i,
    {
        if str_eq(files[i].namespace(), ns) {
            return Some(i);
        }
        i = i + 1;
    }
    None
}

/// Resolve a type identifier to a fully-qualified name in model file `mf`.
fn resolve_type_identifier(type_id: &TypeIdentifier, mf: &ModelFile) -> (r: Result<String, ConcertoError>)
    ensures
        match (r, resolve_type_id(*type_id, mf@)) {
            (Ok(s), Ok(f)) => s@ == f,
            (Err(e), Err(ev)) => e@ == ev,
            _ => false,
        },
{
    match &type_id.resolved_name {
        Some(resolved) => return Ok(resolved.clone()),
        None => {},
    }
    match &type_id.namespace {
        Some(ns) => return Ok(fully_qualified_name(ns.as_str(), type_id.name.as_str())),
        None => {},
    }
    mf.fully_qualified_type_name(type_id.name.as_str())
}

/// Resolve a type identifier in `mf`, taking a name it cannot resolve to be in
/// `mf`'s namespace.
fn resolve_or_assume_local(type_id: &TypeIdentifier, mf: &ModelFile) -> (r: String)
    ensures
        r@ == resolve_or_guess(*type_id, mf@),
{
    match resolve_type_identifier(type_id, mf) {
        Ok(f) => f,
        Err(_) => fully_qualified_name(mf.namespace(), type_id.name.as_str()),
    }
}

/// Whether one of the texts in `v` equals `s`.
fn contains_text(v: &Vec<String>, s: &str) -> (r: bool)
    ensures
        r <==> exists|i: int| 0 <= i < v@.len() && (#[trigger] v@[i])@ == s@,
{
    let mut i: usize = 0;
    while i < v.len()
        invariant
            i <= v@.len(),
            forall|j: int| 0 <= j < i ==> (#[trigger] v@[j])@ != s@,
        decreases v@.len() - i,
    {
        if str_eq(v[i].as_str(), s) {
            return true;
        }
        i = i + 1;
    }
    false
}

/// The file name of `mf`, as an owned text.
pub(crate) fn file_name_of(mf: &ModelFile) -> (r: Option<String>)
    ensures
        opt_text(r) == mf@.file_name,
{
    match mf.file_name() {
        Some(s) => Some(owned(s)),
        None => None,
    }
}

/// Walk up the super types of `cd`, failing when a name comes back.
fn check_circular_inheritance(cd: &ClassDeclaration, mf: &ModelFile, ctx: &ValidationContext<'_>)
    -> (r: Result<(), ConcertoError>)
    ensures
        r is Err <==> has_cycle(ctx.files(), mf@, *cd),
        r matches Err(e) ==> e@ == illegal(cycle_message(walk_start(mf@, *cd)), mf@.file_name),
        r is Ok ==> exists|n: nat| #[trigger] walk_decl(ctx.files(), mf@, *cd, n) is None,
{
    let ghost files = ctx.files();
    let ghost m = mf@;
    let start = fully_qualified_name(mf.namespace(), cd.name());
    let mut visited: Vec<String> = Vec::new();
    visited.push(start.clone());
    let mut current: &ClassDeclaration = cd;
    let ghost mut k: nat = 0;
    loop
        invariant
            files == ctx.files(),
            m == mf@,
            start@ == walk_start(m, *cd),
            walk_decl(files, m, *cd, k) == Some(*current),
            visited@.len() == k + 1,
            visited@[0]@ == start@,
            forall|j: nat| j < k ==> #[trigger] walk_fqn(files, m, *cd, j) == Some(visited@[j + 1 as int]@),
            forall|j: nat| j < k ==> !#[trigger] repeats_at(files, m, *cd, j),
        decreases all_decls(files).len() + 1 - k,
    {
        match current.super_type() {
            None => {
                proof {
                    assert(walk_decl(files, m, *cd, k + 1) is None);
                    assert forall|j: nat| !#[trigger] repeats_at(files, m, *cd, j) by {
                        if j > k {
                            lemma_walk_ended(files, m, *cd, k + 1, j);
                        }
                    }
                }
                return Ok(());
            },
            Some(t) => {
                let f = resolve_or_assume_local(t, mf);
                assert(walk_fqn(files, m, *cd, k) == Some(f@));
                if contains_text(&visited, f.as_str()) {
                    proof {
                        let i = choose|i: int| 0 <= i < visited@.len() && (#[trigger] visited@[i])@ == f@;
                        if i > 0 {
                            assert(walk_fqn(files, m, *cd, (i - 1) as nat) == Some(visited@[i]@));
                        }
                        assert(repeats_at(files, m, *cd, k));
                    }
                    let msg = concat3("Circular inheritance detected for '", start.as_str(), "'");
                    return Err(illegal_model(msg, file_name_of(mf)));
                }
                proof {
                    if repeats_at(files, m, *cd, k) {
                        if f@ == start@ {
                            assert(visited@[0]@ == f@);
                        } else {
                            let j = choose|j: nat| j < k && #[trigger] walk_fqn(files, m, *cd, j) == Some(f@);
                            assert(visited@[j + 1 as int]@ == f@);
                        }
                    }
                }
                match ctx.get_type(f.as_str()) {
                    Some(Declaration::Class(c)) => {
                        proof {
                            assert(walk_decl(files, m, *cd, k + 1) == Some(*c));
                            lemma_walk_bounded(files, m, *cd, k);
                        }
                        visited.push(f);
                        current = c;
                        proof { k = k + 1; }
                    },
                    _ => {
                        proof {
                            assert(walk_decl(files, m, *cd, k + 1) is None);
                            assert forall|j: nat| !#[trigger] repeats_at(files, m, *cd, j) by {
                                if j > k {
                                    lemma_walk_ended(files, m, *cd, k + 1, j);
                                }
                            }
                        }
                        return Ok(());
                    },
                }
            },
        }
    }
}

pub open spec fn duplicate_message(prop: Seq<char>, owner: Seq<char>) -> Seq<char> {
    "Duplicate property name '"@ + prop + "' in '"@ + owner + "'"@
}

/// `cd` and its ancestors along `strict_super`, `cd` first.
fn strict_chain<'a>(cd: &'a ClassDeclaration, mf: &ModelFile, ctx: &ValidationContext<'a>)
    -> (r: Vec<&'a ClassDeclaration>)
    requires
        exists|n: nat| #[trigger] strict_anc(ctx.files(), mf@, *cd, n) is None,
    ensures
        r@.len() >= 1,
        forall|j: int| 0 <= j < r@.len() ==> strict_anc(ctx.files(), mf@, *cd, j as nat) == Some(*(#[trigger] r@[j])),
        strict_anc(ctx.files(), mf@, *cd, r@.len() as nat) is None,
{
    let ghost files = ctx.files();
    let ghost m = mf@;
    let ghost n = choose|n: nat| #[trigger] strict_anc(files, m, *cd, n) is None;
    let mut chain: Vec<&'a ClassDeclaration> = Vec::new();
    chain.push(cd);
    loop
        invariant
            files == ctx.files(),
            m == mf@,
            strict_anc(files, m, *cd, n) is None,
            chain@.len() >= 1,
            forall|j: int| 0 <= j < chain@.len() ==> strict_anc(files, m, *cd, j as nat) == Some(*(#[trigger] chain@[j])),
        decreases n - chain@.len(),
    {
        let last = chain.len() - 1;
        let current: &'a ClassDeclaration = chain[last];
        proof {
            lemma_anc_step(files, m, *cd, last as nat);
            assert(strict_anc(files, m, *cd, last as nat) == Some(*chain@[last as int]));
            if n <= last {
                lemma_anc_ended(files, m, *cd, n, last as nat);
            }
        }
        let next: Option<&'a ClassDeclaration> = match current.super_type() {
            Some(t) => match resolve_type_identifier(t, mf) {
                Ok(f) => match ctx.get_type(f.as_str()) {
                    Some(Declaration::Class(c)) => Some(c),
                    _ => None,
                },
                Err(_) => None,
            },
            None => None,
        };
        match next {
            Some(c) => {
                proof {
                    assert(strict_anc(files, m, *cd, (last + 1) as nat) == Some(*c));
                    if n <= last + 1 {
                        lemma_anc_ended(files, m, *cd, n, (last + 1) as nat);
                    }
                }
                chain.push(c);
            },
            None => {
                return chain;
            },
        }
    }
}

/// Whether the property name of pair `i` occurs in an earlier pair.
fn name_before(pairs: &Vec<(&str, &str)>, i: usize) -> (r: bool)
    requires
        i < pairs@.len(),
    ensures
        r <==> exists|x: int| 0 <= x < i && (#[trigger] pairs@[x]).1@ == pairs@[i as int].1@,
{
    let mut x: usize = 0;
    while x < i
        invariant
            i < pairs@.len(),
            x <= i,
            forall|y: int| 0 <= y < x ==> (#[trigger] pairs@[y]).1@ != pairs@[i as int].1@,
        decreases i - x,
    {
        if str_eq(pairs[x].1, pairs[i].1) {
            return true;
        }
        x = x + 1;
    }
    false
}

/// Check that no property name occurs twice along `cd`'s ancestry.
fn check_duplicate_properties(cd: &ClassDeclaration, mf: &ModelFile, ctx: &ValidationContext<'_>)
    -> (r: Result<(), ConcertoError>)
    requires
        exists|n: nat| #[trigger] strict_anc(ctx.files(), mf@, *cd, n) is None,
    ensures
        match (r, first_repeat(inherited_pairs(ctx.files(), mf@, *cd))) {
            (Ok(_), None) => true,
            (Err(e), Some(x)) => e@ == illegal(duplicate_message(x.1, x.0), mf@.file_name),
            _ => false,
        },
{
    let ghost files = ctx.files();
    let ghost m = mf@;
    let chain = strict_chain(cd, mf, ctx);
    let ghost top = (chain@.len() - 1) as nat;
    let mut pairs: Vec<(&str, &str)> = Vec::new();
    let ghost mut acc: Seq<(Seq<char>, Seq<char>)> = Seq::empty();
    let mut j: usize = chain.len();
    while j > 0
        invariant
            files == ctx.files(),
            m == mf@,
            top + 1 == chain@.len(),
            0 <= j <= chain@.len(),
            forall|x: int| 0 <= x < chain@.len() ==> strict_anc(files, m, *cd, x as nat) == Some(*(#[trigger] chain@[x])),
            strict_anc(files, m, *cd, chain@.len() as nat) is None,
            j == chain@.len() ==> acc.len() == 0,
            j < chain@.len() ==> acc == chain_pairs(files, m, *chain@[j as int], (top - j) as nat),
            pairs@.len() == acc.len(),
            forall|x: int| 0 <= x < acc.len() ==> ((#[trigger] pairs@[x]).0@, pairs@[x].1@) == acc[x],
        decreases j,
    {
        j = j - 1;
        let c: &ClassDeclaration = chain[j];
        let props = c.own_properties();
        let ghost base = acc;
        proof {
            lemma_anc_step(files, m, *cd, j as nat);
            assert(strict_anc(files, m, *cd, j as nat) == Some(*chain@[j as int]));
            if j < top {
                assert(strict_anc(files, m, *cd, (j + 1) as nat) == Some(*chain@[j + 1]));
                assert(strict_super(files, m, *c) == Some(*chain@[j + 1]));
            } else {
                assert(strict_super(files, m, *c) is None);
            }
        }
        let mut i: usize = 0;
        while i < props.len()
            invariant
                props@ == c.property_list(),
                i <= props@.len(),
                acc == base + own_pairs(*c).take(i as int),
                pairs@.len() == acc.len(),
                forall|x: int| 0 <= x < acc.len() ==> ((#[trigger] pairs@[x]).0@, pairs@[x].1@) == acc[x],
            decreases props@.len() - i,
        {
            let ghost pair = (c.spec_name(), props@[i as int].spec_name());
            assert(own_pairs(*c)[i as int] == pair);
            assert(own_pairs(*c).take(i + 1) == own_pairs(*c).take(i as int).push(pair));
            pairs.push((c.name(), props[i].name()));
            proof { acc = acc.push(pair); }
            i = i + 1;
        }
        proof {
            assert(own_pairs(*c).take(props@.len() as int) == own_pairs(*c));
            if j < top {
                assert(base == chain_pairs(files, m, *chain@[j + 1], (top - (j + 1)) as nat));
            } else {
                assert(base + own_pairs(*c) == own_pairs(*c));
            }
        }
    }
    proof {
        lemma_chain_pairs_after(files, m, *cd, chain@, 0, top, acc);
        assert(acc == inherited_pairs(files, m, *cd));
        assert(acc.take(0) == Seq::<(Seq<char>, Seq<char>)>::empty());
    }
    let mut i: usize = 0;
    while i < pairs.len()
        invariant
            pairs@.len() == acc.len(),
            forall|x: int| 0 <= x < acc.len() ==> ((#[trigger] pairs@[x]).0@, pairs@[x].1@) == acc[x],
            acc == inherited_pairs(files, m, *cd),
            files == ctx.files(),
            m == mf@,
            i <= acc.len(),
            first_repeat(acc.take(i as int)) is None,
        decreases acc.len() - i,
    {
        let ghost prefix = acc.take(i + 1);
        assert(prefix.drop_last() == acc.take(i as int));
        assert(prefix.last() == acc[i as int]);
        if name_before(&pairs, i) {
            proof {
                let x = choose|x: int| 0 <= x < i && (#[trigger] pairs@[x]).1@ == pairs@[i as int].1@;
                assert(prefix[x] == acc[x]);
                assert(first_repeat(prefix) == Some(acc[i as int]));
                lemma_first_repeat_extends(prefix, acc);
                assert((pairs@[i as int].0@, pairs@[i as int].1@) == acc[i as int]);
            }
            let msg = concat5("Duplicate property name '", pairs[i].1, "' in '", pairs[i].0, "'");
            return Err(illegal_model(msg, file_name_of(mf)));
        }
        proof {
            assert forall|x: int| 0 <= x < prefix.len() - 1 implies (#[trigger] prefix[x]).1 != prefix.last().1 by {
                assert(prefix[x] == acc[x]);
                assert(pairs@[x].1@ == acc[x].1);
            }
        }
        i = i + 1;
    }
    proof { assert(acc.take(acc.len() as int) == acc); }
    Ok(())
}

/// Check that an explicitly identified class has its identifier field along
/// its ancestry. A class identified by the system needs no field; for any
/// other, `identifier_field_name` names none, so the check always passes.
fn validate_identifier_field(cd: &ClassDeclaration, mf: &ModelFile, ctx: &ValidationContext<'_>)
    -> (r: Result<(), ConcertoError>)
    requires
        exists|n: nat| #[trigger] strict_anc(ctx.files(), mf@, *cd, n) is None,
    ensures
        r is Ok,
{
    if cd.is_system_identified() {
        return Ok(());
    }
    match cd.identifier_field_name() {
        Some(id_field_name) => {
            let ghost n = choose|n: nat| #[trigger] strict_anc(ctx.files(), mf@, *cd, n) is None;
            if find_property_in_chain(cd, id_field_name, mf, ctx, Ghost(n)).is_none() {
                let msg = concat5("Identifier field '", id_field_name, "' not found on '", cd.name(), "'");
                return Err(illegal_model(msg, file_name_of(mf)));
            }
        },
        None => {},
    }
    Ok(())
}

/// Find a property by name, `cd`'s own first, then up its ancestry.
fn find_property_in_chain<'a>(cd: &'a ClassDeclaration, name: &str, mf: &ModelFile, ctx: &ValidationContext<'a>,
    Ghost(n): Ghost<nat>) -> (r: Option<&'a PropertyDecl>)
    requires
        strict_anc(ctx.files(), mf@, *cd, n) is None,
    ensures
        match r {
            Some(p) => property_in_chain(ctx.files(), mf@, *cd, name@, n) == Some(*p),
            None => property_in_chain(ctx.files(), mf@, *cd, name@, n) is None,
        },
    decreases n,
{
    let props = cd.own_properties();
    proof { lemma_first_property_named(props@, name@); }
    let mut i: usize = 0;
    while i < props.len()
        invariant
            props@ == cd.property_list(),
            i <= props@.len(),
            forall|j: int| 0 <= j < i ==> #[trigger] props@[j].spec_name() != name@,
            -1 <= first_property_named(props@, name@) < props@.len(),
            first_property_named(props@, name@) >= 0 ==> props@[first_property_named(props@, name@)].spec_name() == name@,
            forall|j: int| 0 <= j < props@.len() && (j < first_property_named(props@, name@) || first_property_named(props@, name@) < 0)
                ==> #[trigger] props@[j].spec_name() != name@,
        decreases props@.len() - i,
    {
        if str_eq(props[i].name(), name) {
            return Some(&props[i]);
        }
        i = i + 1;
    }
    let next: Option<&'a ClassDeclaration> = match cd.super_type() {
        Some(t) => match resolve_type_identifier(t, mf) {
            Ok(f) => match ctx.get_type(f.as_str()) {
                Some(Declaration::Class(c)) => Some(c),
                _ => None,
            },
            Err(_) => None,
        },
        None => None,
    };
    match next {
        Some(s) => {
            assert(strict_super(ctx.files(), mf@, *cd) == Some(*s));
            find_property_in_chain(s, name, mf, ctx, Ghost((n - 1) as nat))
        },
        None => None,
    }
}

/// Validate all model files, in order; the first failure is returned.
pub fn validate_model_files(model_files: &[ModelFile]) -> (r: Result<(), ConcertoError>)
    ensures
        same_outcome(r, model_files_outcome(model_files@)),
{
    let mut i: usize = 0;
    while i < model_files.len()
        invariant
            i <= model_files@.len(),
            files_outcome(model_files@, i as nat) is Ok,
        decreases model_files@.len() - i,
    {
        let ctx = ValidationContext::new(model_files, model_files[i].namespace());
        match validate_model_file(&model_files[i], &ctx) {
            Err(e) => {
                proof { lemma_files_outcome_fails(model_files@, (i + 1) as nat); }
                return Err(e);
            },
            Ok(()) => {},
        }
        i = i + 1;
    }
    Ok(())
}

/// Validate the declarations of one model file.
fn validate_model_file(mf: &ModelFile, ctx: &ValidationContext<'_>) -> (r: Result<(), ConcertoError>)
    ensures
        same_outcome(r, file_outcome(ctx.files(), mf@)),
{
    let decls = mf.all_declarations();
    let mut i: usize = 0;
    assert(decls@.take(0) == Seq::<Declaration>::empty());
    while i < decls.len()
        invariant
            decls@ == mf@.declarations,
            i <= decls@.len(),
            declarations_outcome(ctx.files(), mf@, decls@.take(i as int)) is Ok,
        decreases decls@.len() - i,
    {
        assert(decls@.take(i + 1).drop_last() == decls@.take(i as int));
        match &decls[i] {
            Declaration::Class(cd) => {
                match validate_class_declaration(cd, mf, ctx) {
                    Err(e) => {
                        proof { lemma_declarations_outcome_fails(ctx.files(), mf@, decls@.take(i + 1), decls@); }
                        return Err(e);
                    },
                    Ok(()) => {},
                }
            },
            Declaration::Scalar(sd) => match validate_scalar_declaration(sd, mf) {
                Err(e) => return Err(e),
                Ok(()) => {},
            },
            Declaration::MapDecl(md) => match validate_map_declaration(md, mf) {
                Err(e) => return Err(e),
                Ok(()) => {},
            },
        }
        i = i + 1;
    }
    assert(decls@.take(decls@.len() as int) == decls@);
    Ok(())
}

/// Check a scalar declaration. A scalar's default value and validator are
/// checked when instances are validated, so nothing here can fail.
fn validate_scalar_declaration(_sd: &ScalarDeclaration, _mf: &ModelFile) -> (r: Result<(), ConcertoError>)
    ensures
        r is Ok,
{
    Ok(())
}

/// Check a map declaration. Its key and value types are checked when instances
/// are validated, so nothing here can fail.
fn validate_map_declaration(_md: &MapDeclaration, _mf: &ModelFile) -> (r: Result<(), ConcertoError>)
    ensures
        r is Ok,
{
    Ok(())
}

/// Validate one class declaration of model file `mf`.
fn validate_class_declaration(cd: &ClassDeclaration, mf: &ModelFile, ctx: &ValidationContext<'_>)
    -> (r: Result<(), ConcertoError>)
    ensures
        same_outcome(r, class_outcome(ctx.files(), mf@, *cd)),
{
    let ghost files = ctx.files();
    let ghost m = mf@;
    match cd.super_type() {
        Some(t) => {
            let f = match resolve_type_identifier(t, mf) {
                Ok(f) => f,
                Err(e) => return Err(e),
            };
            match ctx.get_type(f.as_str()) {
                None => {
                    let msg = concat5("Super type '", f.as_str(), "' not found for '", cd.name(), "'");
                    return Err(illegal_model(msg, file_name_of(mf)));
                },
                Some(Declaration::Class(_)) => {},
                Some(_) => {
                    let msg = concat5("Super type '", f.as_str(), "' of '", cd.name(), "' is not a class declaration");
                    return Err(illegal_model(msg, file_name_of(mf)));
                },
            }
            match check_circular_inheritance(cd, mf, ctx) {
                Err(e) => return Err(e),
                Ok(()) => {},
            }
            proof {
                let n = choose|n: nat| #[trigger] walk_decl(files, m, *cd, n) is None;
                lemma_anc_on_walk(files, m, *cd, n);
                assert(strict_anc(files, m, *cd, n) is None);
            }
        },
        None => {
            proof {
                assert(strict_anc(files, m, *cd, 1) is None);
            }
        },
    }
    if cd.is_identified() && !cd.is_enum() {
        match validate_identifier_field(cd, mf, ctx) {
            Err(e) => return Err(e),
            Ok(()) => {},
        }
    }
    match check_duplicate_properties(cd, mf, ctx) {
        Err(e) => return Err(e),
        Ok(()) => {},
    }
    let props = cd.own_properties();
    let mut i: usize = 0;
    assert(props@.take(0) == Seq::<PropertyDecl>::empty());
    while i < props.len()
        invariant
            files == ctx.files(),
            m == mf@,
            props@ == cd.property_list(),
            super_outcome(files, m, *cd) is Ok,
            first_repeat(inherited_pairs(files, m, *cd)) is None,
            i <= props@.len(),
            properties_outcome(files, m, props@.take(i as int)) is Ok,
        decreases props@.len() - i,
    {
        assert(props@.take(i + 1).drop_last() == props@.take(i as int));
        match validate_property(&props[i], mf, ctx) {
            Err(e) => {
                proof { lemma_properties_outcome_fails(files, m, props@.take(i + 1), props@); }
                return Err(e);
            },
            Ok(()) => {},
        }
        i = i + 1;
    }
    assert(props@.take(props@.len() as int) == props@);
    Ok(())
}

/// Check the type a property refers to.
fn validate_property(prop: &PropertyDecl, mf: &ModelFile, ctx: &ValidationContext<'_>) -> (r: Result<(), ConcertoError>)
    ensures
        same_outcome(r, property_outcome(ctx.files(), mf@, *prop)),
{
    match prop {
        PropertyDecl::Object(p) => {
            let fqn = match resolve_type_identifier(&p.type_, mf) {
                Ok(f) => f,
                Err(e) => return Err(e),
            };
            if ctx.get_type(fqn.as_str()).is_none() && !is_primitive_type(p.type_.name.as_str()) {
                let msg = concat5("Type '", fqn.as_str(), "' not found for property '", p.name.as_str(), "'");
                return Err(illegal_model(msg, file_name_of(mf)));
            }
            Ok(())
        },
        PropertyDecl::Relationship(p) => {
            let fqn = match resolve_type_identifier(&p.type_, mf) {
                Ok(f) => f,
                Err(e) => return Err(e),
            };
            if is_primitive_type(p.type_.name.as_str()) {
                let msg = concat5("Relationship '", p.name.as_str(), "' cannot have primitive type '",
                    p.type_.name.as_str(), "'");
                return Err(illegal_model(msg, file_name_of(mf)));
            }
            match ctx.get_type(fqn.as_str()) {
                None => {
                    let msg = concat5("Relationship target type '", fqn.as_str(), "' not found for '",
                        p.name.as_str(), "'");
                    Err(illegal_model(msg, file_name_of(mf)))
                },
                Some(Declaration::Class(c)) => {
                    if !c.is_identified() {
                        let msg = concat5("Relationship '", p.name.as_str(),
                            "' must point to an identified type, but '", fqn.as_str(), "' is not identified");
                        Err(illegal_model(msg, file_name_of(mf)))
                    } else {
                        Ok(())
                    }
                },
                Some(_) => Ok(()),
            }
        },
        _ => Ok(()),
    }
}

} // verus!
