//! Which definition files count: the last file of a name overrides the earlier
//! ones, an empty file is void, and the stem of a file is the name of its
//! definition.

use vstd::prelude::*;
use crate::embedded_files::{
    embedded_dir_entry_paths, entry_paths, files_of, is_embedded_dir, is_existing_embedded_dir,
    PREFIX,
};
use crate::paths::{
    extension, extension_of, file_name, file_name_of, file_stem, file_stem_of, path_begins,
    starts_with,
};
use crate::rules::def::{RuleDef, RuleKind};
use crate::rules::error::RuleNameError;
use crate::rules::name::{valid_rule_name, RuleName};
use crate::text::str_eq;
use crate::text_set::{lemma_push_to_set, TextSet};
use crate::vars::def::{name_texts, VarDataType, VarDef, VarKind};
use crate::vars::error::VarNameError;
use crate::vars::name::{valid_var_name, VarName};
use crate::vecs::reversed;

verus! {

/// The extension of a definition file.
pub const DEF_EXTENSION: &'static str = "yaml";

/// Why a set of definition files is refused.
#[derive(Debug, Clone, PartialEq, Eq)]
pub enum FilesError {
    /// The path has no file name.
    NoFileName(String),
    /// The path has no stem to name a definition by.
    NoName(String),
    /// The stem of the path is no variable name.
    VarName(String, VarNameError),
    /// The stem of the path is no rule name.
    RuleName(String, RuleNameError),
    /// The directory could not be read; the system's words follow.
    ReadDir(String, String),
    /// The path is under the embedded prefix, and no embedded directory.
    UnknownEmbeddedDir(String),
    /// There is not one listing for each directory.
    ListingsMismatch,
}

impl FilesError {
    /// The path that the error speaks of; the empty text where it speaks of none.
    pub open spec fn path(self) -> Seq<char> {
        match self {
            FilesError::NoFileName(p) => p@,
            FilesError::NoName(p) => p@,
            FilesError::VarName(p, _) => p@,
            FilesError::RuleName(p, _) => p@,
            FilesError::ReadDir(p, _) => p@,
            FilesError::UnknownEmbeddedDir(p) => p@,
            FilesError::ListingsMismatch => Seq::empty(),
        }
    }
}

/// The texts of a run of paths.
pub open spec fn texts(paths: Seq<String>) -> Seq<Seq<char>> {
    paths.map_values(|p: String| p@)
}

/// The file name of each path; the path's own text stands for a missing one.
pub open spec fn file_names(paths: Seq<Seq<char>>) -> Seq<Seq<char>> {
    paths.map_values(
        |p: Seq<char>|
            match file_name_of(p) {
                Some(n) => n,
                None => p,
            },
    )
}

/// Every path has a file name.
pub open spec fn all_named(paths: Seq<Seq<char>>) -> bool {
    forall|i: int| 0 <= i < paths.len() ==> file_name_of(#[trigger] paths[i]) is Some
}

/// The name at place `i` does not come again later.
pub open spec fn is_last(names: Seq<Seq<char>>, i: int) -> bool {
    forall|j: int| i < j < names.len() ==> #[trigger] names[j] != names[i]
}

/// The paths from place `k` on whose file name does not come again later, last
/// first.
pub open spec fn uniques_rev(paths: Seq<Seq<char>>, names: Seq<Seq<char>>, k: int) -> Seq<
    Seq<char>,
>
    decreases paths.len() - k,
{
    if k >= paths.len() || k < 0 {
        Seq::empty()
    } else if is_last(names, k) {
        uniques_rev(paths, names, k + 1).push(paths[k])
    } else {
        uniques_rev(paths, names, k + 1)
    }
}

/// The paths from place `k` on whose file name comes again later, last first.
pub open spec fn overridden_rev(paths: Seq<Seq<char>>, names: Seq<Seq<char>>, k: int) -> Seq<
    Seq<char>,
>
    decreases paths.len() - k,
{
    if k >= paths.len() || k < 0 {
        Seq::empty()
    } else if !is_last(names, k) {
        overridden_rev(paths, names, k + 1).push(paths[k])
    } else {
        overridden_rev(paths, names, k + 1)
    }
}

/// The paths that count: those whose file name does not come again later, in
/// their order.
pub open spec fn unique_paths(paths: Seq<Seq<char>>) -> Seq<Seq<char>> {
    uniques_rev(paths, file_names(paths), 0).reverse()
}

/// The paths that are overridden: those whose file name comes again later, last
/// first.
pub open spec fn overridden_paths(paths: Seq<Seq<char>>) -> Seq<Seq<char>> {
    overridden_rev(paths, file_names(paths), 0)
}

/// How often `x` stands in `s`.
pub open spec fn occurrences(s: Seq<Seq<char>>, x: Seq<char>) -> nat
    decreases s.len(),
{
    if s.len() == 0 {
        0
    } else {
        occurrences(s.drop_last(), x) + if s.last() == x {
            1nat
        } else {
            0nat
        }
    }
}

/// What stands among the unique and among the overridden paths from place `k`
/// on, and how often.
pub proof fn lemma_split(paths: Seq<Seq<char>>, names: Seq<Seq<char>>, k: int, a: int)
    requires
        names.len() == paths.len(),
        0 <= k <= paths.len(),
        0 <= a < paths.len(),
        forall|i: int| 0 <= i < paths.len() && i != a ==> #[trigger] paths[i] != paths[a],
    ensures
        occurrences(uniques_rev(paths, names, k), paths[a]) == if k <= a && is_last(names, a) {
            1nat
        } else {
            0nat
        },
        occurrences(overridden_rev(paths, names, k), paths[a]) == if k <= a && !is_last(names, a) {
            1nat
        } else {
            0nat
        },
    decreases paths.len() - k,
{
    if k < paths.len() {
        lemma_split(paths, names, k + 1, a);
        let u = uniques_rev(paths, names, k + 1);
        let o = overridden_rev(paths, names, k + 1);
        assert(u.push(paths[k]).drop_last() =~= u);
        assert(o.push(paths[k]).drop_last() =~= o);
    }
}

/// Override semantics: where two paths have one file name and the later is the
/// last of that name, the later stands once among the paths that count and the
/// earlier does not stand there, but stands once among the overridden. This is
/// stated of paths that stand once in the list.
pub proof fn lemma_last_file_wins(paths: Seq<Seq<char>>, a: int, b: int)
    requires
        0 <= a < b < paths.len(),
        file_names(paths)[a] == file_names(paths)[b],
        is_last(file_names(paths), b),
        forall|i: int| 0 <= i < paths.len() && i != a ==> #[trigger] paths[i] != paths[a],
        forall|i: int| 0 <= i < paths.len() && i != b ==> #[trigger] paths[i] != paths[b],
    ensures
        occurrences(unique_paths(paths), paths[b]) == 1,
        occurrences(unique_paths(paths), paths[a]) == 0,
        occurrences(overridden_paths(paths), paths[a]) == 1,
        occurrences(overridden_paths(paths), paths[b]) == 0,
{
    let names = file_names(paths);
    lemma_split(paths, names, 0, a);
    lemma_split(paths, names, 0, b);
    assert(!is_last(names, a)) by {
        assert(names[b] == names[a]);
    }
    lemma_occurrences_reverse(uniques_rev(paths, names, 0), paths[a]);
    lemma_occurrences_reverse(uniques_rev(paths, names, 0), paths[b]);
}

/// A run holds a text as often as the run of its items in the other order.
pub proof fn lemma_occurrences_reverse(s: Seq<Seq<char>>, x: Seq<char>)
    ensures
        occurrences(s.reverse(), x) == occurrences(s, x),
    decreases s.len(),
{
    if s.len() > 0 {
        let r = s.reverse();
        // r = [s.last()] + s.drop_last().reverse()
        lemma_occurrences_reverse(s.drop_last(), x);
        assert(r.drop_first() =~= s.drop_last().reverse());
        lemma_occurrences_first(r, x);
    }
}

/// The occurrences of a text, counted from the first item.
pub proof fn lemma_occurrences_first(s: Seq<Seq<char>>, x: Seq<char>)
    requires
        s.len() > 0,
    ensures
        occurrences(s, x) == occurrences(s.drop_first(), x) + if s.first() == x {
            1nat
        } else {
            0nat
        },
    decreases s.len(),
{
    if s.len() > 1 {
        lemma_occurrences_first(s.drop_last(), x);
        assert(s.drop_last().drop_first() =~= s.drop_first().drop_last());
    } else {
        assert(s.drop_first() =~= Seq::<Seq<char>>::empty());
        assert(s.drop_last() =~= Seq::<Seq<char>>::empty());
    }
}

/// A path with its file name.
#[derive(Debug, Clone, PartialEq, Eq)]
pub struct NamedPath {
    pub path: String,
    pub file_name: String,
}

/// The paths of a run of named paths.
pub open spec fn named_paths(items: Seq<NamedPath>) -> Seq<Seq<char>> {
    items.map_values(|it: NamedPath| it.path@)
}

/// The file names of a run of named paths.
pub open spec fn named_names(items: Seq<NamedPath>) -> Seq<Seq<char>> {
    items.map_values(|it: NamedPath| it.file_name@)
}

/// Splits the paths into those that count and those that are overridden, by
/// the file names that come with them: of the paths with one file name the last
/// counts. The paths that count keep their order; the overridden come last first.
pub fn split_by_file_names(items: Vec<NamedPath>) -> (r: (Vec<String>, Vec<String>))
    ensures
        texts(r.0@) == uniques_rev(named_paths(items@), named_names(items@), 0).reverse(),
        texts(r.1@) == overridden_rev(named_paths(items@), named_names(items@), 0),
{
    let ghost all = named_paths(items@);
    let ghost names = named_names(items@);
    let mut unique_rev: Vec<String> = Vec::new();
    let mut overridden: Vec<String> = Vec::new();
    let mut used = TextSet::new();
    let mut rest = items;
    while rest.len() > 0
        invariant
            all == named_paths(items@),
            names == named_names(items@),
            rest@.len() <= all.len(),
            rest@ == items@.take(rest@.len() as int),
            used.wf(),
            forall|n: Seq<char>|
                used@.contains(n) <==> exists|j: int|
                    rest@.len() <= j < all.len() && #[trigger] names[j] == n,
            texts(unique_rev@) == uniques_rev(all, names, rest@.len() as int),
            texts(overridden@) == overridden_rev(all, names, rest@.len() as int),
        decreases rest@.len(),
    {
        let ghost before = rest@;
        let ghost used_before = used@;
        let ghost u = unique_rev@;
        let ghost o = overridden@;
        let item = rest.pop();
        let ghost k = rest@.len() as int;
        proof {
            assert(rest@ =~= items@.take(k));
            assert(before[k] == items@[k]);
        }
        match item {
            Some(named) => {
                assert(named.path@ == all[k]);
                assert(named.file_name@ == names[k]);
                let fresh = used.insert(named.file_name);
                proof {
                    assert(fresh == is_last(names, k)) by {
                        if !fresh {
                            let j = choose|j: int|
                                k + 1 <= j < all.len() && #[trigger] names[j] == names[k];
                            assert(names[j] == names[k]);
                        }
                    }
                    assert forall|n: Seq<char>|
                        used@.contains(n) <==> exists|j: int|
                            k <= j < all.len() && #[trigger] names[j] == n by {
                        if used_before.contains(n) {
                            let j = choose|j: int|
                                k + 1 <= j < all.len() && #[trigger] names[j] == n;
                            assert(k <= j < all.len() && names[j] == n);
                        }
                        if exists|j: int| k <= j < all.len() && #[trigger] names[j] == n {
                            let j = choose|j: int| k <= j < all.len() && #[trigger] names[j] == n;
                            if j > k {
                                assert(k + 1 <= j < all.len() && names[j] == n);
                            }
                        }
                    }
                }
                if fresh {
                    unique_rev.push(named.path);
                    proof {
                        assert(texts(unique_rev@) =~= texts(u).push(all[k]));
                    }
                } else {
                    overridden.push(named.path);
                    proof {
                        assert(texts(overridden@) =~= texts(o).push(all[k]));
                    }
                }
            },
            None => {},
        }
    }
    let unique = reversed(unique_rev);
    proof {
        assert(texts(unique@) =~= uniques_rev(all, names, 0).reverse());
    }
    (unique, overridden)
}

/// Splits the paths into those that count and those that are overridden: of
/// the paths with one file name the last counts. The paths that count keep their
/// order; the overridden come last first. A path without a file name is refused.
pub fn unique_and_overriden_paths_from(paths: Vec<String>) -> (r: Result<
    (Vec<String>, Vec<String>),
    FilesError,
>)
    ensures
        r is Ok <==> all_named(texts(paths@)),
        r matches Ok(split) ==> texts(split.0@) == unique_paths(texts(paths@)) && texts(split.1@)
            == overridden_paths(texts(paths@)),
        r matches Err(e) ==> (e matches FilesError::NoFileName(p) && file_name_of(p@) is None
            && texts(paths@).contains(p@)),
{
    let ghost all = texts(paths@);
    let mut rest = reversed(paths);
    let mut named: Vec<NamedPath> = Vec::new();
    while rest.len() > 0
        invariant
            all == texts(paths@),
            rest@.len() + named@.len() == all.len(),
            forall|j: int|
                0 <= j < rest@.len() ==> (#[trigger] rest@[j])@ == all[all.len() - 1 - j],
            forall|j: int| 0 <= j < named@.len() ==> file_name_of(#[trigger] all[j]) is Some,
            named_paths(named@) == all.take(named@.len() as int),
            named_names(named@) == file_names(all).take(named@.len() as int),
        decreases rest@.len(),
    {
        let ghost k = named@.len() as int;
        let ghost before = named@;
        let item = rest.pop();
        match item {
            Some(path) => {
                assert(path@ == all[k]);
                match file_name(path.as_str()) {
                    None => {
                        assert(all.contains(path@));
                        return Err(FilesError::NoFileName(path));
                    },
                    Some(name) => {
                        named.push(NamedPath { path, file_name: name });
                        proof {
                            assert(named_paths(named@) =~= named_paths(before).push(all[k]));
                            assert(named_names(named@) =~= named_names(before).push(
                                file_names(all)[k],
                            ));
                            assert(all.take(k + 1) =~= all.take(k).push(all[k]));
                            assert(file_names(all).take(k + 1) =~= file_names(all).take(k).push(
                                file_names(all)[k],
                            ));
                        }
                    },
                }
            },
            None => {},
        }
    }
    proof {
        assert(all.take(all.len() as int) =~= all);
        assert(file_names(all).take(all.len() as int) =~= file_names(all));
    }
    Ok(split_by_file_names(named))
}

/// A path with its extension, if it has one.
#[derive(Debug, Clone, PartialEq, Eq)]
pub struct PathExtension {
    pub path: String,
    pub extension: Option<String>,
}

/// The text of an extension, if there is one.
pub open spec fn extension_text(extension: Option<String>) -> Option<Seq<char>> {
    match extension {
        Some(e) => Some(e@),
        None => None,
    }
}

/// A run of paths with their extensions as mathematics.
pub open spec fn extension_views(items: Seq<PathExtension>) -> Seq<(Seq<char>, Option<Seq<char>>)> {
    items.map_values(|it: PathExtension| (it.path@, extension_text(it.extension)))
}

/// Each path with the extension that `std::path` gives it.
pub open spec fn with_extensions(paths: Seq<Seq<char>>) -> Seq<(Seq<char>, Option<Seq<char>>)> {
    paths.map_values(|p: Seq<char>| (p, extension_of(p)))
}

/// The paths whose extension is that of a definition file, in their order.
pub open spec fn definition_paths(items: Seq<(Seq<char>, Option<Seq<char>>)>) -> Seq<Seq<char>>
    decreases items.len(),
{
    if items.len() == 0 {
        Seq::empty()
    } else if items.last().1 == Some(DEF_EXTENSION@) {
        definition_paths(items.drop_last()).push(items.last().0)
    } else {
        definition_paths(items.drop_last())
    }
}

/// The paths with the extension of a definition file, in their order.
pub open spec fn yaml_paths(paths: Seq<Seq<char>>) -> Seq<Seq<char>> {
    definition_paths(with_extensions(paths))
}

/// The paths whose extension, as it comes with them, is that of a definition
/// file, in their order.
pub fn keep_definition_files(items: Vec<PathExtension>) -> (r: Vec<String>)
    ensures
        texts(r@) == definition_paths(extension_views(items@)),
{
    let ghost all = extension_views(items@);
    let mut rest = reversed(items);
    let mut out: Vec<String> = Vec::new();
    proof {
        assert(all.take(0) =~= Seq::<(Seq<char>, Option<Seq<char>>)>::empty());
    }
    while rest.len() > 0
        invariant
            all == extension_views(items@),
            rest@.len() <= all.len(),
            forall|j: int| 0 <= j < rest@.len() ==> rest@[j] == items@[all.len() - 1 - j],
            texts(out@) == definition_paths(all.take(all.len() - rest@.len())),
        decreases rest@.len(),
    {
        let ghost k = all.len() - rest@.len();
        let ghost before = out@;
        let item = rest.pop();
        match item {
            Some(it) => {
                assert(it == items@[k]);
                assert(all[k] == (it.path@, extension_text(it.extension)));
                let keep = match &it.extension {
                    Some(ext) => str_eq(ext.as_str(), DEF_EXTENSION),
                    None => false,
                };
                proof {
                    assert(all.take(k + 1).drop_last() =~= all.take(k));
                    assert(all.take(k + 1).last() == all[k]);
                }
                if keep {
                    out.push(it.path);
                    proof {
                        assert(texts(out@) =~= texts(before).push(all[k].0));
                    }
                }
            },
            None => {},
        }
    }
    proof {
        assert(all.take(all.len() as int) =~= all);
    }
    out
}

/// The paths with the extension of a definition file, in their order.
pub fn list_yaml_files(paths: Vec<String>) -> (r: Vec<String>)
    ensures
        texts(r@) == yaml_paths(texts(paths@)),
{
    let ghost all = texts(paths@);
    let mut rest = reversed(paths);
    let mut items: Vec<PathExtension> = Vec::new();
    while rest.len() > 0
        invariant
            all == texts(paths@),
            rest@.len() + items@.len() == all.len(),
            forall|j: int|
                0 <= j < rest@.len() ==> (#[trigger] rest@[j])@ == all[all.len() - 1 - j],
            extension_views(items@) == with_extensions(all).take(items@.len() as int),
        decreases rest@.len(),
    {
        let ghost k = items@.len() as int;
        let ghost before = items@;
        let item = rest.pop();
        match item {
            Some(path) => {
                assert(path@ == all[k]);
                let ext = extension(path.as_str());
                assert(extension_text(ext) == extension_of(all[k]));
                items.push(PathExtension { path, extension: ext });
                proof {
                    assert(extension_views(items@) =~= extension_views(before).push(
                        with_extensions(all)[k],
                    ));
                    assert(with_extensions(all).take(k + 1) =~= with_extensions(all).take(k).push(
                        with_extensions(all)[k],
                    ));
                }
            },
            None => {},
        }
    }
    proof {
        assert(with_extensions(all).take(all.len() as int) =~= with_extensions(all));
    }
    keep_definition_files(items)
}

/// What a variable definition file holds: the definition without its name.
#[derive(Debug, Clone, PartialEq, Eq)]
pub struct VarDefBody {
    pub data_type: VarDataType,
    pub categories: Vec<VarName>,
    pub kind: VarKind,
}

/// A definition file that was read: its path, and what it holds; nothing where
/// the file is empty.
#[derive(Debug, Clone, PartialEq, Eq)]
pub struct DefFile<B> {
    pub path: String,
    pub body: Option<B>,
}

/// The definition that a file of the stem `stem` with the body `body` gives.
pub open spec fn var_def_of(stem: Seq<char>, body: VarDefBody) -> crate::vars::def::VarDefView {
    crate::vars::def::VarDefView {
        name: stem,
        data_type: body.data_type,
        categories: name_texts(body.categories@),
        kind: body.kind@,
    }
}

/// The rule that a file of the stem `stem` with the body `body` gives.
pub open spec fn rule_def_of(stem: Seq<char>, body: RuleKind) -> crate::rules::def::RuleDefView {
    crate::rules::def::RuleDefView {
        name: stem,
        value_script: match body {
            RuleKind::StayupBool(d) => d.value_script@,
        },
    }
}

/// The stem of `path` is a variable name.
pub open spec fn names_var(path: Seq<char>) -> bool {
    file_stem_of(path) matches Some(stem) && valid_var_name(stem)
}

/// The stem of `path` is a rule name.
pub open spec fn names_rule(path: Seq<char>) -> bool {
    file_stem_of(path) matches Some(stem) && valid_rule_name(stem)
}

/// The variable definition of a file with the stem `stem` and the body `body`:
/// the stem, which is validated first, is its name; an empty file gives no
/// definition. `path` is the file's path, for the error.
pub fn var_def_named(stem: String, path: &str, body: Option<VarDefBody>) -> (r: Result<
    Option<VarDef>,
    FilesError,
>)
    ensures
        r is Ok <==> valid_var_name(stem@),
        r matches Ok(found) ==> (match body {
            Some(b) => found matches Some(d) && d@ == var_def_of(stem@, b),
            None => found is None,
        }),
        r matches Err(e) ==> (e matches FilesError::VarName(p, cause) && p@ == path@
            && crate::vars::name::var_name_verdict(stem) == Err::<String, VarNameError>(cause)),
{
    let name = match VarName::new(stem) {
        Ok(name) => name,
        Err(e) => {
            return Err(FilesError::VarName(path.to_owned(), e));
        },
    };
    match body {
        Some(b) => Ok(
            Some(VarDef { name, data_type: b.data_type, categories: b.categories, kind: b.kind }),
        ),
        None => Ok(None),
    }
}

/// The rule definition of a file with the stem `stem` and the body `body`: the
/// stem, which is validated first, is its name; an empty file gives no
/// definition. `path` is the file's path, for the error.
pub fn rule_def_named(stem: String, path: &str, body: Option<RuleKind>) -> (r: Result<
    Option<RuleDef>,
    FilesError,
>)
    ensures
        r is Ok <==> valid_rule_name(stem@),
        r matches Ok(found) ==> (match body {
            Some(b) => found matches Some(d) && d@ == rule_def_of(stem@, b),
            None => found is None,
        }),
        r matches Err(e) ==> (e matches FilesError::RuleName(p, cause) && p@ == path@
            && crate::rules::name::rule_name_verdict(stem) == Err::<String, RuleNameError>(
            cause,
        )),
{
    let name = match RuleName::new(stem) {
        Ok(name) => name,
        Err(e) => {
            return Err(FilesError::RuleName(path.to_owned(), e));
        },
    };
    match body {
        Some(kind) => Ok(Some(RuleDef { name, kind })),
        None => Ok(None),
    }
}

/// The variable definition of the file `path`: its name is the stem of the
/// path, which is validated first; an empty file gives no definition.
pub fn parse_var_def(path: &str, body: Option<VarDefBody>) -> (r: Result<
    Option<VarDef>,
    FilesError,
>)
    ensures
        r is Ok <==> names_var(path@),
        r matches Ok(found) ==> (match body {
            Some(b) => found matches Some(d) && d@ == var_def_of(file_stem_of(path@)->0, b),
            None => found is None,
        }),
        r matches Err(e) ==> (match file_stem_of(path@) {
            Some(_) => e matches FilesError::VarName(p, _) && p@ == path@,
            None => e matches FilesError::NoName(p) && p@ == path@,
        }),
{
    match file_stem(path) {
        Some(stem) => var_def_named(stem, path, body),
        None => Err(FilesError::NoName(path.to_owned())),
    }
}

/// The rule definition of the file `path`: its name is the stem of the path,
/// which is validated first; an empty file gives no definition.
pub fn parse_rule_def(path: &str, body: Option<RuleKind>) -> (r: Result<
    Option<RuleDef>,
    FilesError,
>)
    ensures
        r is Ok <==> names_rule(path@),
        r matches Ok(found) ==> (match body {
            Some(b) => found matches Some(d) && d@ == rule_def_of(file_stem_of(path@)->0, b),
            None => found is None,
        }),
        r matches Err(e) ==> (match file_stem_of(path@) {
            Some(_) => e matches FilesError::RuleName(p, _) && p@ == path@,
            None => e matches FilesError::NoName(p) && p@ == path@,
        }),
{
    match file_stem(path) {
        Some(stem) => rule_def_named(stem, path, body),
        None => Err(FilesError::NoName(path.to_owned())),
    }
}

/// The definitions of the first `n` files, void files left out.
pub open spec fn loaded_var_defs(files: Seq<DefFile<VarDefBody>>, n: int) -> Seq<
    crate::vars::def::VarDefView,
>
    decreases n,
{
    if n <= 0 {
        Seq::empty()
    } else {
        match files[n - 1].body {
            Some(b) => loaded_var_defs(files, n - 1).push(
                var_def_of(file_stem_of(files[n - 1].path@)->0, b),
            ),
            None => loaded_var_defs(files, n - 1),
        }
    }
}

/// The rules of the first `n` files, void files left out.
pub open spec fn loaded_rule_defs(files: Seq<DefFile<RuleKind>>, n: int) -> Seq<
    crate::rules::def::RuleDefView,
>
    decreases n,
{
    if n <= 0 {
        Seq::empty()
    } else {
        match files[n - 1].body {
            Some(b) => loaded_rule_defs(files, n - 1).push(
                rule_def_of(file_stem_of(files[n - 1].path@)->0, b),
            ),
            None => loaded_rule_defs(files, n - 1),
        }
    }
}

/// The file at place `i` is the first whose stem is no variable name.
pub open spec fn first_bad_var(files: Seq<DefFile<VarDefBody>>, i: int) -> bool {
    &&& 0 <= i < files.len()
    &&& !names_var(files[i].path@)
    &&& forall|j: int| 0 <= j < i ==> names_var((#[trigger] files[j]).path@)
}

/// The file at place `i` is the first whose stem is no rule name.
pub open spec fn first_bad_rule(files: Seq<DefFile<RuleKind>>, i: int) -> bool {
    &&& 0 <= i < files.len()
    &&& !names_rule(files[i].path@)
    &&& forall|j: int| 0 <= j < i ==> names_rule((#[trigger] files[j]).path@)
}

/// The variable definitions of the files that count, in their order. A file
/// whose stem is no variable name is refused, the first such file first; void
/// files give nothing.
pub fn load_var_defs(files: Vec<DefFile<VarDefBody>>) -> (r: Result<Vec<VarDef>, FilesError>)
    ensures
        r is Ok <==> forall|i: int|
            0 <= i < files@.len() ==> names_var((#[trigger] files@[i]).path@),
        r matches Ok(defs) ==> crate::categories::def_views(defs@) == loaded_var_defs(
            files@,
            files@.len() as int,
        ),
        r matches Err(e) ==> (e is VarName || e is NoName) && exists|i: int| #[trigger]
            first_bad_var(files@, i) && e.path() == files@[i].path@,
{
    let ghost all = files@;
    let mut rest = reversed(files);
    let mut defs: Vec<VarDef> = Vec::new();
    while rest.len() > 0
        invariant
            all == files@,
            rest@.len() <= all.len(),
            forall|j: int| 0 <= j < rest@.len() ==> rest@[j] == all[all.len() - 1 - j],
            forall|j: int|
                0 <= j < all.len() - rest@.len() ==> names_var((#[trigger] all[j]).path@),
            crate::categories::def_views(defs@) == loaded_var_defs(all, all.len() - rest@.len()),
        decreases rest@.len(),
    {
        let ghost k = all.len() - rest@.len();
        let ghost before = defs@;
        let item = rest.pop();
        match item {
            Some(file) => {
                assert(file == all[k]);
                match parse_var_def(file.path.as_str(), file.body) {
                    Ok(Some(def)) => {
                        defs.push(def);
                        proof {
                            assert(crate::categories::def_views(defs@)
                                =~= crate::categories::def_views(before).push(def@));
                        }
                    },
                    Ok(None) => {},
                    Err(e) => {
                        proof {
                            assert(first_bad_var(all, k));
                        }
                        return Err(e);
                    },
                }
            },
            None => {},
        }
    }
    Ok(defs)
}

/// The rule definitions of the files that count, in their order. A file whose
/// stem is no rule name is refused, the first such file first; void files give
/// nothing.
pub fn load_rule_defs(files: Vec<DefFile<RuleKind>>) -> (r: Result<Vec<RuleDef>, FilesError>)
    ensures
        r is Ok <==> forall|i: int|
            0 <= i < files@.len() ==> names_rule((#[trigger] files@[i]).path@),
        r matches Ok(defs) ==> crate::rule_manager::rule_views(defs@) == loaded_rule_defs(
            files@,
            files@.len() as int,
        ),
        r matches Err(e) ==> (e is RuleName || e is NoName) && exists|i: int| #[trigger]
            first_bad_rule(files@, i) && e.path() == files@[i].path@,
{
    let ghost all = files@;
    let mut rest = reversed(files);
    let mut defs: Vec<RuleDef> = Vec::new();
    while rest.len() > 0
        invariant
            all == files@,
            rest@.len() <= all.len(),
            forall|j: int| 0 <= j < rest@.len() ==> rest@[j] == all[all.len() - 1 - j],
            forall|j: int|
                0 <= j < all.len() - rest@.len() ==> names_rule((#[trigger] all[j]).path@),
            crate::rule_manager::rule_views(defs@) == loaded_rule_defs(
                all,
                all.len() - rest@.len(),
            ),
        decreases rest@.len(),
    {
        let ghost k = all.len() - rest@.len();
        let ghost before = defs@;
        let item = rest.pop();
        match item {
            Some(file) => {
                assert(file == all[k]);
                match parse_rule_def(file.path.as_str(), file.body) {
                    Ok(Some(def)) => {
                        defs.push(def);
                        proof {
                            assert(crate::rule_manager::rule_views(defs@)
                                =~= crate::rule_manager::rule_views(before).push(def@));
                        }
                    },
                    Ok(None) => {},
                    Err(e) => {
                        proof {
                            assert(first_bad_rule(all, k));
                        }
                        return Err(e);
                    },
                }
            },
            None => {},
        }
    }
    Ok(defs)
}

/// What looking for a directory gave.
#[derive(Debug, Clone, PartialEq, Eq)]
pub enum DirProbe {
    Exists,
    NotFound,
    /// The directory could not be read; the system's words follow.
    Failed(String),
}

/// The directory is kept: it is embedded, or was found.
pub open spec fn dir_kept(dir: Seq<char>, probe: DirProbe) -> bool {
    is_embedded_dir(dir) || probe is Exists
}

/// The directory could not be read, and is not embedded.
pub open spec fn dir_failed(dir: Seq<char>, probe: DirProbe) -> bool {
    !is_embedded_dir(dir) && probe is Failed
}

/// The directories among the first `n` that are kept, in their order.
pub open spec fn existing_dirs(dirs: Seq<Seq<char>>, probes: Seq<DirProbe>, n: int) -> Seq<
    Seq<char>,
>
    decreases n,
{
    if n <= 0 {
        Seq::empty()
    } else if dir_kept(dirs[n - 1], probes[n - 1]) {
        existing_dirs(dirs, probes, n - 1).push(dirs[n - 1])
    } else {
        existing_dirs(dirs, probes, n - 1)
    }
}

/// The directory at place `i` is the first that could not be read.
pub open spec fn first_failed_dir(dirs: Seq<Seq<char>>, probes: Seq<DirProbe>, i: int) -> bool {
    &&& 0 <= i < dirs.len()
    &&& dir_failed(dirs[i], probes[i])
    &&& forall|j: int| 0 <= j < i ==> !dir_failed(#[trigger] dirs[j], probes[j])
}

/// The directories that are there, in their order: the embedded ones, and those
/// that were found. `probes` says for each directory what looking for it gave. A
/// directory that could not be read is refused, the first such first.
pub fn into_existing_dirs(dirs: Vec<String>, probes: &Vec<DirProbe>) -> (r: Result<
    Vec<String>,
    FilesError,
>)
    ensures
        r is Ok <==> dirs@.len() == probes@.len() && forall|i: int|
            0 <= i < dirs@.len() ==> !dir_failed(#[trigger] texts(dirs@)[i], probes@[i]),
        r matches Ok(kept) ==> texts(kept@) == existing_dirs(
            texts(dirs@),
            probes@,
            dirs@.len() as int,
        ),
        r matches Err(e) ==> if dirs@.len() != probes@.len() {
            e is ListingsMismatch
        } else {
            e is ReadDir && exists|i: int| #[trigger]
                first_failed_dir(texts(dirs@), probes@, i) && e.path() == dirs@[i]@
        },
{
    if dirs.len() != probes.len() {
        return Err(FilesError::ListingsMismatch);
    }
    let ghost all = texts(dirs@);
    let mut rest = reversed(dirs);
    let mut kept: Vec<String> = Vec::new();
    while rest.len() > 0
        invariant
            all == texts(dirs@),
            all.len() == probes@.len(),
            rest@.len() <= all.len(),
            forall|j: int|
                0 <= j < rest@.len() ==> (#[trigger] rest@[j])@ == all[all.len() - 1 - j],
            forall|j: int|
                0 <= j < all.len() - rest@.len() ==> !dir_failed(#[trigger] all[j], probes@[j]),
            texts(kept@) == existing_dirs(all, probes@, all.len() - rest@.len()),
        decreases rest@.len(),
    {
        let ghost k = all.len() - rest@.len();
        let ghost before = kept@;
        let i = probes.len() - rest.len();
        let item = rest.pop();
        match item {
            Some(dir) => {
                assert(dir@ == all[k]);
                if is_existing_embedded_dir(dir.as_str()) {
                    kept.push(dir);
                    proof {
                        assert(texts(kept@) =~= texts(before).push(all[k]));
                    }
                } else {
                    match &probes[i] {
                        DirProbe::Exists => {
                            kept.push(dir);
                            proof {
                                assert(texts(kept@) =~= texts(before).push(all[k]));
                            }
                        },
                        DirProbe::NotFound => {},
                        DirProbe::Failed(text) => {
                            proof {
                                assert(first_failed_dir(all, probes@, k));
                            }
                            return Err(FilesError::ReadDir(dir, text.clone()));
                        },
                    }
                }
            },
            None => {},
        }
    }
    Ok(kept)
}

/// The entries of the directory `dir`: those of the embedded directory where
/// `dir` is under the embedded prefix, else the listing that was read.
pub open spec fn entries_of(dir: Seq<char>, listing: Seq<Seq<char>>) -> Seq<Seq<char>> {
    if path_begins(dir, PREFIX@) {
        entry_paths(dir, files_of(dir))
    } else {
        listing
    }
}

/// The directory is under the embedded prefix, and is no embedded directory.
pub open spec fn dir_unknown(dir: Seq<char>) -> bool {
    path_begins(dir, PREFIX@) && !is_embedded_dir(dir)
}

/// The listings of a run of directories as texts.
pub open spec fn listing_texts(listings: Seq<Vec<String>>) -> Seq<Seq<Seq<char>>> {
    listings.map_values(|l: Vec<String>| texts(l@))
}

/// The entries of the first `n` directories, one directory after the other.
pub open spec fn all_entries(dirs: Seq<Seq<char>>, listings: Seq<Seq<Seq<char>>>, n: int) -> Seq<
    Seq<char>,
>
    decreases n,
{
    if n <= 0 {
        Seq::empty()
    } else {
        all_entries(dirs, listings, n - 1) + entries_of(dirs[n - 1], listings[n - 1])
    }
}

/// The directory at place `i` is the first unknown one.
pub open spec fn first_unknown_dir(dirs: Seq<Seq<char>>, i: int) -> bool {
    &&& 0 <= i < dirs.len()
    &&& dir_unknown(dirs[i])
    &&& forall|j: int| 0 <= j < i ==> !dir_unknown(#[trigger] dirs[j])
}

/// The entries of the directory `dir`, where it is given whether the directory
/// stands under the embedded prefix: then they are those of the embedded
/// directory, and a directory that is not embedded is refused; else they are the
/// listing that was read.
pub fn entries_of_dir(dir: &str, under_prefix: bool, listing: &Vec<String>) -> (r: Result<
    Vec<String>,
    FilesError,
>)
    ensures
        r is Ok <==> !(under_prefix && !is_embedded_dir(dir@)),
        r matches Ok(entries) ==> texts(entries@) == if under_prefix {
            entry_paths(dir@, files_of(dir@))
        } else {
            texts(listing@)
        },
        r matches Err(e) ==> (e matches FilesError::UnknownEmbeddedDir(d) && d@ == dir@),
{
    if under_prefix {
        match embedded_dir_entry_paths(dir) {
            Ok(entries) => Ok(entries),
            Err(_) => Err(FilesError::UnknownEmbeddedDir(dir.to_owned())),
        }
    } else {
        let mut out: Vec<String> = Vec::new();
        let mut j: usize = 0;
        while j < listing.len()
            invariant
                j <= listing.len(),
                texts(out@) == texts(listing@).take(j as int),
            decreases listing.len() - j,
        {
            let ghost cur = out@;
            out.push(listing[j].clone());
            proof {
                assert(texts(out@) =~= texts(cur).push(listing@[j as int]@));
                assert(texts(listing@).take(j as int + 1) =~= texts(listing@).take(j as int).push(
                    listing@[j as int]@,
                ));
            }
            j += 1;
        }
        proof {
            assert(texts(listing@).take(listing@.len() as int) =~= texts(listing@));
            assert(texts(listing@).take(0) =~= Seq::<Seq<char>>::empty());
        }
        Ok(out)
    }
}

/// The paths of the entries of the directories, one directory after the other.
/// `listings` holds for each directory the entries that were read; those of an
/// embedded directory are taken from what the daemon brings with it. A directory
/// under the embedded prefix that is not embedded is refused.
pub fn dirs_entry_paths(dirs: &Vec<String>, listings: &Vec<Vec<String>>) -> (r: Result<
    Vec<String>,
    FilesError,
>)
    ensures
        r is Ok <==> dirs@.len() == listings@.len() && forall|i: int|
            0 <= i < dirs@.len() ==> !dir_unknown(#[trigger] texts(dirs@)[i]),
        r matches Ok(paths) ==> texts(paths@) == all_entries(
            texts(dirs@),
            listing_texts(listings@),
            dirs@.len() as int,
        ),
        r matches Err(e) ==> if dirs@.len() != listings@.len() {
            e is ListingsMismatch
        } else {
            e is UnknownEmbeddedDir && exists|i: int| #[trigger]
                first_unknown_dir(texts(dirs@), i) && e.path() == dirs@[i]@
        },
{
    if dirs.len() != listings.len() {
        return Err(FilesError::ListingsMismatch);
    }
    let ghost all = texts(dirs@);
    let ghost lists = listing_texts(listings@);
    let mut out: Vec<String> = Vec::new();
    let mut i: usize = 0;
    while i < dirs.len()
        invariant
            i <= dirs.len(),
            all == texts(dirs@),
            lists == listing_texts(listings@),
            dirs@.len() == listings@.len(),
            forall|j: int| 0 <= j < i ==> !dir_unknown(#[trigger] all[j]),
            texts(out@) == all_entries(all, lists, i as int),
        decreases dirs.len() - i,
    {
        let ghost before = out@;
        assert(all[i as int] == dirs@[i as int]@);
        assert(lists[i as int] == texts(listings@[i as int]@));
        let under = starts_with(dirs[i].as_str(), PREFIX);
        match entries_of_dir(dirs[i].as_str(), under, &listings[i]) {
            Ok(mut entries) => {
                let ghost added = entries@;
                out.append(&mut entries);
                proof {
                    assert(texts(out@) =~= texts(before) + texts(added));
                }
            },
            Err(e) => {
                proof {
                    assert(first_unknown_dir(all, i as int));
                }
                return Err(e);
            },
        }
        i += 1;
    }
    Ok(out)
}

/// The definition files in the directories, one directory after the other: the
/// entries that end in the extension of a definition file.
pub fn list_yaml_files_in_dirs(dirs: &Vec<String>, listings: &Vec<Vec<String>>) -> (r: Result<
    Vec<String>,
    FilesError,
>)
    ensures
        r is Ok <==> dirs@.len() == listings@.len() && forall|i: int|
            0 <= i < dirs@.len() ==> !dir_unknown(#[trigger] texts(dirs@)[i]),
        r matches Ok(paths) ==> texts(paths@) == yaml_paths(
            all_entries(texts(dirs@), listing_texts(listings@), dirs@.len() as int),
        ),
        r matches Err(e) ==> if dirs@.len() != listings@.len() {
            e is ListingsMismatch
        } else {
            e is UnknownEmbeddedDir && exists|i: int| #[trigger]
                first_unknown_dir(texts(dirs@), i) && e.path() == dirs@[i]@
        },
{
    match dirs_entry_paths(dirs, listings) {
        Ok(paths) => Ok(list_yaml_files(paths)),
        Err(e) => Err(e),
    }
}

} // verus!
