//! Which definitions are loaded from a stack of directories: the last file of a
//! name decides, whether it holds a definition or is void.

use vstd::prelude::*;
use crate::categories::def_names;
use crate::files::{
    all_entries, definition_paths, entries_of, file_names, is_last, loaded_var_defs,
    overridden_paths, overridden_rev, unique_paths, uniques_rev, var_def_of, with_extensions,
    yaml_paths, DefFile, VarDefBody, DEF_EXTENSION,
};
use crate::paths::{extension_of, file_name_of, file_stem_of};
use crate::text_map::distinct;
use crate::vars::def::VarDefView;

verus! {

/// The file name by which a path counts: its file name, or its own text where
/// it has none.
pub open spec fn name_of(path: Seq<char>) -> Seq<char> {
    match file_name_of(path) {
        Some(n) => n,
        None => path,
    }
}

/// No two paths of the run have one file name.
pub open spec fn names_distinct(paths: Seq<Seq<char>>) -> bool {
    forall|i: int, j: int|
        0 <= i < j < paths.len() ==> name_of(#[trigger] paths[i]) != name_of(#[trigger] paths[j])
}

/// The path `x` stands at a place from `k` on where it is the last of its file
/// name.
pub open spec fn last_from(paths: Seq<Seq<char>>, k: int, x: Seq<char>) -> bool {
    exists|i: int|
        k <= i < paths.len() && #[trigger] paths[i] == x && is_last(file_names(paths), i)
}

/// What stands among the paths that count from place `k` on: the paths that are
/// the last of their file name, no two of one file name.
pub proof fn lemma_uniques_rev(paths: Seq<Seq<char>>, k: int)
    requires
        0 <= k <= paths.len(),
    ensures
        forall|x: Seq<char>|
            uniques_rev(paths, file_names(paths), k).contains(x) <==> #[trigger] last_from(
                paths,
                k,
                x,
            ),
        names_distinct(uniques_rev(paths, file_names(paths), k)),
    decreases paths.len() - k,
{
    let names = file_names(paths);
    let here = uniques_rev(paths, names, k);
    if k < paths.len() {
        lemma_uniques_rev(paths, k + 1);
        let later = uniques_rev(paths, names, k + 1);
        assert forall|x: Seq<char>| here.contains(x) <==> #[trigger] last_from(paths, k, x) by {
            if here.contains(x) {
                let m = choose|m: int| 0 <= m < here.len() && here[m] == x;
                if m < later.len() {
                    assert(later[m] == x);
                    assert(later.contains(x));
                    assert(last_from(paths, k + 1, x));
                    let i = choose|i: int|
                        k + 1 <= i < paths.len() && #[trigger] paths[i] == x && is_last(names, i);
                    assert(k <= i < paths.len() && paths[i] == x && is_last(names, i));
                } else {
                    assert(paths[k] == x && is_last(names, k));
                }
            }
            if last_from(paths, k, x) {
                let i = choose|i: int|
                    k <= i < paths.len() && #[trigger] paths[i] == x && is_last(names, i);
                if i == k {
                    assert(here[here.len() - 1] == x);
                } else {
                    assert(k + 1 <= i < paths.len() && paths[i] == x && is_last(names, i));
                    assert(last_from(paths, k + 1, x));
                    assert(later.contains(x));
                    let m = choose|m: int| 0 <= m < later.len() && later[m] == x;
                    assert(here[m] == x);
                }
            }
        }
        assert forall|a: int, b: int| 0 <= a < b < here.len() implies name_of(#[trigger] here[a])
            != name_of(#[trigger] here[b]) by {
            if b < later.len() {
                assert(later[a] == here[a] && later[b] == here[b]);
            } else {
                assert(later[a] == here[a]);
                assert(later.contains(later[a]));
                assert(last_from(paths, k + 1, later[a]));
                let i = choose|i: int|
                    k + 1 <= i < paths.len() && #[trigger] paths[i] == later[a] && is_last(
                        names,
                        i,
                    );
                assert(names[i] == name_of(paths[i]));
                assert(names[k] == name_of(paths[k]));
                assert(here[b] == paths[k]);
            }
        }
    } else {
        assert forall|x: Seq<char>| here.contains(x) <==> #[trigger] last_from(paths, k, x) by {}
    }
}

/// What stands among the paths that count: the paths that are the last of their
/// file name, no two of one file name.
pub proof fn lemma_unique_paths(paths: Seq<Seq<char>>)
    ensures
        forall|x: Seq<char>| unique_paths(paths).contains(x) <==> #[trigger] last_from(paths, 0, x),
        names_distinct(unique_paths(paths)),
{
    let rev = uniques_rev(paths, file_names(paths), 0);
    let counted = unique_paths(paths);
    lemma_uniques_rev(paths, 0);
    assert forall|x: Seq<char>| counted.contains(x) <==> #[trigger] last_from(paths, 0, x) by {
        if counted.contains(x) {
            let m = choose|m: int| 0 <= m < counted.len() && counted[m] == x;
            assert(rev[rev.len() - 1 - m] == x);
            assert(rev.contains(x));
        }
        if last_from(paths, 0, x) {
            assert(rev.contains(x));
            let m = choose|m: int| 0 <= m < rev.len() && rev[m] == x;
            assert(counted[rev.len() - 1 - m] == x);
        }
    }
    assert forall|a: int, b: int| 0 <= a < b < counted.len() implies name_of(
        #[trigger] counted[a],
    ) != name_of(#[trigger] counted[b]) by {
        let a0 = rev.len() - 1 - a;
        let b0 = rev.len() - 1 - b;
        assert(counted[a] == rev[a0] && counted[b] == rev[b0]);
        assert(name_of(rev[b0]) != name_of(rev[a0]));
    }
}

/// What reading the files gave: the body of each path whose file holds a
/// definition. A path without a body is a void file.
pub type Bodies = Map<Seq<char>, VarDefBody>;

/// The definition that the file `path` gives: its stem is the name.
pub open spec fn def_of(path: Seq<char>, bodies: Bodies) -> VarDefView {
    var_def_of(file_stem_of(path)->0, bodies[path])
}

/// The definitions of the first `n` paths, void files left out.
pub open spec fn defs_of_paths(paths: Seq<Seq<char>>, bodies: Bodies, n: int) -> Seq<VarDefView>
    decreases n,
{
    if n <= 0 {
        Seq::empty()
    } else if bodies.contains_key(paths[n - 1]) {
        defs_of_paths(paths, bodies, n - 1).push(def_of(paths[n - 1], bodies))
    } else {
        defs_of_paths(paths, bodies, n - 1)
    }
}

/// The definitions that are loaded from the definition files `paths`, which
/// stand in the order of their directories: those of the paths that count.
pub open spec fn var_defs_of(paths: Seq<Seq<char>>, bodies: Bodies) -> Seq<VarDefView> {
    defs_of_paths(unique_paths(paths), bodies, unique_paths(paths).len() as int)
}

/// The definition `d` is that of one of the first `n` paths.
pub open spec fn given_by(paths: Seq<Seq<char>>, bodies: Bodies, n: int, d: VarDefView) -> bool {
    exists|i: int|
        0 <= i < n && bodies.contains_key(#[trigger] paths[i]) && d == def_of(paths[i], bodies)
}

/// Every path has a stem.
pub open spec fn all_stemmed(paths: Seq<Seq<char>>) -> bool {
    forall|i: int| 0 <= i < paths.len() ==> file_stem_of(#[trigger] paths[i]) is Some
}

/// Paths of one stem have one file name, as holds of files of one extension.
pub open spec fn stems_tell_names(paths: Seq<Seq<char>>) -> bool {
    forall|i: int, j: int|
        0 <= i < paths.len() && 0 <= j < paths.len() && file_stem_of(#[trigger] paths[i])
            == file_stem_of(#[trigger] paths[j]) ==> name_of(paths[i]) == name_of(paths[j])
}

/// The definition `d` is that of a path among `paths` other than `x`.
pub open spec fn given_by_other(
    paths: Seq<Seq<char>>,
    bodies: Bodies,
    d: VarDefView,
    x: Seq<char>,
) -> bool {
    exists|i: int|
        0 <= i < paths.len() && bodies.contains_key(#[trigger] paths[i]) && paths[i] != x && d
            == def_of(paths[i], bodies)
}

/// The definitions of paths are those of the paths with a body.
pub proof fn lemma_defs_members(paths: Seq<Seq<char>>, bodies: Bodies, n: int)
    requires
        0 <= n <= paths.len(),
    ensures
        forall|d: VarDefView|
            defs_of_paths(paths, bodies, n).contains(d) <==> #[trigger] given_by(
                paths,
                bodies,
                n,
                d,
            ),
    decreases n,
{
    let here = defs_of_paths(paths, bodies, n);
    if n > 0 {
        lemma_defs_members(paths, bodies, n - 1);
        let before = defs_of_paths(paths, bodies, n - 1);
        assert forall|d: VarDefView| here.contains(d) <==> #[trigger] given_by(
            paths,
            bodies,
            n,
            d,
        ) by {
            if here.contains(d) {
                let m = choose|m: int| 0 <= m < here.len() && here[m] == d;
                if m < before.len() {
                    assert(before[m] == d);
                    assert(before.contains(d));
                    assert(given_by(paths, bodies, n - 1, d));
                    let i = choose|i: int|
                        0 <= i < n - 1 && bodies.contains_key(#[trigger] paths[i]) && d == def_of(
                            paths[i],
                            bodies,
                        );
                    assert(0 <= i < n && bodies.contains_key(paths[i]) && d == def_of(
                        paths[i],
                        bodies,
                    ));
                } else {
                    assert(bodies.contains_key(paths[n - 1]) && d == def_of(paths[n - 1], bodies));
                }
            }
            if given_by(paths, bodies, n, d) {
                let i = choose|i: int|
                    0 <= i < n && bodies.contains_key(#[trigger] paths[i]) && d == def_of(
                        paths[i],
                        bodies,
                    );
                if i == n - 1 {
                    assert(here[here.len() - 1] == d);
                } else {
                    assert(0 <= i < n - 1 && bodies.contains_key(paths[i]) && d == def_of(
                        paths[i],
                        bodies,
                    ));
                    assert(given_by(paths, bodies, n - 1, d));
                    assert(before.contains(d));
                    let m = choose|m: int| 0 <= m < before.len() && before[m] == d;
                    assert(here[m] == d);
                }
            }
        }
    } else {
        assert forall|d: VarDefView| here.contains(d) <==> #[trigger] given_by(
            paths,
            bodies,
            n,
            d,
        ) by {}
    }
}

/// The definitions of paths have distinct names where the paths have distinct
/// file names, every path has a stem, and paths of one stem have one file name.
pub proof fn lemma_defs_of_paths(paths: Seq<Seq<char>>, bodies: Bodies, n: int)
    requires
        0 <= n <= paths.len(),
        names_distinct(paths),
        all_stemmed(paths),
        stems_tell_names(paths),
    ensures
        distinct(def_names(defs_of_paths(paths, bodies, n))),
    decreases n,
{
    let here = defs_of_paths(paths, bodies, n);
    if n > 0 {
        lemma_defs_of_paths(paths, bodies, n - 1);
        lemma_defs_members(paths, bodies, n - 1);
        let before = defs_of_paths(paths, bodies, n - 1);
        let names = def_names(here);
        assert forall|a: int, b: int| 0 <= a < b < names.len() implies names[a] != names[b] by {
            if b < before.len() {
                assert(def_names(before)[a] == names[a]);
                assert(def_names(before)[b] == names[b]);
            } else {
                assert(before[a] == here[a]);
                assert(before.contains(before[a]));
                assert(given_by(paths, bodies, n - 1, before[a]));
                let i = choose|i: int|
                    0 <= i < n - 1 && bodies.contains_key(#[trigger] paths[i]) && before[a]
                        == def_of(paths[i], bodies);
                assert(here[b] == def_of(paths[n - 1], bodies));
                if names[a] == names[b] {
                    assert(file_stem_of(paths[i])->0 == file_stem_of(paths[n - 1])->0);
                    assert(file_stem_of(paths[i]) is Some);
                    assert(file_stem_of(paths[n - 1]) is Some);
                    assert(file_stem_of(paths[i]) == file_stem_of(paths[n - 1]));
                    assert(name_of(paths[i]) == name_of(paths[n - 1]));
                }
            }
        }
    }
}

/// The path `x` stands at a place from `k` on where its file name comes again
/// later.
pub open spec fn overridden_from(paths: Seq<Seq<char>>, k: int, x: Seq<char>) -> bool {
    exists|i: int|
        k <= i < paths.len() && #[trigger] paths[i] == x && !is_last(file_names(paths), i)
}

/// What stands among the overridden paths from place `k` on: the paths whose
/// file name comes again later.
pub proof fn lemma_overridden_rev(paths: Seq<Seq<char>>, k: int)
    requires
        0 <= k <= paths.len(),
    ensures
        forall|x: Seq<char>|
            overridden_rev(paths, file_names(paths), k).contains(x) <==> #[trigger] overridden_from(
                paths,
                k,
                x,
            ),
    decreases paths.len() - k,
{
    let names = file_names(paths);
    let here = overridden_rev(paths, names, k);
    if k < paths.len() {
        lemma_overridden_rev(paths, k + 1);
        let later = overridden_rev(paths, names, k + 1);
        assert forall|x: Seq<char>| here.contains(x) <==> #[trigger] overridden_from(
            paths,
            k,
            x,
        ) by {
            if here.contains(x) {
                let m = choose|m: int| 0 <= m < here.len() && here[m] == x;
                if m < later.len() {
                    assert(later[m] == x);
                    assert(later.contains(x));
                    assert(overridden_from(paths, k + 1, x));
                    let i = choose|i: int|
                        k + 1 <= i < paths.len() && #[trigger] paths[i] == x && !is_last(names, i);
                    assert(k <= i < paths.len() && paths[i] == x && !is_last(names, i));
                } else {
                    assert(paths[k] == x && !is_last(names, k));
                }
            }
            if overridden_from(paths, k, x) {
                let i = choose|i: int|
                    k <= i < paths.len() && #[trigger] paths[i] == x && !is_last(names, i);
                if i == k {
                    assert(here[here.len() - 1] == x);
                } else {
                    assert(k + 1 <= i < paths.len() && paths[i] == x && !is_last(names, i));
                    assert(overridden_from(paths, k + 1, x));
                    assert(later.contains(x));
                    let m = choose|m: int| 0 <= m < later.len() && later[m] == x;
                    assert(here[m] == x);
                }
            }
        }
    } else {
        assert forall|x: Seq<char>| here.contains(x) <==> #[trigger] overridden_from(
            paths,
            k,
            x,
        ) by {}
    }
}

/// One definition of a name. `paths` are the definition files in the order of
/// their directories, every one has a stem, and files of one stem have one file
/// name; the file at place `b` is the last of its name. Then the loaded
/// definitions have distinct names; where the file holds a definition, that
/// definition is loaded, and no other of its name; where the file is void, no
/// definition of its name is loaded. Every other file of that name, which stands
/// before it, is overridden and gives nothing.
pub proof fn lemma_last_file_decides(paths: Seq<Seq<char>>, bodies: Bodies, b: int)
    requires
        0 <= b < paths.len(),
        is_last(file_names(paths), b),
        all_stemmed(paths),
        stems_tell_names(paths),
    ensures
        distinct(def_names(var_defs_of(paths, bodies))),
        unique_paths(paths).contains(paths[b]),
        bodies.contains_key(paths[b]) ==> var_defs_of(paths, bodies).contains(
            def_of(paths[b], bodies),
        ),
        forall|d: VarDefView|
            #[trigger] var_defs_of(paths, bodies).contains(d) && d.name == file_stem_of(
                paths[b],
            )->0 ==> bodies.contains_key(paths[b]) && d == def_of(paths[b], bodies),
        forall|a: int|
            0 <= a < paths.len() && name_of(#[trigger] paths[a]) == name_of(paths[b]) && paths[a]
                != paths[b] ==> a < b && !unique_paths(paths).contains(paths[a])
                && overridden_paths(paths).contains(paths[a]),
{
    let names = file_names(paths);
    let counted = unique_paths(paths);
    let n = counted.len() as int;
    lemma_unique_paths(paths);
    lemma_overridden_rev(paths, 0);
    // Every path that counts is one of the paths, at a place where it is the last.
    assert forall|m: int| 0 <= m < counted.len() implies file_stem_of(
        #[trigger] counted[m],
    ) is Some by {
        assert(counted.contains(counted[m]));
        assert(last_from(paths, 0, counted[m]));
    }
    assert forall|i: int, j: int|
        0 <= i < counted.len() && 0 <= j < counted.len() && file_stem_of(#[trigger] counted[i])
            == file_stem_of(#[trigger] counted[j]) implies name_of(counted[i]) == name_of(
        counted[j],
    ) by {
        assert(counted.contains(counted[i]));
        assert(counted.contains(counted[j]));
        assert(last_from(paths, 0, counted[i]));
        assert(last_from(paths, 0, counted[j]));
        let i0 = choose|k: int|
            0 <= k < paths.len() && #[trigger] paths[k] == counted[i] && is_last(names, k);
        let j0 = choose|k: int|
            0 <= k < paths.len() && #[trigger] paths[k] == counted[j] && is_last(names, k);
        assert(file_stem_of(paths[i0]) == file_stem_of(paths[j0]));
    }
    lemma_defs_of_paths(counted, bodies, n);
    lemma_defs_members(counted, bodies, n);
    assert(paths[b] == paths[b] && is_last(names, b));
    assert(last_from(paths, 0, paths[b]));
    assert(counted.contains(paths[b]));
    let mb = choose|m: int| 0 <= m < counted.len() && counted[m] == paths[b];
    if bodies.contains_key(paths[b]) {
        assert(bodies.contains_key(counted[mb]) && def_of(paths[b], bodies) == def_of(
            counted[mb],
            bodies,
        ));
        assert(given_by(counted, bodies, n, def_of(paths[b], bodies)));
    }
    assert forall|d: VarDefView|
        #[trigger] var_defs_of(paths, bodies).contains(d) && d.name == file_stem_of(
            paths[b],
        )->0 implies bodies.contains_key(paths[b]) && d == def_of(paths[b], bodies) by {
        assert(given_by(counted, bodies, n, d));
        let i = choose|i: int|
            0 <= i < n && bodies.contains_key(#[trigger] counted[i]) && d == def_of(
                counted[i],
                bodies,
            );
        assert(file_stem_of(counted[i]) is Some);
        assert(file_stem_of(counted[mb]) is Some);
        assert(file_stem_of(counted[i]) == file_stem_of(counted[mb]));
        assert(name_of(counted[i]) == name_of(counted[mb]));
        if i < mb {
            assert(name_of(counted[i]) != name_of(counted[mb]));
        }
        if mb < i {
            assert(name_of(counted[mb]) != name_of(counted[i]));
        }
        assert(i == mb);
    }
    assert forall|a: int|
        0 <= a < paths.len() && name_of(#[trigger] paths[a]) == name_of(paths[b]) && paths[a]
            != paths[b] implies a < b && !counted.contains(paths[a]) && overridden_paths(
        paths,
    ).contains(paths[a]) by {
        assert(names[a] == name_of(paths[a]));
        assert(names[b] == name_of(paths[b]));
        if a > b {
            assert(names[a] != names[b]);
        }
        assert(a < b);
        assert(!is_last(names, a));
        assert(overridden_from(paths, 0, paths[a]));
        if counted.contains(paths[a]) {
            assert(last_from(paths, 0, paths[a]));
            let i = choose|i: int|
                0 <= i < paths.len() && #[trigger] paths[i] == paths[a] && is_last(names, i);
            assert(names[i] == name_of(paths[i]));
            if i < b {
                assert(names[b] != names[i]);
            }
            if i > b {
                assert(names[i] != names[b]);
            }
            assert(i == b);
        }
    }
}

/// The last file of a name overrides an earlier one. `paths` are the definition
/// files in the order of their directories; the file at place `b` is the last of
/// its name, and the file at place `a` is another file of that name. Then the file
/// at `a` stands before, is overridden and does not count, and the file at `b`
/// counts. Where the file at `b` holds a definition, that definition is loaded;
/// where it is void, nothing is loaded from it. Nothing is ever loaded from the
/// file at `a`.
pub proof fn lemma_last_file_overrides(paths: Seq<Seq<char>>, bodies: Bodies, a: int, b: int)
    requires
        0 <= a < paths.len(),
        0 <= b < paths.len(),
        is_last(file_names(paths), b),
        name_of(paths[a]) == name_of(paths[b]),
        paths[a] != paths[b],
    ensures
        a < b,
        unique_paths(paths).contains(paths[b]),
        !unique_paths(paths).contains(paths[a]),
        overridden_paths(paths).contains(paths[a]),
        bodies.contains_key(paths[b]) ==> var_defs_of(paths, bodies).contains(
            def_of(paths[b], bodies),
        ),
        forall|d: VarDefView|
            #[trigger] var_defs_of(paths, bodies).contains(d) ==> given_by_other(
                unique_paths(paths),
                bodies,
                d,
                paths[a],
            ),
        !bodies.contains_key(paths[b]) ==> forall|d: VarDefView|
            #[trigger] var_defs_of(paths, bodies).contains(d) ==> given_by_other(
                unique_paths(paths),
                bodies,
                d,
                paths[b],
            ),
{
    let names = file_names(paths);
    let counted = unique_paths(paths);
    let n = counted.len() as int;
    lemma_unique_paths(paths);
    lemma_overridden_rev(paths, 0);
    lemma_defs_members(counted, bodies, n);
    assert(names[a] == name_of(paths[a]));
    assert(names[b] == name_of(paths[b]));
    if a > b {
        assert(names[a] != names[b]);
    }
    assert(!is_last(names, a));
    assert(overridden_from(paths, 0, paths[a]));
    assert(paths[b] == paths[b] && is_last(names, b));
    assert(last_from(paths, 0, paths[b]));
    if counted.contains(paths[a]) {
        assert(last_from(paths, 0, paths[a]));
        let i = choose|i: int|
            0 <= i < paths.len() && #[trigger] paths[i] == paths[a] && is_last(names, i);
        assert(names[i] == name_of(paths[i]));
        if i < b {
            assert(names[b] != names[i]);
        }
        if i > b {
            assert(names[i] != names[b]);
        }
        assert(i == b);
    }
    let mb = choose|m: int| 0 <= m < counted.len() && counted[m] == paths[b];
    if bodies.contains_key(paths[b]) {
        assert(bodies.contains_key(counted[mb]) && def_of(paths[b], bodies) == def_of(
            counted[mb],
            bodies,
        ));
        assert(given_by(counted, bodies, n, def_of(paths[b], bodies)));
    }
    assert forall|d: VarDefView| #[trigger]
        var_defs_of(paths, bodies).contains(d) implies given_by_other(
        counted,
        bodies,
        d,
        paths[a],
    ) by {
        assert(given_by(counted, bodies, n, d));
        let i = choose|i: int|
            0 <= i < n && bodies.contains_key(#[trigger] counted[i]) && d == def_of(
                counted[i],
                bodies,
            );
        assert(counted.contains(counted[i]));
    }
    if !bodies.contains_key(paths[b]) {
        assert forall|d: VarDefView| #[trigger]
            var_defs_of(paths, bodies).contains(d) implies given_by_other(
            counted,
            bodies,
            d,
            paths[b],
        ) by {
            assert(given_by(counted, bodies, n, d));
            let i = choose|i: int|
                0 <= i < n && bodies.contains_key(#[trigger] counted[i]) && d == def_of(
                    counted[i],
                    bodies,
                );
            assert(counted[i] != paths[b]);
        }
    }
}

/// The entry has the extension of a definition file.
pub open spec fn is_definition_file(path: Seq<char>) -> bool {
    extension_of(path) == Some(DEF_EXTENSION@)
}

/// The definition files among the first `n` entries.
pub open spec fn yaml_upto(entries: Seq<Seq<char>>, n: int) -> Seq<Seq<char>> {
    yaml_paths(entries.take(n))
}

/// One entry more adds itself to the definition files if it is one.
pub proof fn lemma_yaml_step(entries: Seq<Seq<char>>, n: int)
    requires
        0 <= n < entries.len(),
    ensures
        yaml_upto(entries, n + 1) == if is_definition_file(entries[n]) {
            yaml_upto(entries, n).push(entries[n])
        } else {
            yaml_upto(entries, n)
        },
        yaml_upto(entries, entries.len() as int) == yaml_paths(entries),
        yaml_upto(entries, 0) == Seq::<Seq<char>>::empty(),
{
    let items = with_extensions(entries.take(n + 1));
    assert(items.drop_last() =~= with_extensions(entries.take(n)));
    assert(items.last() == (entries[n], extension_of(entries[n])));
    assert(entries.take(entries.len() as int) =~= entries);
    assert(with_extensions(entries.take(0)) =~= Seq::<(Seq<char>, Option<Seq<char>>)>::empty());
}

/// The definition files among fewer entries begin those among more.
pub proof fn lemma_yaml_prefix(entries: Seq<Seq<char>>, n: int, m: int)
    requires
        0 <= n <= m <= entries.len(),
    ensures
        yaml_upto(entries, n).len() <= yaml_upto(entries, m).len(),
        forall|c: int|
            0 <= c < yaml_upto(entries, n).len() ==> #[trigger] yaml_upto(entries, m)[c]
                == yaml_upto(entries, n)[c],
    decreases m - n,
{
    if n < m {
        lemma_yaml_prefix(entries, n, m - 1);
        lemma_yaml_step(entries, m - 1);
    }
}

/// Every definition file among the first `n` entries is one of those entries,
/// and stands where the definition files before it end.
pub proof fn lemma_yaml_origin(entries: Seq<Seq<char>>, n: int, c: int)
    requires
        0 <= n <= entries.len(),
        0 <= c < yaml_upto(entries, n).len(),
    ensures
        exists|i: int|
            0 <= i < n && is_definition_file(#[trigger] entries[i]) && yaml_upto(entries, i).len()
                == c && yaml_upto(entries, n)[c] == entries[i],
    decreases n,
{
    if n == 0 {
        lemma_yaml_step(entries, 0);
    } else {
        lemma_yaml_step(entries, n - 1);
        if c < yaml_upto(entries, n - 1).len() {
            lemma_yaml_origin(entries, n - 1, c);
            let i = choose|i: int|
                0 <= i < n - 1 && is_definition_file(#[trigger] entries[i]) && yaml_upto(
                    entries,
                    i,
                ).len() == c && yaml_upto(entries, n - 1)[c] == entries[i];
            assert(0 <= i < n && is_definition_file(entries[i]) && yaml_upto(entries, i).len() == c
                && yaml_upto(entries, n)[c] == entries[i]);
        } else {
            assert(is_definition_file(entries[n - 1]) && yaml_upto(entries, n - 1).len() == c
                && yaml_upto(entries, n)[c] == entries[n - 1]);
        }
    }
}

/// A definition file among the entries stands among the definition files, where
/// those before it end; and it is the last of its file name there if no later
/// definition file has its file name.
pub proof fn lemma_yaml_place(entries: Seq<Seq<char>>, j: int)
    requires
        0 <= j < entries.len(),
        is_definition_file(entries[j]),
    ensures
        0 <= yaml_upto(entries, j).len() < yaml_paths(entries).len(),
        yaml_paths(entries)[yaml_upto(entries, j).len() as int] == entries[j],
        (forall|i: int|
            j < i < entries.len() && is_definition_file(#[trigger] entries[i]) ==> name_of(
                entries[i],
            ) != name_of(entries[j])) ==> is_last(
            file_names(yaml_paths(entries)),
            yaml_upto(entries, j).len() as int,
        ),
{
    let all = yaml_paths(entries);
    let b = yaml_upto(entries, j).len() as int;
    lemma_yaml_step(entries, j);
    lemma_yaml_prefix(entries, j + 1, entries.len() as int);
    assert(yaml_upto(entries, j + 1)[b] == entries[j]);
    assert(yaml_upto(entries, entries.len() as int)[b] == yaml_upto(entries, j + 1)[b]);
    if forall|i: int|
        j < i < entries.len() && is_definition_file(#[trigger] entries[i]) ==> name_of(entries[i])
            != name_of(entries[j]) {
        let names = file_names(all);
        assert forall|c: int| b < c < names.len() implies #[trigger] names[c] != names[b] by {
            lemma_yaml_origin(entries, entries.len() as int, c);
            let i = choose|i: int|
                0 <= i < entries.len() && is_definition_file(#[trigger] entries[i]) && yaml_upto(
                    entries,
                    i,
                ).len() == c && yaml_upto(entries, entries.len() as int)[c] == entries[i];
            if i <= j {
                lemma_yaml_prefix(entries, i, j);
            }
            assert(i > j);
            assert(names[c] == name_of(all[c]));
            assert(names[b] == name_of(all[b]));
        }
    }
}

/// The entries of all the directories, one directory after the other.
pub open spec fn dir_entries(dirs: Seq<Seq<char>>, listings: Seq<Seq<Seq<char>>>) -> Seq<
    Seq<char>,
> {
    all_entries(dirs, listings, dirs.len() as int)
}

/// Where entry `k` of directory `d` stands among the entries of all the
/// directories.
pub open spec fn entry_place(
    dirs: Seq<Seq<char>>,
    listings: Seq<Seq<Seq<char>>>,
    d: int,
    k: int,
) -> int {
    all_entries(dirs, listings, d).len() + k
}

/// The definitions that are loaded from the directories, which stand lowest
/// precedence first: those of the definition files that count.
pub open spec fn var_defs_of_dirs(
    dirs: Seq<Seq<char>>,
    listings: Seq<Seq<Seq<char>>>,
    bodies: Bodies,
) -> Seq<VarDefView> {
    var_defs_of(yaml_paths(dir_entries(dirs, listings)), bodies)
}

/// An entry of a directory stands among the entries of the first `n`
/// directories, after the entries of the directories before its own.
pub proof fn lemma_entry_place(
    dirs: Seq<Seq<char>>,
    listings: Seq<Seq<Seq<char>>>,
    n: int,
    d: int,
    k: int,
)
    requires
        0 <= d < n <= dirs.len(),
        0 <= k < entries_of(dirs[d], listings[d]).len(),
    ensures
        entry_place(dirs, listings, d, k) < all_entries(dirs, listings, d + 1).len(),
        all_entries(dirs, listings, d + 1).len() <= all_entries(dirs, listings, n).len(),
        all_entries(dirs, listings, n)[entry_place(dirs, listings, d, k)] == entries_of(
            dirs[d],
            listings[d],
        )[k],
    decreases n - d,
{
    if n > d + 1 {
        lemma_entry_place(dirs, listings, n - 1, d, k);
    }
}

/// Two definition files of one file name in two directories, of which the
/// later stands higher: entry `ka` of directory `da` and entry `kb` of the later
/// directory `db`, after which no definition file has that file name.
pub open spec fn one_name_in_two_dirs(
    dirs: Seq<Seq<char>>,
    listings: Seq<Seq<Seq<char>>>,
    da: int,
    ka: int,
    db: int,
    kb: int,
) -> bool {
    let pa = entries_of(dirs[da], listings[da])[ka];
    let pb = entries_of(dirs[db], listings[db])[kb];
    &&& 0 <= da < db < dirs.len()
    &&& 0 <= ka < entries_of(dirs[da], listings[da]).len()
    &&& 0 <= kb < entries_of(dirs[db], listings[db]).len()
    &&& is_definition_file(pa)
    &&& is_definition_file(pb)
    &&& name_of(pa) == name_of(pb)
    &&& pa != pb
    &&& forall|i: int|
        entry_place(dirs, listings, db, kb) < i < dir_entries(dirs, listings).len()
            && is_definition_file(#[trigger] dir_entries(dirs, listings)[i]) ==> name_of(
            dir_entries(dirs, listings)[i],
        ) != name_of(pb)
}

/// The two files stand among the definition files, the earlier before the
/// later, and the later is the last of its file name there.
pub proof fn lemma_two_dirs_places(
    dirs: Seq<Seq<char>>,
    listings: Seq<Seq<Seq<char>>>,
    da: int,
    ka: int,
    db: int,
    kb: int,
) -> (places: (int, int))
    requires
        one_name_in_two_dirs(dirs, listings, da, ka, db, kb),
    ensures
        0 <= places.0 < yaml_paths(dir_entries(dirs, listings)).len(),
        0 <= places.1 < yaml_paths(dir_entries(dirs, listings)).len(),
        yaml_paths(dir_entries(dirs, listings))[places.0] == entries_of(dirs[da], listings[da])[ka],
        yaml_paths(dir_entries(dirs, listings))[places.1] == entries_of(dirs[db], listings[db])[kb],
        is_last(file_names(yaml_paths(dir_entries(dirs, listings))), places.1),
{
    let entries = dir_entries(dirs, listings);
    let n = dirs.len() as int;
    let ia = entry_place(dirs, listings, da, ka);
    let ib = entry_place(dirs, listings, db, kb);
    lemma_entry_place(dirs, listings, n, da, ka);
    lemma_entry_place(dirs, listings, n, db, kb);
    lemma_yaml_place(entries, ia);
    lemma_yaml_place(entries, ib);
    (yaml_upto(entries, ia).len() as int, yaml_upto(entries, ib).len() as int)
}

/// Override across directories. The directories stand lowest precedence first.
/// A definition file `pb` of a later directory, after which no definition file has
/// its file name, and a definition file `pa` of an earlier directory have one file
/// name. Then `pb` counts, and `pa` is overridden and does not count. Where `pb`
/// holds a definition, that definition is loaded; where `pb` is void, nothing is
/// loaded from it. Nothing is loaded from `pa`: it is no fallback.
pub proof fn lemma_later_directory_wins(
    dirs: Seq<Seq<char>>,
    listings: Seq<Seq<Seq<char>>>,
    bodies: Bodies,
    da: int,
    ka: int,
    db: int,
    kb: int,
)
    requires
        one_name_in_two_dirs(dirs, listings, da, ka, db, kb),
    ensures
        ({
            let pa = entries_of(dirs[da], listings[da])[ka];
            let pb = entries_of(dirs[db], listings[db])[kb];
            let counted = unique_paths(yaml_paths(dir_entries(dirs, listings)));
            let overridden = overridden_paths(yaml_paths(dir_entries(dirs, listings)));
            let loaded = var_defs_of_dirs(dirs, listings, bodies);
            &&& counted.contains(pb)
            &&& !counted.contains(pa)
            &&& overridden.contains(pa)
            &&& bodies.contains_key(pb) ==> loaded.contains(def_of(pb, bodies))
            &&& forall|d: VarDefView| #[trigger]
                loaded.contains(d) ==> given_by_other(counted, bodies, d, pa)
            &&& !bodies.contains_key(pb) ==> forall|d: VarDefView| #[trigger]
                loaded.contains(d) ==> given_by_other(counted, bodies, d, pb)
        }),
{
    let yaml = yaml_paths(dir_entries(dirs, listings));
    let places = lemma_two_dirs_places(dirs, listings, da, ka, db, kb);
    lemma_last_file_overrides(yaml, bodies, places.0, places.1);
}

/// One definition of a name across directories. With two files as in
/// `lemma_later_directory_wins`, where every definition file has a stem and files
/// of one stem have one file name: the loaded definitions have distinct names,
/// and a loaded definition of the name of `pb` is that of `pb`, which then holds
/// one.
pub proof fn lemma_later_directory_names(
    dirs: Seq<Seq<char>>,
    listings: Seq<Seq<Seq<char>>>,
    bodies: Bodies,
    da: int,
    ka: int,
    db: int,
    kb: int,
)
    requires
        one_name_in_two_dirs(dirs, listings, da, ka, db, kb),
        all_stemmed(yaml_paths(dir_entries(dirs, listings))),
        stems_tell_names(yaml_paths(dir_entries(dirs, listings))),
    ensures
        ({
            let pb = entries_of(dirs[db], listings[db])[kb];
            let loaded = var_defs_of_dirs(dirs, listings, bodies);
            &&& distinct(def_names(loaded))
            &&& forall|d: VarDefView|
                #[trigger] loaded.contains(d) && d.name == file_stem_of(pb)->0
                    ==> bodies.contains_key(pb) && d == def_of(pb, bodies)
        }),
{
    let yaml = yaml_paths(dir_entries(dirs, listings));
    let places = lemma_two_dirs_places(dirs, listings, da, ka, db, kb);
    lemma_last_file_decides(yaml, bodies, places.1);
}

/// What reading the file gave is what `bodies` holds for its path.
pub open spec fn read_as(file: DefFile<VarDefBody>, bodies: Bodies) -> bool {
    match file.body {
        Some(b) => bodies.contains_key(file.path@) && bodies[file.path@] == b,
        None => !bodies.contains_key(file.path@),
    }
}

/// The paths of a run of files.
pub open spec fn file_paths(files: Seq<DefFile<VarDefBody>>) -> Seq<Seq<char>> {
    files.map_values(|f: DefFile<VarDefBody>| f.path@)
}

/// The definitions that `load_var_defs` gives for files that were read are the
/// definitions of their paths.
pub proof fn lemma_loaded(files: Seq<DefFile<VarDefBody>>, bodies: Bodies, n: int)
    requires
        0 <= n <= files.len(),
        forall|i: int| 0 <= i < files.len() ==> read_as(#[trigger] files[i], bodies),
    ensures
        loaded_var_defs(files, n) == defs_of_paths(file_paths(files), bodies, n),
    decreases n,
{
    if n > 0 {
        lemma_loaded(files, bodies, n - 1);
        assert(read_as(files[n - 1], bodies));
        assert(file_paths(files)[n - 1] == files[n - 1].path@);
    }
}

} // verus!
