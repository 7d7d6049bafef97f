//! Which variables belong to which category.

use vstd::prelude::*;
use crate::text::str_eq;
use crate::text_map::TextMap;
use crate::text_set::TextSet;
use crate::vars::def::{VarDef, VarDefView, VarKind};

verus! {

/// A run of definitions as mathematics.
pub open spec fn def_views(defs: Seq<VarDef>) -> Seq<VarDefView> {
    defs.map_values(|d: VarDef| d@)
}

/// The names of a run of definitions.
pub open spec fn def_names(defs: Seq<VarDefView>) -> Seq<Seq<char>> {
    defs.map_values(|d: VarDefView| d.name)
}

/// The names of the variables that list `c` among their categories.
pub open spec fn members(defs: Seq<VarDefView>, c: Seq<char>) -> Set<Seq<char>> {
    Set::new(|n: Seq<char>| exists|i: int| 0 <= i < defs.len() && #[trigger] defs[i].name == n
        && defs[i].lists(c))
}

/// `c` is a category: some variable lists it, or is the variable of it.
pub open spec fn is_category(defs: Seq<VarDefView>, c: Seq<char>) -> bool {
    exists|i: int| 0 <= i < defs.len() && #[trigger] defs[i].mentions(c)
}

/// The categories of a run of definitions.
pub open spec fn categories(defs: Seq<VarDefView>) -> Set<Seq<char>> {
    Set::new(|c: Seq<char>| is_category(defs, c))
}

/// The members of every category.
pub open spec fn category_index(defs: Seq<VarDefView>) -> Map<Seq<char>, Set<Seq<char>>> {
    Map::new(|c: Seq<char>| is_category(defs, c), |c: Seq<char>| members(defs, c))
}

/// An index as mathematics.
pub open spec fn index_view(index: Map<Seq<char>, TextSet>) -> Map<Seq<char>, Set<Seq<char>>> {
    index.map_values(|s: TextSet| s@)
}

/// Every set of an index is well formed.
pub open spec fn index_wf(index: Map<Seq<char>, TextSet>) -> bool {
    forall|c: Seq<char>| index.contains_key(c) ==> (#[trigger] index[c]).wf()
}

/// Whether `def` lists `c` among its categories.
pub fn lists_category(def: &VarDef, c: &str) -> (b: bool)
    ensures
        b == def@.lists(c@),
{
    let mut j: usize = 0;
    while j < def.categories.len()
        invariant
            j <= def.categories.len(),
            forall|k: int| 0 <= k < j ==> def@.categories[k] != c@,
        decreases def.categories.len() - j,
    {
        if str_eq(def.categories[j].as_str(), c) {
            assert(def@.categories[j as int] == c@);
            return true;
        }
        j += 1;
    }
    false
}

/// The names of the definitions that list `c`.
pub fn members_of(defs: &Vec<VarDef>, c: &str) -> (r: TextSet)
    ensures
        r.wf(),
        r@ == members(def_views(defs@), c@),
{
    let ghost views = def_views(defs@);
    let mut r = TextSet::new();
    let mut i: usize = 0;
    while i < defs.len()
        invariant
            i <= defs.len(),
            views == def_views(defs@),
            r.wf(),
            r@ == members(views.take(i as int), c@),
        decreases defs.len() - i,
    {
        let ghost before = r@;
        let ghost n = defs@[i as int]@.name;
        if lists_category(&defs[i], c) {
            r.insert(defs[i].name.duplicate().into_string());
        }
        proof {
            let cur = views.take(i as int);
            let next = views.take(i as int + 1);
            assert(next[i as int] == defs@[i as int]@);
            assert forall|m: Seq<char>| r@.contains(m) == members(next, c@).contains(m) by {
                if members(next, c@).contains(m) {
                    let a = choose|a: int|
                        0 <= a < next.len() && #[trigger] next[a].name == m && next[a].lists(c@);
                    if a < i {
                        assert(cur[a].name == m && cur[a].lists(c@));
                    }
                }
                if before.contains(m) {
                    let a = choose|a: int|
                        0 <= a < cur.len() && #[trigger] cur[a].name == m && cur[a].lists(c@);
                    assert(next[a].name == m && next[a].lists(c@));
                }
            }
            assert(r@ =~= members(next, c@));
        }
        i += 1;
    }
    assert(views.take(defs.len() as int) =~= views);
    r
}

/// The categories of `defs`.
pub fn category_keys(defs: &Vec<VarDef>) -> (r: TextSet)
    ensures
        r.wf(),
        r@ == categories(def_views(defs@)),
{
    let ghost views = def_views(defs@);
    let mut r = TextSet::new();
    let mut i: usize = 0;
    while i < defs.len()
        invariant
            i <= defs.len(),
            views == def_views(defs@),
            r.wf(),
            r@ == categories(views.take(i as int)),
        decreases defs.len() - i,
    {
        let ghost cur = views.take(i as int);
        let ghost next = views.take(i as int + 1);
        let ghost d = defs@[i as int]@;
        let def = &defs[i];
        let mut j: usize = 0;
        while j < def.categories.len()
            invariant
                j <= def.categories.len(),
                i < defs.len(),
                def == &defs@[i as int],
                d == def@,
                r.wf(),
                forall|c: Seq<char>|
                    r@.contains(c) <==> (categories(cur).contains(c) || exists|k: int|
                        0 <= k < j && #[trigger] d.categories[k] == c),
            decreases def.categories.len() - j,
        {
            let ghost before = r@;
            r.insert(def.categories[j].duplicate().into_string());
            proof {
                let cj = d.categories[j as int];
                assert forall|c: Seq<char>|
                    r@.contains(c) <==> (categories(cur).contains(c) || exists|k: int|
                        0 <= k < j + 1 && #[trigger] d.categories[k] == c) by {
                    if before.contains(c) && !categories(cur).contains(c) {
                        let k = choose|k: int| 0 <= k < j && #[trigger] d.categories[k] == c;
                        assert(0 <= k < j + 1 && d.categories[k] == c);
                    }
                    if exists|k: int| 0 <= k < j + 1 && #[trigger] d.categories[k] == c {
                        let k = choose|k: int| 0 <= k < j + 1 && #[trigger] d.categories[k] == c;
                        if k < j {
                            assert(before.contains(c));
                        }
                    }
                }
            }
            j += 1;
        }
        let ghost listed = r@;
        if let VarKind::CategoryAny(any) = &def.kind {
            r.insert(any.category_name.duplicate().into_string());
        }
        proof {
            assert(next[i as int] == d);
            assert forall|c: Seq<char>| r@.contains(c) == categories(next).contains(c) by {
                let in_listed = categories(cur).contains(c) || exists|k: int|
                    0 <= k < d.categories.len() && #[trigger] d.categories[k] == c;
                assert(listed.contains(c) <==> in_listed);
                assert(r@.contains(c) <==> (listed.contains(c) || d.is_category_any(c)));
                if is_category(next, c) {
                    let a = choose|a: int| 0 <= a < next.len() && #[trigger] next[a].mentions(c);
                    if a < i {
                        assert(cur[a] == next[a]);
                        assert(cur[a].mentions(c));
                        assert(is_category(cur, c));
                    } else {
                        assert(next[a] == d);
                        if d.lists(c) {
                            let k = choose|k: int|
                                0 <= k < d.categories.len() && d.categories[k] == c;
                            assert(d.categories[k] == c);
                        }
                    }
                    assert(r@.contains(c));
                }
                if r@.contains(c) {
                    if is_category(cur, c) {
                        let a = choose|a: int| 0 <= a < cur.len() && #[trigger] cur[a].mentions(c);
                        assert(cur[a] == next[a]);
                        assert(next[a].mentions(c));
                    } else if exists|k: int|
                        0 <= k < d.categories.len() && #[trigger] d.categories[k] == c {
                        let k = choose|k: int|
                            0 <= k < d.categories.len() && #[trigger] d.categories[k] == c;
                        assert(d.categories.contains(c));
                        assert(next[i as int].mentions(c));
                    } else {
                        assert(next[i as int].mentions(c));
                    }
                    assert(is_category(next, c));
                }
            }
            assert(r@ =~= categories(next));
        }
        i += 1;
    }
    assert(views.take(defs.len() as int) =~= views);
    r
}

/// The index of `defs`: for every category, the names of its members.
pub fn compute_category_vars_map(defs: &Vec<VarDef>) -> (r: TextMap<TextSet>)
    ensures
        r.wf(),
        index_wf(r@),
        index_view(r@) == category_index(def_views(defs@)),
{
    let ghost views = def_views(defs@);
    let keys = category_keys(defs);
    let mut r: TextMap<TextSet> = TextMap::new();
    let mut i: usize = 0;
    while i < keys.len()
        invariant
            i <= keys.items().len(),
            views == def_views(defs@),
            keys.wf(),
            keys@ == categories(views),
            r.wf(),
            index_wf(r@),
            r@.dom() =~= keys.items().take(i as int).to_set(),
            forall|c: Seq<char>| r@.contains_key(c) ==> (#[trigger] r@[c])@ == members(views, c),
        decreases keys.items().len() - i,
    {
        let key = keys.item_at(i);
        let set = members_of(defs, key.as_str());
        proof {
            let cur = keys.items().take(i as int);
            let next = keys.items().take(i as int + 1);
            assert(next =~= cur.push(key@));
            assert(next.to_set() =~= cur.to_set().insert(key@)) by {
                assert forall|c: Seq<char>| next.to_set().contains(c) == cur.to_set().insert(
                    key@,
                ).contains(c) by {
                    if next.contains(c) {
                        let a = choose|a: int| 0 <= a < next.len() && next[a] == c;
                        if a < i {
                            assert(cur[a] == c);
                        }
                    }
                    if cur.contains(c) {
                        let a = choose|a: int| 0 <= a < cur.len() && cur[a] == c;
                        assert(next[a] == c);
                    }
                    if c == key@ {
                        assert(next[i as int] == c);
                    }
                }
            }
        }
        r.insert(key.clone(), set);
        i += 1;
    }
    proof {
        assert(keys.items().take(keys.items().len() as int) =~= keys.items());
        assert(r@.dom() =~= categories(views));
        assert(index_view(r@) =~= category_index(views));
    }
    r
}

} // verus!
