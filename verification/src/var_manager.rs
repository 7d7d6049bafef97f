//! Holds the variable definitions and the values of the variables, and says
//! which probes the worker is to call.

use vstd::prelude::*;
use crate::categories::{
    category_index, compute_category_vars_map, def_names, def_views, index_view, index_wf, members,
};
use crate::config::Config;
use crate::messages::{msgs_view, WorkerMsg, WorkerMsgView};
use crate::text::str_eq;
use crate::text_map::{distinct, occurs_twice, TextMap};
use crate::text_set::{lemma_push_to_set, TextSet};
use crate::vars::def::{VarDef, VarDefView, VarKind, VarKindView};
use crate::vars::error::VarError;
use crate::vars::name::VarName;
use crate::vars::value::VarValue;

verus! {

/// The names of the polled variables, in the order of their definitions.
pub open spec fn poll_names(defs: Seq<VarDefView>) -> Seq<Seq<char>>
    decreases defs.len(),
{
    if defs.len() == 0 {
        Seq::empty()
    } else if defs.last().is_builtin_poll() {
        poll_names(defs.drop_last()).push(defs.last().name)
    } else {
        poll_names(defs.drop_last())
    }
}

/// What is asked of the worker when definitions are loaded: for each polled
/// variable, to make its probe and to ask it whether it is of use.
pub open spec fn load_msgs(defs: Seq<VarDefView>) -> Seq<WorkerMsgView>
    decreases defs.len(),
{
    if defs.len() == 0 {
        Seq::empty()
    } else if defs.last().is_builtin_poll() {
        load_msgs(defs.drop_last()).push(WorkerMsgView::LoadPollVarFns(defs.last())).push(
            WorkerMsgView::CallVarIsActive(defs.last().name),
        )
    } else {
        load_msgs(defs.drop_last())
    }
}

/// What is asked of the worker at a poll: one call for each polled variable.
pub open spec fn poll_msgs(defs: Seq<VarDefView>) -> Seq<WorkerMsgView> {
    poll_names(defs).map_values(|n: Seq<char>| WorkerMsgView::CallVarPoll(n))
}

/// The definitions but the one named `name`.
pub open spec fn without(defs: Seq<VarDefView>, name: Seq<char>) -> Seq<VarDefView>
    decreases defs.len(),
{
    if defs.len() == 0 {
        Seq::empty()
    } else if defs.last().name == name {
        without(defs.drop_last(), name)
    } else {
        without(defs.drop_last(), name).push(defs.last())
    }
}

/// Some variable among `names` has the value true. A variable without a value
/// counts as false.
pub open spec fn any_true(vars: Map<Seq<char>, VarValue>, names: Set<Seq<char>>) -> bool {
    exists|n: Seq<char>| #[trigger]
        names.contains(n) && vars.contains_key(n) && vars[n] == VarValue::Bool(true)
}

/// The values after the category variable `d` was computed; other definitions
/// change nothing.
pub open spec fn category_step(
    vars: Map<Seq<char>, VarValue>,
    defs: Seq<VarDefView>,
    d: VarDefView,
) -> Map<Seq<char>, VarValue> {
    match d.kind {
        VarKindView::CategoryAny { category_name } => vars.insert(
            d.name,
            VarValue::Bool(any_true(vars, members(defs, category_name))),
        ),
        _ => vars,
    }
}

/// The values after the category variables among the first `n` definitions were
/// computed, one after the other.
pub open spec fn categories_updated(
    vars: Map<Seq<char>, VarValue>,
    defs: Seq<VarDefView>,
    n: int,
) -> Map<Seq<char>, VarValue>
    decreases n,
{
    if n <= 0 {
        vars
    } else {
        category_step(categories_updated(vars, defs, n - 1), defs, defs[n - 1])
    }
}

/// The variable manager as mathematics.
pub struct VarState {
    pub poll_variable_interval: u64,
    pub vars: Map<Seq<char>, VarValue>,
    pub var_defs: Seq<VarDefView>,
    pub waitlist_active: Set<Seq<char>>,
    pub waitlist_poll: Set<Seq<char>>,
}

impl VarState {
    /// The state of a manager that was just made.
    pub open spec fn fresh(poll_variable_interval: u64) -> VarState {
        VarState {
            poll_variable_interval,
            vars: Map::empty(),
            var_defs: Seq::empty(),
            waitlist_active: Set::empty(),
            waitlist_poll: Set::empty(),
        }
    }

    /// No two definitions have the same name.
    pub open spec fn wf(self) -> bool {
        distinct(def_names(self.var_defs))
    }

    /// Every probe has said whether it is of use, and every poll has returned.
    pub open spec fn is_initialized(self) -> bool {
        self.waitlist_active == Set::<Seq<char>>::empty() && self.waitlist_poll == Set::<
            Seq<char>,
        >::empty()
    }

    /// The definitions are loaded, and every polled variable is waited for.
    pub open spec fn init(self, defs: Seq<VarDefView>) -> VarState {
        VarState {
            var_defs: defs,
            waitlist_active: poll_names(defs).to_set(),
            waitlist_poll: Set::empty(),
            ..self
        }
    }

    /// A poll begins: every polled variable is waited for.
    pub open spec fn poll_vars(self) -> VarState {
        VarState { waitlist_poll: poll_names(self.var_defs).to_set(), ..self }
    }

    /// The last awaited probe is saying whether it is of use.
    pub open spec fn is_last_active(self, name: Seq<char>) -> bool {
        self.waitlist_active.contains(name) && self.waitlist_active.remove(name) == Set::<
            Seq<char>,
        >::empty()
    }

    /// A probe has said whether its variable is of use. A variable that is of no
    /// use loses its definition. With the last answer the first poll begins. An
    /// answer that was not waited for changes nothing.
    pub open spec fn return_var_is_active(self, name: Seq<char>, active: bool) -> VarState {
        if !self.waitlist_active.contains(name) {
            self
        } else {
            let kept = VarState {
                var_defs: if active {
                    self.var_defs
                } else {
                    without(self.var_defs, name)
                },
                waitlist_active: self.waitlist_active.remove(name),
                ..self
            };
            if self.is_last_active(name) {
                kept.poll_vars()
            } else {
                kept
            }
        }
    }

    /// What is asked of the worker on such an answer: with the last one, the
    /// first poll.
    pub open spec fn return_var_is_active_msgs(self, name: Seq<char>, active: bool) -> Seq<
        WorkerMsgView,
    > {
        if self.is_last_active(name) {
            poll_msgs(self.return_var_is_active(name, active).var_defs)
        } else {
            Seq::empty()
        }
    }

    /// A poll has returned: the variable is no longer waited for, and a value
    /// that came replaces the old one.
    pub open spec fn return_var_poll(self, name: Seq<char>, value: Option<VarValue>) -> VarState {
        VarState {
            waitlist_poll: self.waitlist_poll.remove(name),
            vars: match value {
                Some(v) => self.vars.insert(name, v),
                None => self.vars,
            },
            ..self
        }
    }

    /// Every category variable is computed, in the order of the definitions.
    pub open spec fn update_category_vars(self) -> VarState {
        VarState {
            vars: categories_updated(self.vars, self.var_defs, self.var_defs.len() as int),
            ..self
        }
    }
}

/// The variable manager.
#[derive(Debug)]
pub struct VarManager {
    poll_variable_interval: u64,
    vars: TextMap<VarValue>,
    var_defs: Vec<VarDef>,
    category_vars: TextMap<TextSet>,
    waitlist_active: TextSet,
    waitlist_poll: TextSet,
}

impl View for VarManager {
    type V = VarState;

    closed spec fn view(&self) -> VarState {
        VarState {
            poll_variable_interval: self.poll_variable_interval,
            vars: self.vars@,
            var_defs: def_views(self.var_defs@),
            waitlist_active: self.waitlist_active@,
            waitlist_poll: self.waitlist_poll@,
        }
    }
}

/// Whether the names of the definitions are distinct; else a name that two of
/// them have.
pub fn check_var_defs(defs: &Vec<VarDef>) -> (r: Result<(), VarError>)
    ensures
        r is Ok <==> distinct(def_names(def_views(defs@))),
        r matches Err(e) ==> (e matches VarError::DuplicateName(n) && occurs_twice(
            def_names(def_views(defs@)),
            n@,
        )),
{
    match first_duplicate(defs) {
        Some(i) => Err(VarError::DuplicateName(defs[i].name.duplicate().into_string())),
        None => Ok(()),
    }
}

/// The place of the first definition whose name came before, if there is one.
fn first_duplicate(defs: &Vec<VarDef>) -> (r: Option<usize>)
    ensures
        r is None <==> distinct(def_names(def_views(defs@))),
        r matches Some(i) ==> i < defs.len() && occurs_twice(
            def_names(def_views(defs@)),
            defs@[i as int]@.name,
        ),
{
    let ghost names = def_names(def_views(defs@));
    let mut i: usize = 0;
    while i < defs.len()
        invariant
            i <= defs.len(),
            names == def_names(def_views(defs@)),
            forall|a: int, b: int| 0 <= a < b < i ==> names[a] != names[b],
        decreases defs.len() - i,
    {
        let mut j: usize = 0;
        while j < i
            invariant
                j <= i,
                i < defs.len(),
                names == def_names(def_views(defs@)),
                forall|a: int| 0 <= a < j ==> names[a] != names[i as int],
            decreases i - j,
        {
            if str_eq(defs[j].name.as_str(), defs[i].name.as_str()) {
                assert(names[j as int] == names[i as int]);
                assert(names[i as int] == defs@[i as int]@.name);
                return Some(i);
            }
            j += 1;
        }
        i += 1;
    }
    None
}

/// The first `i + 1` definitions are the first `i` and the one at place `i`.
proof fn lemma_take_next(defs: Seq<VarDefView>, i: int)
    requires
        0 <= i < defs.len(),
    ensures
        defs.take(i + 1).drop_last() == defs.take(i),
        defs.take(i + 1).last() == defs[i],
        defs.take(defs.len() as int) == defs,
{
    assert(defs.take(i + 1).drop_last() =~= defs.take(i));
    assert(defs.take(defs.len() as int) =~= defs);
}

/// Among definitions with distinct names, leaving out the one named `name` is
/// removing it from its place, and changes nothing when no definition has that name.
pub proof fn lemma_without(defs: Seq<VarDefView>, name: Seq<char>)
    requires
        distinct(def_names(defs)),
    ensures
        (forall|i: int| 0 <= i < defs.len() ==> (#[trigger] defs[i]).name != name) ==> without(
            defs,
            name,
        ) == defs,
        forall|i: int|
            0 <= i < defs.len() && (#[trigger] defs[i]).name == name ==> without(defs, name)
                == defs.remove(i),
        distinct(def_names(without(defs, name))),
        forall|i: int|
            0 <= i < without(defs, name).len() ==> (#[trigger] without(defs, name)[i]).name
                != name,
    decreases defs.len(),
{
    if defs.len() > 0 {
        let front = defs.drop_last();
        let last = defs.last();
        let names = def_names(defs);
        assert forall|a: int, b: int| 0 <= a < b < front.len() implies def_names(front)[a]
            != def_names(front)[b] by {
            assert(names[a] == def_names(front)[a]);
            assert(names[b] == def_names(front)[b]);
        }
        lemma_without(front, name);
        let n = front.len() as int;
        if last.name == name {
            assert forall|i: int| 0 <= i < front.len() implies (#[trigger] front[i]).name
                != name by {
                assert(names[i] == front[i].name);
                assert(names[n] == name);
            }
            assert(without(defs, name) == front);
            assert forall|i: int| 0 <= i < defs.len() && (#[trigger] defs[i]).name
                == name implies without(defs, name) == defs.remove(i) by {
                if i < n {
                    assert(front[i].name == name);
                }
                assert(defs.remove(i) =~= front);
            }
        } else {
            let rest = without(front, name);
            assert(without(defs, name) == rest.push(last));
            if forall|i: int| 0 <= i < defs.len() ==> (#[trigger] defs[i]).name != name {
                assert forall|i: int| 0 <= i < front.len() implies (#[trigger] front[i]).name
                    != name by {
                    assert(defs[i].name != name);
                }
                assert(rest.push(last) =~= defs);
            }
            assert forall|i: int| 0 <= i < defs.len() && (#[trigger] defs[i]).name
                == name implies without(defs, name) == defs.remove(i) by {
                assert(front[i].name == name);
                assert(rest == front.remove(i));
                assert(front.remove(i).push(last) =~= defs.remove(i));
            }
            lemma_without_names(front, name);
            let out = rest.push(last);
            assert forall|a: int, b: int| 0 <= a < b < out.len() implies def_names(out)[a]
                != def_names(out)[b] by {
                if b < rest.len() {
                    assert(def_names(rest)[a] == def_names(out)[a]);
                    assert(def_names(rest)[b] == def_names(out)[b]);
                } else {
                    assert(front.contains(rest[a]));
                    let k = choose|k: int| 0 <= k < front.len() && front[k] == rest[a];
                    assert(names[k] == rest[a].name);
                    assert(names[n] == last.name);
                }
            }
        }
    }
}

/// The polled variables are among the defined ones.
pub proof fn lemma_poll_names_defined(defs: Seq<VarDefView>)
    ensures
        forall|x: Seq<char>|
            poll_names(defs).contains(x) ==> #[trigger] def_names(defs).contains(x),
    decreases defs.len(),
{
    if defs.len() > 0 {
        let front = defs.drop_last();
        lemma_poll_names_defined(front);
        assert forall|x: Seq<char>| poll_names(defs).contains(x) implies #[trigger] def_names(
            defs,
        ).contains(x) by {
            let names = poll_names(defs);
            let i = choose|i: int| 0 <= i < names.len() && names[i] == x;
            assert(names[i] == x);
            if i < poll_names(front).len() {
                assert(poll_names(front)[i] == x);
                assert(poll_names(front).contains(x));
                assert(def_names(front).contains(x));
                let k = choose|k: int| 0 <= k < def_names(front).len() && def_names(front)[k] == x;
                assert(def_names(front)[k] == x);
                assert(def_names(defs)[k] == x);
            } else {
                assert(defs.last().is_builtin_poll());
                assert(names == poll_names(front).push(defs.last().name));
                assert(def_names(defs)[defs.len() - 1] == x);
            }
        }
    }
}

/// Leaving a definition out takes its name from the polled variables, and no
/// other.
pub proof fn lemma_poll_names_without(defs: Seq<VarDefView>, name: Seq<char>)
    requires
        distinct(def_names(defs)),
    ensures
        poll_names(without(defs, name)).to_set() == poll_names(defs).to_set().remove(name),
    decreases defs.len(),
{
    if defs.len() == 0 {
        assert(poll_names(defs).to_set() =~= Set::<Seq<char>>::empty());
        assert(poll_names(without(defs, name)).to_set() =~= poll_names(defs).to_set().remove(name));
    } else {
        let front = defs.drop_last();
        let last = defs.last();
        let names = def_names(defs);
        assert forall|a: int, b: int| 0 <= a < b < front.len() implies def_names(front)[a]
            != def_names(front)[b] by {
            assert(names[a] == def_names(front)[a]);
            assert(names[b] == def_names(front)[b]);
        }
        lemma_poll_names_without(front, name);
        lemma_without(front, name);
        let polled = poll_names(front);
        if last.name == name {
            assert forall|i: int| 0 <= i < front.len() implies (#[trigger] front[i]).name
                != name by {
                assert(names[i] == front[i].name);
                assert(names[front.len() as int] == name);
            }
            assert(without(defs, name) == front);
            lemma_poll_names_defined(front);
            assert(!polled.contains(name)) by {
                if polled.contains(name) {
                    assert(def_names(front).contains(name));
                    let k = choose|k: int|
                        0 <= k < def_names(front).len() && def_names(front)[k] == name;
                    assert(front[k].name == name);
                }
            }
            if last.is_builtin_poll() {
                lemma_push_to_set(polled, name);
            }
            assert(polled.to_set() =~= poll_names(defs).to_set().remove(name));
        } else {
            let rest = without(front, name);
            assert(rest.push(last).drop_last() =~= rest);
            if last.is_builtin_poll() {
                lemma_push_to_set(polled, last.name);
                lemma_push_to_set(poll_names(rest), last.name);
            }
            assert(poll_names(without(defs, name)).to_set() =~= poll_names(defs).to_set().remove(
                name,
            ));
        }
    }
}

/// What is left when a name is left out was there before.
pub proof fn lemma_without_names(defs: Seq<VarDefView>, name: Seq<char>)
    ensures
        forall|a: int|
            0 <= a < without(defs, name).len() ==> defs.contains(#[trigger] without(defs, name)[a]),
    decreases defs.len(),
{
    if defs.len() > 0 {
        let front = defs.drop_last();
        lemma_without_names(front, name);
        let out = without(defs, name);
        assert forall|a: int| 0 <= a < out.len() implies defs.contains(#[trigger] out[a]) by {
            if a < without(front, name).len() {
                assert(front.contains(without(front, name)[a]));
                let k = choose|k: int| 0 <= k < front.len() && front[k] == without(front, name)[a];
                assert(defs[k] == out[a]);
            } else {
                assert(defs[defs.len() - 1] == out[a]);
            }
        }
    }
}

/// Computing the category variables from place `from` to place `to` leaves a
/// variable as it was, unless it is one of those category variables.
pub proof fn lemma_categories_frame(
    vars: Map<Seq<char>, VarValue>,
    defs: Seq<VarDefView>,
    from: int,
    to: int,
    x: Seq<char>,
)
    requires
        0 <= from <= to <= defs.len(),
        forall|j: int|
            from <= j < to && (#[trigger] defs[j]).kind is CategoryAny ==> defs[j].name != x,
    ensures
        categories_updated(vars, defs, to).contains_key(x) == categories_updated(
            vars,
            defs,
            from,
        ).contains_key(x),
        categories_updated(vars, defs, to)[x] == categories_updated(vars, defs, from)[x],
    decreases to - from,
{
    if from < to {
        lemma_categories_frame(vars, defs, from, to - 1, x);
        let d = defs[to - 1];
        assert(d.kind is CategoryAny ==> d.name != x);
    }
}

/// After the category variables were computed, the variable of category `c` is
/// true exactly when a variable that lists `c` is true. This is stated of a
/// category variable after which no member of its category that is itself a
/// category variable is defined: such a member is computed later, from values
/// that the variable of `c` has not seen.
pub proof fn lemma_category_correct(s: VarState, q: int, c: Seq<char>)
    requires
        s.wf(),
        0 <= q < s.var_defs.len(),
        s.var_defs[q].is_category_any(c),
        forall|j: int|
            q < j < s.var_defs.len() && (#[trigger] s.var_defs[j]).kind is CategoryAny
                ==> !s.var_defs[j].lists(c),
    ensures
        s.update_category_vars().vars.contains_key(s.var_defs[q].name),
        s.update_category_vars().vars[s.var_defs[q].name] == VarValue::Bool(
            any_true(s.update_category_vars().vars, members(s.var_defs, c)),
        ),
{
    let defs = s.var_defs;
    let n = defs.len() as int;
    let name = defs[q].name;
    let group = members(defs, c);
    let seen = categories_updated(s.vars, defs, q);
    let done = categories_updated(s.vars, defs, n);
    let names = def_names(defs);
    assert(categories_updated(s.vars, defs, q + 1) == seen.insert(
        name,
        VarValue::Bool(any_true(seen, group)),
    ));
    assert forall|j: int|
        q + 1 <= j < n && (#[trigger] defs[j]).kind is CategoryAny implies defs[j].name
        != name by {
        assert(names[q] == name);
        assert(names[j] == defs[j].name);
    }
    lemma_categories_frame(s.vars, defs, q + 1, n, name);
    assert(done[name] == VarValue::Bool(any_true(seen, group)));
    assert forall|m: Seq<char>| group.contains(m) && m != name implies done.contains_key(m)
        == seen.contains_key(m) && done[m] == seen[m] by {
        let i = choose|i: int|
            0 <= i < defs.len() && #[trigger] defs[i].name == m && defs[i].lists(c);
        assert forall|j: int|
            q <= j < n && (#[trigger] defs[j]).kind is CategoryAny implies defs[j].name
            != m by {
            if defs[j].name == m {
                assert(names[j] == m);
                assert(names[i] == m);
                assert(i == j);
            }
        }
        lemma_categories_frame(s.vars, defs, q, n, m);
    }
    if any_true(done, group) {
        let m = choose|m: Seq<char>| #[trigger]
            group.contains(m) && done.contains_key(m) && done[m] == VarValue::Bool(true);
        if m != name {
            assert(group.contains(m) && seen.contains_key(m) && seen[m] == VarValue::Bool(true));
        }
        assert(any_true(seen, group));
    }
    if any_true(seen, group) {
        let m = choose|m: Seq<char>| #[trigger]
            group.contains(m) && seen.contains_key(m) && seen[m] == VarValue::Bool(true);
        if m != name {
            assert(group.contains(m) && done.contains_key(m) && done[m] == VarValue::Bool(true));
        } else {
            assert(group.contains(name) && done.contains_key(name) && done[name]
                == VarValue::Bool(true));
        }
        assert(any_true(done, group));
    }
}

/// A manager is initialized exactly when no variable is waited for.
pub proof fn lemma_initialized(s: VarState)
    ensures
        s.is_initialized() <==> forall|n: Seq<char>|
            !s.waitlist_active.contains(n) && !s.waitlist_poll.contains(n),
{
    if forall|n: Seq<char>| !s.waitlist_active.contains(n) && !s.waitlist_poll.contains(n) {
        assert(s.waitlist_active =~= Set::<Seq<char>>::empty());
        assert(s.waitlist_poll =~= Set::<Seq<char>>::empty());
    }
}

/// Whether some variable among `names` has the value true.
pub fn any_var_true(vars: &TextMap<VarValue>, names: &TextSet) -> (b: bool)
    requires
        vars.wf(),
    ensures
        b == any_true(vars@, names@),
{
    let mut k: usize = 0;
    while k < names.len()
        invariant
            k <= names.items().len(),
            vars.wf(),
            forall|j: int|
                0 <= j < k ==> !(vars@.contains_key(#[trigger] names.items()[j])
                    && vars@[names.items()[j]] == VarValue::Bool(true)),
        decreases names.items().len() - k,
    {
        let item = names.item_at(k);
        match vars.get(item.as_str()) {
            Some(VarValue::Bool(true)) => {
                assert(names@.contains(item@));
                return true;
            },
            _ => {},
        }
        k += 1;
    }
    proof {
        assert forall|n: Seq<char>| #[trigger] names@.contains(n) implies !(vars@.contains_key(n)
            && vars@[n] == VarValue::Bool(true)) by {
            let j = choose|j: int| 0 <= j < names.items().len() && names.items()[j] == n;
            assert(names.items()[j] == n);
        }
    }
    false
}

impl VarManager {
    /// The maps and sets keep their keys distinct, the definitions their names,
    /// and the index of categories is that of the definitions.
    pub closed spec fn wf(&self) -> bool {
        &&& self.vars.wf()
        &&& self.category_vars.wf()
        &&& index_wf(self.category_vars@)
        &&& index_view(self.category_vars@) == category_index(def_views(self.var_defs@))
        &&& self.waitlist_active.wf()
        &&& self.waitlist_poll.wf()
        &&& self@.wf()
    }

    /// A well-formed manager is well formed as mathematics.
    pub proof fn lemma_view_wf(&self)
        requires
            self.wf(),
        ensures
            self@.wf(),
    {
    }

    /// A manager without definitions.
    pub fn new(cfg: &Config) -> (m: VarManager)
        ensures
            m.wf(),
            m@ == VarState::fresh(cfg.poll_variable_interval),
    {
        let defs: Vec<VarDef> = Vec::new();
        let category_vars = compute_category_vars_map(&defs);
        let m = VarManager {
            poll_variable_interval: cfg.poll_variable_interval,
            vars: TextMap::new(),
            var_defs: defs,
            category_vars,
            waitlist_active: TextSet::new(),
            waitlist_poll: TextSet::new(),
        };
        assert(m@.var_defs =~= Seq::<VarDefView>::empty());
        m
    }

    /// Takes the definitions and says what to ask of the worker: for each polled
    /// variable, to make its probe and to ask it whether it is of use. Definitions
    /// of which two have one name are refused, and nothing changes.
    pub fn init(&mut self, var_defs: Vec<VarDef>) -> (r: Result<Vec<WorkerMsg>, VarError>)
        requires
            old(self).wf(),
        ensures
            final(self).wf(),
            r is Ok <==> distinct(def_names(def_views(var_defs@))),
            r matches Ok(msgs) ==> final(self)@ == old(self)@.init(def_views(var_defs@))
                && msgs_view(msgs@) == load_msgs(def_views(var_defs@)),
            r is Err ==> final(self)@ == old(self)@,
            r matches Err(e) ==> (e matches VarError::DuplicateName(n) && occurs_twice(
                def_names(def_views(var_defs@)),
                n@,
            )),
    {
        match first_duplicate(&var_defs) {
            Some(i) => {
                return Err(VarError::DuplicateName(var_defs[i].name.duplicate().into_string()));
            },
            None => {},
        }
        let ghost views = def_views(var_defs@);
        let mut msgs: Vec<WorkerMsg> = Vec::new();
        let mut waitlist = TextSet::new();
        let mut i: usize = 0;
        while i < var_defs.len()
            invariant
                i <= var_defs.len(),
                views == def_views(var_defs@),
                waitlist.wf(),
                waitlist@ == poll_names(views.take(i as int)).to_set(),
                msgs_view(msgs@) == load_msgs(views.take(i as int)),
            decreases var_defs.len() - i,
        {
            proof {
                lemma_take_next(views, i as int);
            }
            if let VarKind::BuiltinPoll(_) = &var_defs[i].kind {
                let ghost before = msgs@;
                msgs.push(WorkerMsg::LoadPollVarFns(var_defs[i].duplicate()));
                msgs.push(WorkerMsg::CallVarIsActive(var_defs[i].name.duplicate()));
                waitlist.insert(var_defs[i].name.duplicate().into_string());
                proof {
                    lemma_push_to_set(poll_names(views.take(i as int)), views[i as int].name);
                    assert(msgs_view(msgs@) =~= msgs_view(before).push(
                        WorkerMsgView::LoadPollVarFns(views[i as int]),
                    ).push(WorkerMsgView::CallVarIsActive(views[i as int].name)));
                }
            }
            i += 1;
        }
        proof {
            assert(views.take(views.len() as int) =~= views);
        }
        self.category_vars = compute_category_vars_map(&var_defs);
        self.var_defs = var_defs;
        self.waitlist_active = waitlist;
        self.waitlist_poll = TextSet::new();
        Ok(msgs)
    }

    /// Begins a poll: every polled variable is waited for, and one call for each
    /// is asked of the worker.
    pub fn poll_vars(&mut self) -> (msgs: Vec<WorkerMsg>)
        requires
            old(self).wf(),
        ensures
            final(self).wf(),
            final(self)@ == old(self)@.poll_vars(),
            msgs_view(msgs@) == poll_msgs(old(self)@.var_defs),
    {
        let ghost views = def_views(self.var_defs@);
        let mut msgs: Vec<WorkerMsg> = Vec::new();
        let mut waitlist = TextSet::new();
        let mut i: usize = 0;
        while i < self.var_defs.len()
            invariant
                i <= self.var_defs.len(),
                views == def_views(self.var_defs@),
                waitlist.wf(),
                waitlist@ == poll_names(views.take(i as int)).to_set(),
                msgs_view(msgs@) == poll_msgs(views.take(i as int)),
            decreases self.var_defs.len() - i,
        {
            proof {
                lemma_take_next(views, i as int);
            }
            if let VarKind::BuiltinPoll(_) = &self.var_defs[i].kind {
                let ghost before = msgs@;
                msgs.push(WorkerMsg::CallVarPoll(self.var_defs[i].name.duplicate()));
                waitlist.insert(self.var_defs[i].name.duplicate().into_string());
                proof {
                    lemma_push_to_set(poll_names(views.take(i as int)), views[i as int].name);
                    assert(msgs_view(msgs@) =~= msgs_view(before).push(
                        WorkerMsgView::CallVarPoll(views[i as int].name),
                    ));
                    assert(poll_msgs(views.take(i as int + 1)) =~= poll_msgs(
                        views.take(i as int),
                    ).push(WorkerMsgView::CallVarPoll(views[i as int].name)));
                }
            }
            i += 1;
        }
        proof {
            assert(views.take(views.len() as int) =~= views);
        }
        self.waitlist_poll = waitlist;
        msgs
    }

    /// Takes the definition named `name` out, if there is one.
    fn drop_def(&mut self, name: &str)
        requires
            old(self).wf(),
        ensures
            final(self).wf(),
            final(self)@ == (VarState {
                var_defs: without(old(self)@.var_defs, name@),
                ..old(self)@
            }),
    {
        let ghost views = def_views(self.var_defs@);
        proof {
            lemma_without(views, name@);
        }
        let mut i: usize = 0;
        let mut found: Option<usize> = None;
        while i < self.var_defs.len() && found.is_none()
            invariant
                i <= self.var_defs.len(),
                views == def_views(self.var_defs@),
                found is None ==> forall|j: int| 0 <= j < i ==> (#[trigger] views[j]).name != name@,
                found matches Some(k) ==> k < self.var_defs.len() && views[k as int].name == name@,
            decreases self.var_defs.len() - i + (if found is None { 1int } else { 0int }),
        {
            if str_eq(self.var_defs[i].name.as_str(), name) {
                found = Some(i);
            } else {
                i += 1;
            }
        }
        match found {
            Some(k) => {
                self.var_defs.remove(k);
                proof {
                    assert(def_views(self.var_defs@) =~= views.remove(k as int));
                }
                self.category_vars = compute_category_vars_map(&self.var_defs);
            },
            None => {},
        }
    }

    /// A probe has said whether its variable is of use. A variable that is of no
    /// use loses its definition. With the last answer the first poll begins, and
    /// its calls are returned. An answer that was not waited for changes nothing.
    pub fn handle_return_var_is_active(&mut self, name: &VarName, active: bool) -> (msgs: Vec<
        WorkerMsg,
    >)
        requires
            old(self).wf(),
        ensures
            final(self).wf(),
            final(self)@ == old(self)@.return_var_is_active(name@, active),
            msgs_view(msgs@) == old(self)@.return_var_is_active_msgs(name@, active),
    {
        if !self.waitlist_active.contains(name.as_str()) {
            let msgs: Vec<WorkerMsg> = Vec::new();
            assert(msgs_view(msgs@) =~= Seq::<WorkerMsgView>::empty());
            return msgs;
        }
        self.waitlist_active.remove(name.as_str());
        if !active {
            self.drop_def(name.as_str());
        }
        if self.waitlist_active.is_empty() {
            self.poll_vars()
        } else {
            let msgs: Vec<WorkerMsg> = Vec::new();
            assert(msgs_view(msgs@) =~= Seq::<WorkerMsgView>::empty());
            msgs
        }
    }

    /// A poll has returned: the variable is no longer waited for, and a value
    /// that came replaces the old one.
    pub fn handle_return_var_poll(&mut self, name: VarName, value: Option<VarValue>)
        requires
            old(self).wf(),
        ensures
            final(self).wf(),
            final(self)@ == old(self)@.return_var_poll(name@, value),
    {
        self.waitlist_poll.remove(name.as_str());
        if let Some(v) = value {
            self.vars.insert(name.into_string(), v);
        }
    }

    /// Computes every category variable, in the order of the definitions: it is
    /// true when a member of its category is true.
    pub fn update_category_vars(&mut self)
        requires
            old(self).wf(),
        ensures
            final(self).wf(),
            final(self)@ == old(self)@.update_category_vars(),
    {
        let ghost views = def_views(self.var_defs@);
        let ghost start = self.vars@;
        let mut i: usize = 0;
        while i < self.var_defs.len()
            invariant
                i <= self.var_defs.len(),
                self.wf(),
                views == def_views(self.var_defs@),
                self@ == (VarState {
                    vars: categories_updated(start, views, i as int),
                    ..old(self)@
                }),
            decreases self.var_defs.len() - i,
        {
            let ghost d = views[i as int];
            assert(d == self.var_defs@[i as int]@);
            if let VarKind::CategoryAny(def) = &self.var_defs[i].kind {
                let ghost c = def.category_name@;
                proof {
                    assert(d.mentions(c));
                    assert(crate::categories::is_category(views, c));
                    assert(category_index(views).contains_key(c));
                    assert(index_view(self.category_vars@).contains_key(c));
                    assert(self.category_vars@.contains_key(c));
                    assert(index_view(self.category_vars@)[c] == members(views, c));
                }
                let value = match self.category_vars.get(def.category_name.as_str()) {
                    Some(set) => any_var_true(&self.vars, set),
                    None => false,
                };
                let key = self.var_defs[i].name.duplicate().into_string();
                self.vars.insert(key, VarValue::Bool(value));
            }
            i += 1;
        }
    }

    /// The request to start the poll ticker.
    pub fn spawn_poll_var_interval(&self) -> (msg: WorkerMsg)
        ensures
            msg == WorkerMsg::SpawnPollVarInterval(self@.poll_variable_interval),
    {
        WorkerMsg::SpawnPollVarInterval(self.poll_variable_interval)
    }

    /// Whether every poll has returned.
    pub fn waitlist_poll_is_empty(&self) -> (b: bool)
        ensures
            b == (self@.waitlist_poll == Set::<Seq<char>>::empty()),
    {
        self.waitlist_poll.is_empty()
    }

    /// Whether every probe has said whether it is of use.
    pub fn waitlist_active_is_empty(&self) -> (b: bool)
        ensures
            b == (self@.waitlist_active == Set::<Seq<char>>::empty()),
    {
        self.waitlist_active.is_empty()
    }

    /// Whether every probe has said whether it is of use and every poll has
    /// returned.
    pub fn is_initialized(&self) -> (b: bool)
        ensures
            b == self@.is_initialized(),
    {
        self.waitlist_active.is_empty() && self.waitlist_poll.is_empty()
    }

    /// The values of the variables.
    pub fn vars(&self) -> (vars: &TextMap<VarValue>)
        ensures
            vars@ == self@.vars,
            self.wf() ==> vars.wf(),
    {
        &self.vars
    }

    /// The definitions.
    pub fn var_defs(&self) -> (defs: &Vec<VarDef>)
        ensures
            def_views(defs@) == self@.var_defs,
    {
        &self.var_defs
    }

    /// The members of every category.
    pub fn category_vars(&self) -> (index: &TextMap<TextSet>)
        ensures
            self.wf() ==> index.wf() && index_wf(index@) && index_view(index@) == category_index(
                self@.var_defs,
            ),
    {
        &self.category_vars
    }

    /// The variables whose probes have not yet said whether they are of use.
    pub fn waitlist_active(&self) -> (set: &TextSet)
        ensures
            set@ == self@.waitlist_active,
    {
        &self.waitlist_active
    }

    /// The variables whose polls have not yet returned.
    pub fn waitlist_poll(&self) -> (set: &TextSet)
        ensures
            set@ == self@.waitlist_poll,
    {
        &self.waitlist_poll
    }
}

} // verus!
