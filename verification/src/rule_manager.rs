//! Holds the stayup rules and their compiled scripts, and computes which rules
//! are true.

use vstd::prelude::*;
use crate::config::Config;
use crate::rules::def::{RuleDef, RuleDefView};
use crate::rules::error::RuleError;
use crate::script::{
    clone_scope, compile_script, limit_array_size, limit_map_size, limit_operations,
    limit_string_size, new_scope, new_script_engine, only_constants, push_bool_constant,
    register_not, scope_constants, script_compiles, script_value, ScriptScope,
};
use crate::text::str_eq;
use crate::text_map::{distinct, occurs_twice, TextMap};
use crate::vars::value::VarValue;
use crate::vecs::reversed;

verus! {

/// The number of operations after which the evaluation of a script is given up.
pub const SCRIPT_MAX_OPERATIONS: u64 = 1_000_000;

/// The most bytes that a text of a script may grow to.
pub const SCRIPT_MAX_STRING_SIZE: usize = 65_536;

/// The most items that an array or a map of a script may grow to.
pub const SCRIPT_MAX_COLLECTION_SIZE: usize = 4_096;

/// The script of every rule compiles.
pub open spec fn all_compile(rules: Seq<RuleDefView>) -> bool {
    forall|i: int| 0 <= i < rules.len() ==> script_compiles((#[trigger] rules[i]).value_script)
}

/// The rule at place `i` is the first whose script does not compile.
pub open spec fn first_uncompiled(rules: Seq<RuleDefView>, i: int) -> bool {
    &&& 0 <= i < rules.len()
    &&& !script_compiles(rules[i].value_script)
    &&& forall|j: int| 0 <= j < i ==> script_compiles((#[trigger] rules[j]).value_script)
}

/// A run of rule definitions as mathematics.
pub open spec fn rule_views(defs: Seq<RuleDef>) -> Seq<RuleDefView> {
    defs.map_values(|d: RuleDef| d@)
}

/// The names of a run of rule definitions.
pub open spec fn rule_names(defs: Seq<RuleDefView>) -> Seq<Seq<char>> {
    defs.map_values(|d: RuleDefView| d.name)
}

/// The variables as the constants of a script: each name with its truth value.
pub open spec fn script_constants(vars: Map<Seq<char>, VarValue>) -> Map<Seq<char>, bool> {
    vars.map_values(|v: VarValue| v == VarValue::Bool(true))
}

/// What evaluating a script gave, without the error's text.
pub open spec fn outcome(result: Result<bool, String>) -> Option<bool> {
    match result {
        Ok(v) => Some(v),
        Err(_) => None,
    }
}

/// What evaluating each script gave, without the errors' texts.
pub open spec fn outcomes(results: Seq<Result<bool, String>>) -> Seq<Option<bool>> {
    results.map_values(|r: Result<bool, String>| outcome(r))
}

/// What evaluating the script of each rule gives over these constants.
pub open spec fn evaluated(rules: Seq<RuleDefView>, constants: Map<Seq<char>, bool>) -> Seq<
    Option<bool>,
> {
    rules.map_values(|r: RuleDefView| script_value(r.value_script, constants))
}

/// The stayup values after the outcomes of the first `n` rules were stored: a
/// truth value replaces the rule's entry, a failure removes it.
pub open spec fn stored(
    values: Map<Seq<char>, bool>,
    rules: Seq<RuleDefView>,
    results: Seq<Option<bool>>,
    n: int,
) -> Map<Seq<char>, bool>
    decreases n,
{
    if n <= 0 {
        values
    } else {
        let before = stored(values, rules, results, n - 1);
        match results[n - 1] {
            Some(v) => before.insert(rules[n - 1].name, v),
            None => before.remove(rules[n - 1].name),
        }
    }
}

/// Some outcome is `true`.
pub open spec fn some_true(results: Seq<Option<bool>>) -> bool {
    exists|i: int| 0 <= i < results.len() && #[trigger] results[i] == Some(true)
}

/// The rule manager as mathematics.
pub struct RuleState {
    pub rules: Seq<RuleDefView>,
    pub stayup_values: Map<Seq<char>, bool>,
}

impl RuleState {
    /// The state of a manager that was just made.
    pub open spec fn fresh() -> RuleState {
        RuleState { rules: Seq::empty(), stayup_values: Map::empty() }
    }

    /// Rule names are distinct, and only rules have stayup values.
    pub open spec fn wf(self) -> bool {
        &&& distinct(rule_names(self.rules))
        &&& forall|r: Seq<char>| #[trigger]
            self.stayup_values.contains_key(r) ==> rule_names(self.rules).contains(r)
    }

    /// The rules are loaded; none has a value yet.
    pub open spec fn init(self, rules: Seq<RuleDefView>) -> RuleState {
        RuleState { rules, stayup_values: Map::empty() }
    }

    /// The outcomes of one evaluation of every rule are stored.
    pub open spec fn store(self, results: Seq<Option<bool>>) -> RuleState {
        RuleState {
            stayup_values: stored(self.stayup_values, self.rules, results, self.rules.len() as int),
            ..self
        }
    }

    /// Some rule has the stayup value `true`.
    pub open spec fn is_stayup_active(self) -> bool {
        exists|r: Seq<char>| #[trigger] self.stayup_values.contains_key(r) && self.stayup_values[r]
    }
}

/// What storing the outcomes of the first `n` rules does, rule by rule: a rule
/// among them has its outcome as value, or none where it failed; every other
/// entry is as it was.
pub proof fn lemma_stored(
    values: Map<Seq<char>, bool>,
    rules: Seq<RuleDefView>,
    results: Seq<Option<bool>>,
    n: int,
)
    requires
        distinct(rule_names(rules)),
        0 <= n <= rules.len(),
        results.len() == rules.len(),
    ensures
        forall|i: int|
            0 <= i < n ==> (match #[trigger] results[i] {
                Some(v) => stored(values, rules, results, n).contains_key(rules[i].name) && stored(
                    values,
                    rules,
                    results,
                    n,
                )[rules[i].name] == v,
                None => !stored(values, rules, results, n).contains_key(rules[i].name),
            }),
        forall|r: Seq<char>|
            (forall|i: int| 0 <= i < n ==> (#[trigger] rules[i]).name != r) ==> (#[trigger] stored(
                values,
                rules,
                results,
                n,
            ).contains_key(r)) == values.contains_key(r) && stored(values, rules, results, n)[r]
                == values[r],
    decreases n,
{
    if n > 0 {
        lemma_stored(values, rules, results, n - 1);
        let names = rule_names(rules);
        let before = stored(values, rules, results, n - 1);
        let after = stored(values, rules, results, n);
        assert forall|i: int| 0 <= i < n implies (match #[trigger] results[i] {
            Some(v) => after.contains_key(rules[i].name) && after[rules[i].name] == v,
            None => !after.contains_key(rules[i].name),
        }) by {
            if i < n - 1 {
                assert(names[i] == rules[i].name);
                assert(names[n - 1] == rules[n - 1].name);
            }
        }
        assert forall|r: Seq<char>|
            (forall|i: int| 0 <= i < n ==> (#[trigger] rules[i]).name != r) implies (
        #[trigger] after.contains_key(r)) == values.contains_key(r) && after[r] == values[r] by {
            assert(rules[n - 1].name != r);
            assert forall|i: int| 0 <= i < n - 1 implies (#[trigger] rules[i]).name != r by {}
            assert(before.contains_key(r) == values.contains_key(r));
        }
    }
}

/// After the outcomes of all rules were stored, a stayup rule is active exactly
/// when some rule evaluated to true.
pub proof fn lemma_active_iff_some_true(s: RuleState, results: Seq<Option<bool>>)
    requires
        s.wf(),
        results.len() == s.rules.len(),
    ensures
        s.store(results).wf(),
        s.store(results).is_stayup_active() <==> some_true(results),
{
    let n = s.rules.len() as int;
    let after = s.store(results).stayup_values;
    let names = rule_names(s.rules);
    lemma_stored(s.stayup_values, s.rules, results, n);
    assert forall|r: Seq<char>| #[trigger] after.contains_key(r) implies names.contains(r) by {
        if !names.contains(r) {
            assert forall|i: int| 0 <= i < n implies (#[trigger] s.rules[i]).name != r by {
                assert(names[i] == s.rules[i].name);
            }
            assert(s.stayup_values.contains_key(r));
        }
    }
    if s.store(results).is_stayup_active() {
        let r = choose|r: Seq<char>| #[trigger] after.contains_key(r) && after[r];
        let i = choose|i: int| 0 <= i < names.len() && names[i] == r;
        assert(s.rules[i].name == r);
        assert(results[i] == Some(true));
    }
    if some_true(results) {
        let i = choose|i: int| 0 <= i < results.len() && #[trigger] results[i] == Some(true);
        assert(after.contains_key(s.rules[i].name) && after[s.rules[i].name]);
    }
}

/// Storing the same outcomes once more changes nothing.
pub proof fn lemma_store_twice(s: RuleState, results: Seq<Option<bool>>)
    requires
        s.wf(),
        results.len() == s.rules.len(),
    ensures
        s.store(results).store(results) == s.store(results),
{
    let n = s.rules.len() as int;
    let once = s.store(results);
    let twice = once.store(results);
    lemma_stored(s.stayup_values, s.rules, results, n);
    lemma_stored(once.stayup_values, s.rules, results, n);
    let a = once.stayup_values;
    let b = twice.stayup_values;
    assert forall|r: Seq<char>| #[trigger] b.contains_key(r) == a.contains_key(r) by {
        if exists|i: int| 0 <= i < n && (#[trigger] s.rules[i]).name == r {
            let i = choose|i: int| 0 <= i < n && (#[trigger] s.rules[i]).name == r;
            assert(results[i] is Some || results[i] is None);
        } else {
            assert forall|i: int| 0 <= i < n implies (#[trigger] s.rules[i]).name != r by {}
        }
    }
    assert forall|r: Seq<char>| a.contains_key(r) implies #[trigger] b[r] == a[r] by {
        if exists|i: int| 0 <= i < n && (#[trigger] s.rules[i]).name == r {
            let i = choose|i: int| 0 <= i < n && (#[trigger] s.rules[i]).name == r;
            assert(results[i] is Some || results[i] is None);
        } else {
            assert forall|i: int| 0 <= i < n implies (#[trigger] s.rules[i]).name != r by {}
        }
    }
    assert(twice.stayup_values =~= once.stayup_values);
}

/// Computing the stayup values is idempotent: over the same rules and the same
/// constants the scripts give the same, and storing it once more changes nothing.
pub proof fn lemma_compute_twice(s: RuleState, constants: Map<Seq<char>, bool>)
    requires
        s.wf(),
    ensures
        s.store(evaluated(s.rules, constants)).rules == s.rules,
        s.store(evaluated(s.rules, constants)).store(evaluated(s.rules, constants)) == s.store(
            evaluated(s.rules, constants),
        ),
{
    lemma_store_twice(s, evaluated(s.rules, constants));
}

/// A rule with its compiled script: `RuleManager::compile` alone makes one, of a
/// definition and of what the script engine compiled its script to.
pub struct CompiledRule {
    def: RuleDef,
    ast: rhai::AST,
}

/// `rhai::Engine::eval_ast_with_scope::<bool>` on the compiled script of a rule:
/// the truth value that the script gives, or the error as text when the
/// evaluation fails or gives another type. The engine has no function that reads
/// anything but the script and the scope, and the scope holds truth values as
/// constants and nothing else, so that the script and those constants decide.
/// Nothing is claimed of the scope after the call: a script may declare variables,
/// which stay in it.
#[verifier::external_body]
fn eval_rule(engine: &rhai::Engine, scope: &mut ScriptScope, rule: &CompiledRule) -> (r: Result<
    bool,
    String,
>)
    requires
        only_constants(*old(scope)),
    ensures
        outcome(r) == script_value(rule@.value_script, scope_constants(*old(scope))),
{
    match engine.eval_ast_with_scope::<bool>(scope, &rule.ast) {
        Ok(value) => Ok(value),
        Err(e) => Err(e.to_string()),
    }
}

impl View for CompiledRule {
    type V = RuleDefView;

    closed spec fn view(&self) -> RuleDefView {
        self.def@
    }
}

impl CompiledRule {
    /// The definition of the rule.
    pub fn def(&self) -> (d: &RuleDef)
        ensures
            d@ == self@,
    {
        &self.def
    }
}

/// A run of compiled rules as mathematics.
pub open spec fn compiled_views(rules: Seq<CompiledRule>) -> Seq<RuleDefView> {
    rules.map_values(|c: CompiledRule| c@)
}

/// The place of the first rule that did not compile, if there is one.
pub open spec fn first_failure(compiled: Seq<Result<CompiledRule, RuleError>>) -> Option<int>
    decreases compiled.len(),
{
    if compiled.len() == 0 {
        None
    } else {
        match first_failure(compiled.drop_last()) {
            Some(i) => Some(i),
            None => if compiled.last() is Err {
                Some(compiled.len() - 1)
            } else {
                None
            },
        }
    }
}

/// `first_failure` gives the least place of a rule that did not compile, and
/// none exactly when every rule compiled.
pub proof fn lemma_first_failure(compiled: Seq<Result<CompiledRule, RuleError>>)
    ensures
        match first_failure(compiled) {
            Some(i) => 0 <= i < compiled.len() && compiled[i] is Err && forall|j: int|
                0 <= j < i ==> (#[trigger] compiled[j]) is Ok,
            None => forall|j: int| 0 <= j < compiled.len() ==> (#[trigger] compiled[j]) is Ok,
        },
    decreases compiled.len(),
{
    if compiled.len() > 0 {
        let front = compiled.drop_last();
        lemma_first_failure(front);
        match first_failure(front) {
            Some(i) => {
                assert(compiled[i] == front[i]);
                assert forall|j: int| 0 <= j < i implies (#[trigger] compiled[j]) is Ok by {
                    assert(compiled[j] == front[j]);
                }
            },
            None => {
                assert forall|j: int| 0 <= j < compiled.len() - 1 implies (
                #[trigger] compiled[j]) is Ok by {
                    assert(compiled[j] == front[j]);
                }
            },
        }
    }
}

/// The rules of a run in which every rule compiled.
pub open spec fn compiled_rules(compiled: Seq<Result<CompiledRule, RuleError>>) -> Seq<
    RuleDefView,
> {
    compiled.map_values(|c: Result<CompiledRule, RuleError>| c->Ok_0@)
}

/// The rule manager.
pub struct RuleManager {
    script_engine: rhai::Engine,
    script_scope: ScriptScope,
    rules: Vec<CompiledRule>,
    stayup_values: TextMap<bool>,
}

impl View for RuleManager {
    type V = RuleState;

    closed spec fn view(&self) -> RuleState {
        RuleState { rules: compiled_views(self.rules@), stayup_values: self.stayup_values@ }
    }
}

/// The place of the first rule whose name came before, if there is one.
fn first_duplicate_rule(rules: &Vec<CompiledRule>) -> (r: Option<usize>)
    ensures
        r is None <==> distinct(rule_names(compiled_views(rules@))),
        r matches Some(i) ==> i < rules.len() && occurs_twice(
            rule_names(compiled_views(rules@)),
            rules@[i as int]@.name,
        ),
{
    let ghost names = rule_names(compiled_views(rules@));
    let mut i: usize = 0;
    while i < rules.len()
        invariant
            i <= rules.len(),
            names == rule_names(compiled_views(rules@)),
            forall|a: int, b: int| 0 <= a < b < i ==> names[a] != names[b],
        decreases rules.len() - i,
    {
        let mut j: usize = 0;
        while j < i
            invariant
                j <= i,
                i < rules.len(),
                names == rule_names(compiled_views(rules@)),
                forall|a: int| 0 <= a < j ==> names[a] != names[i as int],
            decreases i - j,
        {
            if str_eq(rules[j].def.name.as_str(), rules[i].def.name.as_str()) {
                assert(names[j as int] == names[i as int]);
                assert(names[i as int] == rules@[i as int]@.name);
                return Some(i);
            }
            j += 1;
        }
        i += 1;
    }
    None
}

/// The rules of a run, if every one compiled; else the first error.
pub fn all_compiled(compiled: Vec<Result<CompiledRule, RuleError>>) -> (r: Result<
    Vec<CompiledRule>,
    RuleError,
>)
    ensures
        match first_failure(compiled@) {
            Some(i) => r == Err::<Vec<CompiledRule>, RuleError>(compiled@[i]->Err_0),
            None => r is Ok && compiled_views(r->Ok_0@) == compiled_rules(compiled@),
        },
{
    let ghost all = compiled@;
    let mut rest = reversed(compiled);
    let mut out: Vec<CompiledRule> = Vec::new();
    while rest.len() > 0
        invariant
            all == compiled@,
            rest@.len() + out@.len() == all.len(),
            forall|j: int| 0 <= j < rest@.len() ==> rest@[j] == all[all.len() - 1 - j],
            forall|j: int|
                0 <= j < out@.len() ==> (#[trigger] all[j]) is Ok && out@[j] == all[j]->Ok_0,
        decreases rest@.len(),
    {
        let ghost k = out@.len() as int;
        let ghost before = rest@;
        let item = rest.pop();
        assert(before.last() == all[k]);
        match item {
            Some(Ok(rule)) => {
                out.push(rule);
            },
            Some(Err(e)) => {
                proof {
                    assert(all[k] == Err::<CompiledRule, RuleError>(e));
                    lemma_first_failure(all);
                    assert(first_failure(all) is Some);
                    let f = first_failure(all)->0;
                    if f < k {
                        assert(all[f] is Ok);
                    }
                    if k < f {
                        assert(all[k] is Ok);
                    }
                    assert(f == k);
                }
                return Err(e);
            },
            None => {},
        }
    }
    proof {
        lemma_first_failure(all);
        if first_failure(all) is Some {
            let f = first_failure(all)->0;
            assert(all[f] is Ok);
        }
        assert(compiled_views(out@) =~= compiled_rules(all));
    }
    Ok(out)
}

/// What evaluating each script gave, without the errors' texts.
pub fn outcomes_of(results: &Vec<Result<bool, String>>) -> (r: Vec<Option<bool>>)
    ensures
        r@ == outcomes(results@),
{
    let mut out: Vec<Option<bool>> = Vec::new();
    let mut i: usize = 0;
    while i < results.len()
        invariant
            i <= results.len(),
            out@.len() == i,
            forall|j: int| 0 <= j < i ==> out@[j] == outcome(results@[j]),
        decreases results.len() - i,
    {
        let o = match &results[i] {
            Ok(v) => Some(*v),
            Err(_) => None,
        };
        out.push(o);
        i += 1;
    }
    assert(out@ =~= outcomes(results@));
    out
}

impl RuleManager {
    /// The stayup values keep their keys distinct and belong to rules, rule names
    /// are distinct, and the script scope holds constants only.
    pub closed spec fn wf(&self) -> bool {
        &&& self.stayup_values.wf()
        &&& only_constants(self.script_scope)
        &&& self@.wf()
    }

    /// The truth values that the script scope holds as constants.
    pub closed spec fn scope(&self) -> Map<Seq<char>, bool> {
        scope_constants(self.script_scope)
    }

    /// A well-formed manager is well formed as mathematics.
    pub proof fn lemma_view_wf(&self)
        requires
            self.wf(),
        ensures
            self@.wf(),
    {
    }

    /// A manager without rules, with an empty script scope. Its script engine has
    /// the language and its built-in operators and no function of a library, and
    /// gives an evaluation up that counts too many operations or grows too large.
    pub fn new(_cfg: &Config) -> (m: RuleManager)
        ensures
            m.wf(),
            m@ == RuleState::fresh(),
            m.scope() == Map::<Seq<char>, bool>::empty(),
    {
        let mut engine = new_script_engine();
        register_not(&mut engine);
        limit_operations(&mut engine, SCRIPT_MAX_OPERATIONS);
        limit_string_size(&mut engine, SCRIPT_MAX_STRING_SIZE);
        limit_array_size(&mut engine, SCRIPT_MAX_COLLECTION_SIZE);
        limit_map_size(&mut engine, SCRIPT_MAX_COLLECTION_SIZE);
        let m = RuleManager {
            script_engine: engine,
            script_scope: new_scope(),
            rules: Vec::new(),
            stayup_values: TextMap::new(),
        };
        assert(m@.rules =~= Seq::<RuleDefView>::empty());
        m
    }

    /// Compiles the script of a rule. The error names the rule and holds the
    /// script engine's words.
    pub fn compile(&self, def: &RuleDef) -> (r: Result<CompiledRule, RuleError>)
        ensures
            r is Ok <==> script_compiles(def@.value_script),
            r matches Ok(rule) ==> rule@ == def@,
            r matches Err(e) ==> (e matches RuleError::ScriptCompile(n, _) && n@ == def@.name),
    {
        match compile_script(&self.script_engine, def.value_script()) {
            Ok(ast) => Ok(CompiledRule { def: def.duplicate(), ast }),
            Err(text) => Err(RuleError::ScriptCompile(def.name.duplicate().into_string(), text)),
        }
    }

    /// Compiles the script of every definition, in their order.
    pub fn compile_stayup_value_asts(&self, rule_defs: &Vec<RuleDef>) -> (compiled: Vec<
        Result<CompiledRule, RuleError>,
    >)
        ensures
            compiled@.len() == rule_defs@.len(),
            forall|i: int|
                0 <= i < compiled@.len() ==> ((#[trigger] compiled@[i]) is Ok <==> script_compiles(
                    rule_defs@[i]@.value_script,
                )),
            forall|i: int|
                0 <= i < compiled@.len() ==> (match #[trigger] compiled@[i] {
                    Ok(rule) => rule@ == rule_defs@[i]@,
                    Err(e) => e matches RuleError::ScriptCompile(n, _) && n@
                        == rule_defs@[i]@.name,
                }),
    {
        let mut compiled: Vec<Result<CompiledRule, RuleError>> = Vec::new();
        let mut i: usize = 0;
        while i < rule_defs.len()
            invariant
                i <= rule_defs.len(),
                compiled@.len() == i,
                forall|j: int|
                    0 <= j < i ==> ((#[trigger] compiled@[j]) is Ok <==> script_compiles(
                        rule_defs@[j]@.value_script,
                    )),
                forall|j: int|
                    0 <= j < i ==> (match #[trigger] compiled@[j] {
                        Ok(rule) => rule@ == rule_defs@[j]@,
                        Err(e) => e matches RuleError::ScriptCompile(n, _) && n@
                            == rule_defs@[j]@.name,
                    }),
            decreases rule_defs.len() - i,
        {
            let c = self.compile(&rule_defs[i]);
            compiled.push(c);
            i += 1;
        }
        compiled
    }

    /// Takes the rules that were compiled. The first rule that did not compile is
    /// the error; else rules of which two have one name are refused. Where it
    /// refuses, nothing changes.
    pub fn install(&mut self, compiled: Vec<Result<CompiledRule, RuleError>>) -> (r: Result<
        (),
        RuleError,
    >)
        requires
            old(self).wf(),
        ensures
            final(self).wf(),
            final(self).scope() == old(self).scope(),
            r is Err ==> final(self)@ == old(self)@,
            match first_failure(compiled@) {
                Some(i) => r == Err::<(), RuleError>(compiled@[i]->Err_0),
                None => if distinct(rule_names(compiled_rules(compiled@))) {
                    r is Ok && final(self)@ == old(self)@.init(compiled_rules(compiled@))
                } else {
                    r matches Err(RuleError::DuplicateName(n)) && occurs_twice(
                        rule_names(compiled_rules(compiled@)),
                        n@,
                    )
                },
            },
    {
        let rules = match all_compiled(compiled) {
            Ok(rules) => rules,
            Err(e) => {
                return Err(e);
            },
        };
        match first_duplicate_rule(&rules) {
            Some(i) => {
                return Err(RuleError::DuplicateName(rules[i].def.name.duplicate().into_string()));
            },
            None => {},
        }
        self.rules = rules;
        self.stayup_values = TextMap::new();
        Ok(())
    }

    /// Compiles the scripts of the definitions and takes them. They are taken exactly
    /// when every script compiles and no two definitions have one name. Else the
    /// first rule whose script does not compile is the error, or, where all
    /// compile, a name that two definitions have. Where it refuses, nothing changes.
    pub fn init(&mut self, rule_defs: Vec<RuleDef>) -> (r: Result<(), RuleError>)
        requires
            old(self).wf(),
        ensures
            final(self).wf(),
            final(self).scope() == old(self).scope(),
            r is Ok <==> all_compile(rule_views(rule_defs@)) && distinct(
                rule_names(rule_views(rule_defs@)),
            ),
            r is Ok ==> final(self)@ == old(self)@.init(rule_views(rule_defs@)),
            r is Err ==> final(self)@ == old(self)@,
            !all_compile(rule_views(rule_defs@)) ==> (r matches Err(
                RuleError::ScriptCompile(n, _),
            ) && exists|i: int| #[trigger]
                first_uncompiled(rule_views(rule_defs@), i) && n@ == rule_defs@[i]@.name),
            all_compile(rule_views(rule_defs@)) && !distinct(rule_names(rule_views(rule_defs@)))
                ==> (r matches Err(RuleError::DuplicateName(n)) && occurs_twice(
                rule_names(rule_views(rule_defs@)),
                n@,
            )),
    {
        let compiled = self.compile_stayup_value_asts(&rule_defs);
        proof {
            let views = rule_views(rule_defs@);
            lemma_first_failure(compiled@);
            match first_failure(compiled@) {
                None => {
                    assert(compiled_rules(compiled@) =~= views);
                    assert forall|i: int| 0 <= i < views.len() implies script_compiles(
                        (#[trigger] views[i]).value_script,
                    ) by {
                        assert(compiled@[i] is Ok);
                    }
                },
                Some(f) => {
                    assert(compiled@[f] is Err);
                    assert(!script_compiles(views[f].value_script));
                    assert forall|j: int| 0 <= j < f implies script_compiles(
                        (#[trigger] views[j]).value_script,
                    ) by {
                        assert(compiled@[j] is Ok);
                    }
                    assert(first_uncompiled(views, f));
                },
            }
        }
        self.install(compiled)
    }

    /// The rules, in the order in which they were given.
    pub fn rule_count(&self) -> (n: usize)
        ensures
            n == self@.rules.len(),
    {
        self.rules.len()
    }

    /// The stayup values of the rules that evaluated at the last tick.
    pub fn stayup_values(&self) -> (values: &TextMap<bool>)
        ensures
            values@ == self@.stayup_values,
            self.wf() ==> values.wf(),
    {
        &self.stayup_values
    }

    /// Makes the script scope anew: each variable is a constant of its name, with
    /// its truth value.
    pub fn reset_script_scope(&mut self, vars: &TextMap<VarValue>)
        requires
            vars.wf(),
        ensures
            final(self)@ == old(self)@,
            old(self).wf() ==> final(self).wf(),
            final(self).scope() == script_constants(vars@),
    {
        let mut scope = new_scope();
        let ghost keys = vars.keys();
        let ghost values = vars.values();
        proof {
            vars.lemma_entries();
        }
        let mut i: usize = 0;
        while i < vars.len()
            invariant
                i <= keys.len(),
                vars.wf(),
                keys == vars.keys(),
                values == vars.values(),
                only_constants(scope),
                forall|k: Seq<char>|
                    scope_constants(scope).contains_key(k) <==> keys.take(i as int).contains(k),
                forall|j: int|
                    0 <= j < i ==> scope_constants(scope)[#[trigger] keys[j]] == (values[j]
                        == VarValue::Bool(true)),
            decreases keys.len() - i,
        {
            let ghost before = scope_constants(scope);
            let value = vars.value_at(i).is_true();
            push_bool_constant(&mut scope, vars.key_at(i).as_str(), value);
            proof {
                let cur = keys.take(i as int);
                let next = keys.take(i as int + 1);
                assert(next =~= cur.push(keys[i as int]));
                assert forall|k: Seq<char>|
                    scope_constants(scope).contains_key(k) <==> next.contains(k) by {
                    if next.contains(k) {
                        let a = choose|a: int| 0 <= a < next.len() && next[a] == k;
                        if a < i {
                            assert(cur[a] == k);
                        }
                    }
                    if cur.contains(k) {
                        let a = choose|a: int| 0 <= a < cur.len() && cur[a] == k;
                        assert(next[a] == k);
                    }
                    if k == keys[i as int] {
                        assert(next[i as int] == k);
                    }
                }
            }
            i += 1;
        }
        proof {
            assert(keys.take(keys.len() as int) =~= keys);
            let consts = scope_constants(scope);
            let want = script_constants(vars@);
            assert forall|k: Seq<char>| consts.contains_key(k) == want.contains_key(k) by {}
            assert forall|k: Seq<char>| consts.contains_key(k) implies consts[k] == want[k] by {
                let j = choose|j: int| 0 <= j < keys.len() && keys[j] == k;
                assert(keys[j] == k);
            }
            assert(consts =~= want);
        }
        self.script_scope = scope;
    }

    /// Evaluates the script of every rule, each over a copy of the script scope, in
    /// the order of the rules: what a script declares does not reach the next.
    fn evaluate_all(&self) -> (results: Vec<Result<bool, String>>)
        requires
            self.wf(),
        ensures
            outcomes(results@) == evaluated(self@.rules, self.scope()),
    {
        let mut results: Vec<Result<bool, String>> = Vec::new();
        let mut i: usize = 0;
        while i < self.rules.len()
            invariant
                i <= self.rules.len(),
                results@.len() == i,
                only_constants(self.script_scope),
                forall|j: int|
                    0 <= j < i ==> outcome(#[trigger] results@[j]) == script_value(
                        self.rules@[j]@.value_script,
                        self.scope(),
                    ),
            decreases self.rules.len() - i,
        {
            let mut scope = clone_scope(&self.script_scope);
            let r = eval_rule(&self.script_engine, &mut scope, &self.rules[i]);
            results.push(r);
            i += 1;
        }
        assert(outcomes(results@) =~= evaluated(self@.rules, self.scope()));
        results
    }

    /// Stores the outcomes of one evaluation of every rule: a truth value becomes
    /// the rule's stayup value, a failure takes the rule's stayup value away.
    pub fn store_stayup_values(&mut self, results: &Vec<Option<bool>>)
        requires
            old(self).wf(),
            results@.len() == old(self)@.rules.len(),
        ensures
            final(self).wf(),
            final(self)@ == old(self)@.store(results@),
            final(self).scope() == old(self).scope(),
            final(self)@.is_stayup_active() <==> some_true(results@),
    {
        let ghost start = self.stayup_values@;
        let ghost rules = self@.rules;
        let mut i: usize = 0;
        while i < self.rules.len()
            invariant
                i <= self.rules.len(),
                results@.len() == self.rules@.len(),
                rules == compiled_views(self.rules@),
                self.stayup_values.wf(),
                self.stayup_values@ == stored(start, rules, results@, i as int),
                self.script_scope == old(self).script_scope,
            decreases self.rules.len() - i,
        {
            assert(rules[i as int] == self.rules@[i as int]@);
            match results[i] {
                Some(v) => {
                    self.stayup_values.insert(self.rules[i].def.name.duplicate().into_string(), v);
                },
                None => {
                    self.stayup_values.remove(self.rules[i].def.name.as_str());
                },
            }
            i += 1;
        }
        proof {
            lemma_active_iff_some_true(old(self)@, results@);
        }
    }

    /// Evaluates every rule over the script scope and stores the outcomes: the
    /// stayup value of a rule is what its script gives over the constants of the
    /// scope. The results are returned as the script engine gave them, in the order
    /// of the rules. The scope stays as it is, so that doing it again gives the same.
    pub fn compute_stayup_values(&mut self) -> (results: Vec<Result<bool, String>>)
        requires
            old(self).wf(),
        ensures
            final(self).wf(),
            final(self).scope() == old(self).scope(),
            results@.len() == old(self)@.rules.len(),
            outcomes(results@) == evaluated(old(self)@.rules, old(self).scope()),
            final(self)@ == old(self)@.store(evaluated(old(self)@.rules, old(self).scope())),
            final(self)@.is_stayup_active() <==> some_true(
                evaluated(old(self)@.rules, old(self).scope()),
            ),
    {
        let results = self.evaluate_all();
        let plain = outcomes_of(&results);
        self.store_stayup_values(&plain);
        results
    }

    /// Whether some rule has the stayup value `true`.
    pub fn is_stayup_active(&self) -> (b: bool)
        requires
            self.wf(),
        ensures
            b == self@.is_stayup_active(),
    {
        proof {
            self.stayup_values.lemma_entries();
        }
        let mut i: usize = 0;
        while i < self.stayup_values.len()
            invariant
                i <= self.stayup_values.keys().len(),
                self.stayup_values.wf(),
                forall|j: int| 0 <= j < i ==> !(#[trigger] self.stayup_values.values()[j]),
            decreases self.stayup_values.keys().len() - i,
        {
            if *self.stayup_values.value_at(i) {
                proof {
                    self.stayup_values.lemma_entries();
                    let k = self.stayup_values.keys()[i as int];
                    assert(self.stayup_values@.contains_key(k) && self.stayup_values@[k]);
                    assert(self@.stayup_values.contains_key(k) && self@.stayup_values[k]);
                }
                return true;
            }
            i += 1;
        }
        proof {
            self.stayup_values.lemma_entries();
            if self@.is_stayup_active() {
                let r = choose|r: Seq<char>| #[trigger]
                    self.stayup_values@.contains_key(r) && self.stayup_values@[r];
                let j = crate::text_map::position(self.stayup_values.keys(), r);
                assert(self.stayup_values.keys()[j] == r);
                assert(!self.stayup_values.values()[j]);
            }
        }
        false
    }
}

} // verus!
