//! The script engine that evaluates rule scripts: the calls into the `rhai`
//! crate that make and limit the engine, compile a script and fill a scope, each
//! with what is claimed of it. The call that evaluates a compiled rule stands with
//! the rule manager.

use vstd::prelude::*;

verus! {

/// The script engine of `rhai`, of which nothing is known here.
#[verifier::external_type_specification]
#[verifier::external_body]
pub struct ExScriptEngine(rhai::Engine);

/// A compiled script of `rhai`, of which nothing is known here.
#[verifier::external_type_specification]
#[verifier::external_body]
pub struct ExScriptAst(rhai::AST);

/// A scope of `rhai`; of what it holds, `scope_constants` names the constants
/// that are truth values.
#[verifier::external_type_specification]
#[verifier::external_body]
pub struct ExScriptScope<'a>(rhai::Scope<'a>);

/// The scope of a script: the constants that it can read.
pub type ScriptScope = rhai::Scope<'static>;

/// The truth values that a scope holds as constants, by name: for each name the
/// entry that was pushed last.
pub uninterp spec fn scope_constants(scope: ScriptScope) -> Map<Seq<char>, bool>;

/// Every entry of the scope is a read-only truth value.
pub uninterp spec fn only_constants(scope: ScriptScope) -> bool;

/// What a script gives when it is compiled and evaluated by an engine that
/// `new_script_engine` made and the library limited, over a scope that holds
/// these truth values as constants and nothing else: its truth value, or nothing
/// where the evaluation fails or gives another type. Such an engine has no
/// function that reads anything but the script and the scope.
pub uninterp spec fn script_value(script: Seq<char>, constants: Map<Seq<char>, bool>) -> Option<
    bool,
>;

/// No constant at all.
pub open spec fn no_constants() -> Map<Seq<char>, bool> {
    Map::empty()
}

/// Whether a script compiles, as `rhai::Engine::compile` says for an engine
/// that `new_script_engine` made and the library limited: the parser reads the
/// script alone.
pub uninterp spec fn script_compiles(script: Seq<char>) -> bool;

/// The truth value that is not `x`: what the operator `!` of a script does.
pub fn logical_not(x: bool) -> (r: bool)
    ensures
        r == !x,
{
    !x
}

/// `rhai::Engine::new_raw`: an engine with the language and its built-in
/// operators, and with no function registered: a script can neither read the time
/// nor wait. Nothing is claimed of it.
#[verifier::external_body]
pub(crate) fn new_script_engine() -> (engine: rhai::Engine) {
    rhai::Engine::new_raw()
}

/// `rhai::Engine::register_fn`: from now on the operator `!` on a truth value is
/// `logical_not`. Nothing is claimed of the engine after the call.
#[verifier::external_body]
pub(crate) fn register_not(engine: &mut rhai::Engine) {
    engine.register_fn("!", |x: bool| logical_not(x));
}

/// `rhai::Engine::set_max_operations`: from now on the engine ends an evaluation
/// with an error once it has counted `max_operations` operations. Nothing is
/// claimed of the engine after the call.
#[verifier::external_body]
pub(crate) fn limit_operations(engine: &mut rhai::Engine, max_operations: u64) {
    engine.set_max_operations(max_operations);
}

/// `rhai::Engine::set_max_string_size`: from now on the engine ends an evaluation
/// with an error where a text grows beyond `max_len` bytes. Nothing is claimed of
/// the engine after the call.
#[verifier::external_body]
pub(crate) fn limit_string_size(engine: &mut rhai::Engine, max_len: usize) {
    engine.set_max_string_size(max_len);
}

/// `rhai::Engine::set_max_array_size`: from now on the engine ends an evaluation
/// with an error where an array grows beyond `max_size` items. Nothing is claimed
/// of the engine after the call.
#[verifier::external_body]
pub(crate) fn limit_array_size(engine: &mut rhai::Engine, max_size: usize) {
    engine.set_max_array_size(max_size);
}

/// `rhai::Engine::set_max_map_size`: from now on the engine ends an evaluation
/// with an error where a map grows beyond `max_size` entries. Nothing is claimed
/// of the engine after the call.
#[verifier::external_body]
pub(crate) fn limit_map_size(engine: &mut rhai::Engine, max_size: usize) {
    engine.set_max_map_size(max_size);
}

/// `rhai::Engine::compile`: the compiled script, or the parse error as text. It
/// compiles on an empty scope, so that the script decides alone.
#[verifier::external_body]
pub(crate) fn compile_script(engine: &rhai::Engine, script: &str) -> (r: Result<
    rhai::AST,
    String,
>)
    ensures
        r is Ok <==> script_compiles(script@),
{
    match engine.compile(script) {
        Ok(ast) => Ok(ast),
        Err(e) => Err(e.to_string()),
    }
}

/// `rhai::Scope::new`: a scope without entries.
#[verifier::external_body]
pub(crate) fn new_scope() -> (r: ScriptScope)
    ensures
        scope_constants(r) == no_constants(),
        only_constants(r),
{
    rhai::Scope::new()
}

/// `rhai::Scope::push_constant_dynamic` with a value made by
/// `rhai::Dynamic::from_bool`: a read-only entry `name` with the value `value` is put
/// at the end of the scope, where a lookup of `name` finds it first.
#[verifier::external_body]
pub(crate) fn push_bool_constant(scope: &mut ScriptScope, name: &str, value: bool)
    ensures
        scope_constants(*final(scope)) == scope_constants(*old(scope)).insert(name@, value),
        only_constants(*old(scope)) ==> only_constants(*final(scope)),
{
    scope.push_constant_dynamic(name, rhai::Dynamic::from_bool(value));
}

/// `rhai::Scope::clone`: a scope with the same entries, each with its value and
/// its access mode.
#[verifier::external_body]
pub(crate) fn clone_scope(scope: &ScriptScope) -> (r: ScriptScope)
    ensures
        scope_constants(r) == scope_constants(*scope),
        only_constants(r) == only_constants(*scope),
{
    scope.clone()
}

} // verus!
