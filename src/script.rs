//! The script host: rhai scripts and expressions evaluated against a
//! virtual user's variables.
//!
//! Variables go in as JSON. A string variable whose text is a JSON object or
//! array goes in as that structure, so scripts can reach into it. The
//! helpers `max` and `min` and a random-number package are available.
use vstd::prelude::*;

use rhai::packages::Package;

use crate::interpolate::{expressions, has_token, interpolate_with, interpolated, token_exprs};
use crate::json::{copy_json, json_is_array, json_is_object, json_parse, json_text, json_u64, parse_json_text};
use crate::flow::RhaiCodeParam;
use crate::kv::{Command, KvValue, KvValueModel};
use crate::laws::{delete_commands, names_hold, put_commands};

verus! {

/// `rhai::Engine`, the script engine; opaque to the proofs.
#[verifier::external_type_specification]
#[verifier::external_body]
pub struct ExEngine(rhai::Engine);

/// `rhai::Dynamic`, a script value; opaque to the proofs.
#[verifier::external_type_specification]
#[verifier::external_body]
pub struct ExDynamic(rhai::Dynamic);

/// `rhai::Scope`, the variables a script runs with; opaque to the proofs.
#[verifier::external_type_specification]
#[verifier::external_body]
pub struct ExScope<'a>(rhai::Scope<'a>);

/// An error of compiling or evaluating a script, or of converting a value.
#[derive(Debug)]
pub struct ScriptError {
    pub message: String,
}

/// Relies on `rhai::Engine::new`: an engine with the standard packages.
pub assume_specification[ rhai::Engine::new ]() -> rhai::Engine;

/// Relies on `rhai::Engine::register_fn`: makes the integer helpers `max`
/// and `min` callable from scripts.
#[verifier::external_body]
fn register_helpers(engine: &mut rhai::Engine) {
    engine.register_fn("max", crate::ramp::max);
    engine.register_fn("min", crate::ramp::min);
}

/// Relies on `rhai_rand::RandomPackage`: makes its random-number functions
/// callable from scripts.
#[verifier::external_body]
fn register_random(engine: &mut rhai::Engine) {
    rhai_rand::RandomPackage::new().register_into_engine(engine);
}

/// The variables a scope holds, in the order they were added.
pub uninterp spec fn scope_entries(s: rhai::Scope<'static>) -> Seq<(Seq<char>, rhai::Dynamic)>;

/// The script value that `rhai::serde::to_dynamic` makes of a JSON value;
/// none when it cannot.
pub uninterp spec fn dynamic_of_json(v: serde_json::Value) -> Option<rhai::Dynamic>;

/// The script array holding `items`.
pub uninterp spec fn dynamic_array_of(items: Seq<rhai::Dynamic>) -> rhai::Dynamic;

/// The integer a script value holds; none when it holds another kind.
pub uninterp spec fn dynamic_int_of(d: rhai::Dynamic) -> Option<i64>;

/// The number of operations after which an engine stops a script with an
/// error; zero for no limit.
pub uninterp spec fn operation_limit(e: rhai::Engine) -> u64;

/// Operations a script may take before it is stopped with an error.
pub const MAX_SCRIPT_OPERATIONS: u64 = 1_000_000;

/// Relies on `rhai::Engine::set_max_operations`: the engine stops a script
/// with an error after `n` operations.
#[verifier::external_body]
fn set_operation_limit(engine: &mut rhai::Engine, n: u64)
    ensures
        operation_limit(*final(engine)) == n,
{
    engine.set_max_operations(n);
}

/// Relies on `rhai::Scope::new`: an empty scope.
#[verifier::external_body]
fn new_scope() -> (r: rhai::Scope<'static>)
    ensures
        scope_entries(r) == Seq::<(Seq<char>, rhai::Dynamic)>::empty(),
{
    rhai::Scope::new()
}

/// Relies on `rhai::Scope::push_dynamic`: adds a variable after the others.
#[verifier::external_body]
fn scope_push(scope: &mut rhai::Scope<'static>, name: &String, value: rhai::Dynamic)
    ensures
        scope_entries(*final(scope)) == scope_entries(*old(scope)).push((name@, value)),
{
    scope.push_dynamic(name.clone(), value);
}

/// Relies on `rhai::serde::to_dynamic`: a JSON value as a script value.
#[verifier::external_body]
fn json_to_dynamic(v: &serde_json::Value) -> (r: Result<rhai::Dynamic, ScriptError>)
    ensures
        r.is_ok() == dynamic_of_json(*v).is_some(),
        r matches Ok(d) ==> dynamic_of_json(*v) == Some(d),
{
    rhai::serde::to_dynamic(v).map_err(|e| ScriptError { message: e.to_string() })
}

/// Relies on `rhai::Dynamic::from_array`: a script array of these items.
#[verifier::external_body]
fn dynamic_array(items: Vec<rhai::Dynamic>) -> (r: rhai::Dynamic)
    ensures
        r == dynamic_array_of(items@),
{
    rhai::Dynamic::from_array(items)
}

/// Relies on `rhai::serde::from_dynamic`: a script value as JSON.
#[verifier::external_body]
fn dynamic_to_json(d: &rhai::Dynamic) -> Result<serde_json::Value, ScriptError> {
    rhai::serde::from_dynamic(d).map_err(|e| ScriptError { message: e.to_string() })
}

/// Relies on `rhai::Engine::eval_with_scope`: the value of an expression.
/// With an operation limit every evaluation returns.
#[verifier::external_body]
fn eval_in(
    engine: &rhai::Engine,
    scope: &mut rhai::Scope<'static>,
    code: &str,
) -> Result<rhai::Dynamic, ScriptError>
    requires
        operation_limit(*engine) > 0,
{
    engine.eval_with_scope::<rhai::Dynamic>(scope, code).map_err(
        |e| ScriptError { message: e.to_string() },
    )
}

/// Relies on `rhai::Engine::run_with_scope`: runs a script, which may
/// change and add variables of the scope. With an operation limit every run
/// returns.
#[verifier::external_body]
fn run_in(engine: &rhai::Engine, scope: &mut rhai::Scope<'static>, code: &str) -> Result<
    (),
    ScriptError,
>
    requires
        operation_limit(*engine) > 0,
{
    engine.run_with_scope(scope, code).map_err(|e| ScriptError { message: e.to_string() })
}

/// Relies on `rhai::Scope::iter`: the variables of the scope, in the order
/// they were added.
#[verifier::external_body]
fn scope_variables(scope: &rhai::Scope<'static>) -> Vec<(String, rhai::Dynamic)> {
    scope.iter().map(|(name, _, value)| (name.to_string(), value)).collect()
}

/// Relies on the `Display` of `rhai::Dynamic`: a script value as text.
#[verifier::external_body]
fn dynamic_text(d: &rhai::Dynamic) -> String {
    d.to_string()
}

/// Relies on `rhai::Dynamic::as_int`: the integer a script value holds.
#[verifier::external_body]
fn dynamic_int(d: &rhai::Dynamic) -> (r: Option<i64>)
    ensures
        r == dynamic_int_of(*d),
{
    d.as_int().ok()
}

/// Whether a variable name is kept from the caller: it starts with `__`.
pub open spec fn hidden_name(name: Seq<char>) -> bool {
    name.len() >= 2 && name[0] == '_' && name[1] == '_'
}

/// Whether a variable name starts with `__`.
pub fn is_hidden(name: &String) -> (r: bool)
    ensures
        r == hidden_name(name@),
{
    let s = name.as_str();
    s.unicode_len() >= 2 && s.get_char(0) == '_' && s.get_char(1) == '_'
}

/// The value a JSON scalar takes in a script: a JSON string whose text is
/// a JSON object or array stands for that structure; anything else for
/// itself.
pub open spec fn upgraded(v: serde_json::Value) -> serde_json::Value {
    match json_text(v) {
        Some(t) => match json_parse(t) {
            Some(p) => if json_is_object(p) || json_is_array(p) {
                p
            } else {
                v
            },
            None => v,
        },
        None => v,
    }
}

/// The value a JSON scalar takes in a script.
pub fn scope_json(v: &serde_json::Value) -> (r: serde_json::Value)
    ensures
        r == upgraded(*v),
{
    match v.as_str() {
        Some(text) => match parse_json_text(text) {
            Some(parsed) => if parsed.is_object() || parsed.is_array() {
                parsed
            } else {
                copy_json(v)
            },
            None => copy_json(v),
        },
        None => copy_json(v),
    }
}

/// The script values of the items of a JSON array; none when one of them
/// has none.
pub open spec fn items_dynamic(a: Seq<serde_json::Value>) -> Option<Seq<rhai::Dynamic>>
    decreases a.len(),
{
    if a.len() == 0 {
        Some(Seq::empty())
    } else {
        match (items_dynamic(a.drop_last()), dynamic_of_json(a.last())) {
            (Some(ds), Some(d)) => Some(ds.push(d)),
            _ => None,
        }
    }
}

/// The script value of a stored variable; none when it has none.
pub open spec fn variable_dynamic(v: KvValue) -> Option<rhai::Dynamic> {
    match v {
        KvValue::Scalar(j) => dynamic_of_json(upgraded(j)),
        KvValue::Array(a) => match items_dynamic(a@) {
            Some(ds) => Some(dynamic_array_of(ds)),
            None => None,
        },
    }
}

/// The variables of `env` as the scope holds them.
pub open spec fn env_scope(env: Seq<(String, KvValue)>) -> Seq<(Seq<char>, rhai::Dynamic)> {
    Seq::new(env.len(), |i: int| (env[i].0@, variable_dynamic(env[i].1).unwrap()))
}

/// The pairs of `vars` that a script run returns: those with a JSON value
/// and a name that does not start with `__`, in order.
pub open spec fn kept_variables(vars: Seq<(String, Option<serde_json::Value>)>) -> Seq<
    (Seq<char>, serde_json::Value),
>
    decreases vars.len(),
{
    if vars.len() == 0 {
        Seq::empty()
    } else {
        let rest = kept_variables(vars.drop_last());
        match vars.last().1 {
            Some(v) => if hidden_name(vars.last().0@) {
                rest
            } else {
                rest.push((vars.last().0@, v))
            },
            None => rest,
        }
    }
}

/// The content of named JSON values.
pub open spec fn var_views(vars: Seq<(String, serde_json::Value)>) -> Seq<
    (Seq<char>, serde_json::Value),
> {
    vars.map_values(|p: (String, serde_json::Value)| (p.0@, p.1))
}

proof fn lemma_kept_not_hidden(vars: Seq<(String, Option<serde_json::Value>)>)
    ensures
        forall|i: int|
            0 <= i < kept_variables(vars).len() ==> !hidden_name(
                #[trigger] kept_variables(vars)[i].0,
            ),
    decreases vars.len(),
{
    if vars.len() > 0 {
        let rest = kept_variables(vars.drop_last());
        lemma_kept_not_hidden(vars.drop_last());
        let k = kept_variables(vars);
        assert forall|i: int| 0 <= i < k.len() implies !hidden_name(#[trigger] k[i].0) by {
            if i < rest.len() {
                assert(k[i] == rest[i]);
            }
        }
    }
}

/// Keeps, in order, each variable whose value has a JSON form and whose
/// name does not start with `__`.
pub fn visible_variables(vars: Vec<(String, Option<serde_json::Value>)>) -> (r: Vec<
    (String, serde_json::Value),
>)
    ensures
        var_views(r@) == kept_variables(vars@),
{
    let ghost v0 = vars@;
    let n = vars.len();
    let mut rest = vars;
    let mut out: Vec<(String, serde_json::Value)> = Vec::new();
    let mut i: usize = 0;
    while rest.len() > 0
        invariant
            i + rest.len() == n,
            n == v0.len(),
            rest@ == v0.subrange(i as int, n as int),
            var_views(out@) == kept_variables(v0.subrange(0, i as int)),
        decreases rest.len(),
    {
        let (name, value) = rest.remove(0);
        proof {
            assert(v0[i as int] == (name, value));
            let sub = v0.subrange(0, i + 1);
            assert(sub.drop_last() =~= v0.subrange(0, i as int));
            assert(sub.last() == (name, value));
        }
        let hidden = is_hidden(&name);
        match value {
            Some(v) => if !hidden {
                out.push((name, v));
            },
            None => {},
        }
        i = i + 1;
        assert(var_views(out@) =~= kept_variables(v0.subrange(0, i as int)));
        assert(rest@ =~= v0.subrange(i as int, n as int));
    }
    assert(v0.subrange(0, i as int) =~= v0);
    out
}

/// The variables of a ramp expression at `tick`: `TICK`, bound to the tick.
pub fn ramp_env(tick: u64) -> (r: Vec<(String, KvValue)>)
    ensures
        r.len() == 1,
        r@[0].0@ == "TICK"@,
        r@[0].1@ == KvValueModel::Scalar(json_u64(tick)),
{
    let mut env: Vec<(String, KvValue)> = Vec::new();
    env.push((String::from_str("TICK"), KvValue::Scalar(serde_json::Value::from(tick))));
    env
}

/// The integer an expression evaluated to: an error when it was no integer.
pub fn int_value(code: &str, v: Option<i64>) -> (r: Result<i64, ScriptError>)
    ensures
        match v {
            Some(n) => r matches Ok(m) && m == n,
            None => r is Err,
        },
{
    match v {
        Some(n) => Ok(n),
        None => {
            let mut message = String::from_str("expression '");
            message.append(code);
            message.append("' produced a non-integer value");
            Err(ScriptError { message })
        },
    }
}

fn holds_name(vars: &Vec<(String, serde_json::Value)>, k: &String) -> (r: bool)
    ensures
        r == names_hold(vars@, k@),
{
    let mut i: usize = 0;
    while i < vars.len()
        invariant
            i <= vars.len(),
            forall|j: int| 0 <= j < i ==> #[trigger] vars@[j].0@ != k@,
        decreases vars.len() - i,
    {
        if vars[i].0 == *k {
            return true;
        }
        i = i + 1;
    }
    false
}

/// The store commands that make a user's variables, whose keys were
/// `before`, into the variables `after` that a script returned: a `Delete`
/// for each key the script no longer holds, then a `Put` for each returned
/// variable.
pub fn script_commands(before: Vec<String>, after: Vec<(String, serde_json::Value)>) -> (r: Vec<
    Command,
>)
    ensures
        r@ == delete_commands(before@, after@) + put_commands(after@),
{
    let ghost b0 = before@;
    let ghost a0 = after@;
    let before_len = before.len();
    let mut keys = before;
    let mut r: Vec<Command> = Vec::new();
    let mut i: usize = 0;
    while keys.len() > 0
        invariant
            i + keys.len() == before_len,
            before_len == b0.len(),
            after@ == a0,
            keys@ == b0.subrange(i as int, b0.len() as int),
            r@ == delete_commands(b0.subrange(0, i as int), a0),
        decreases keys.len(),
    {
        let k = keys.remove(0);
        proof {
            assert(k == b0[i as int]);
            let p = b0.subrange(0, i + 1);
            assert(p.drop_last() =~= b0.subrange(0, i as int));
            assert(p.last() == k);
        }
        if !holds_name(&after, &k) {
            r.push(Command::Delete { key: k });
        }
        i = i + 1;
        assert(keys@ =~= b0.subrange(i as int, b0.len() as int));
    }
    assert(b0.subrange(0, i as int) =~= b0);
    let ghost deletes = r@;
    let after_len = after.len();
    let mut vars = after;
    let mut j: usize = 0;
    while vars.len() > 0
        invariant
            j + vars.len() == after_len,
            after_len == a0.len(),
            vars@ == a0.subrange(j as int, a0.len() as int),
            r@ == deletes + put_commands(a0.subrange(0, j as int)),
        decreases vars.len(),
    {
        let (k, v) = vars.remove(0);
        proof {
            assert(a0[j as int] == (k, v));
        }
        r.push(Command::Put { key: k, value: v });
        j = j + 1;
        assert(put_commands(a0.subrange(0, j as int)) =~= put_commands(
            a0.subrange(0, j - 1),
        ).push(Command::Put { key: k, value: v }));
        assert(vars@ =~= a0.subrange(j as int, a0.len() as int));
    }
    assert(a0.subrange(0, j as int) =~= a0);
    r
}

/// The names of the variables in `env`.
pub open spec fn env_names(env: Seq<(String, KvValue)>) -> Seq<String> {
    Seq::new(env.len(), |i: int| env[i].0)
}

/// A JSON array as a script array, item by item.
fn array_of(a: &Vec<serde_json::Value>) -> (r: Result<rhai::Dynamic, ScriptError>)
    ensures
        r.is_ok() == items_dynamic(a@).is_some(),
        r matches Ok(d) ==> Some(d) == variable_dynamic(KvValue::Array(*a)),
{
    let mut items: Vec<rhai::Dynamic> = Vec::new();
    let mut i: usize = 0;
    while i < a.len()
        invariant
            i <= a.len(),
            items_dynamic(a@.subrange(0, i as int)) == Some(items@),
        decreases a.len() - i,
    {
        let ghost sub = a@.subrange(0, i + 1);
        assert(sub.drop_last() =~= a@.subrange(0, i as int));
        match json_to_dynamic(&a[i]) {
            Ok(d) => items.push(d),
            Err(e) => {
                proof {
                    lemma_items_dynamic_none(a@, i as int);
                }
                return Err(e);
            },
        }
        i = i + 1;
    }
    assert(a@.subrange(0, i as int) =~= a@);
    Ok(dynamic_array(items))
}

proof fn lemma_items_dynamic_none(a: Seq<serde_json::Value>, i: int)
    requires
        0 <= i < a.len(),
        dynamic_of_json(a[i]) is None,
    ensures
        items_dynamic(a) is None,
    decreases a.len(),
{
    if i < a.len() - 1 {
        assert(a.drop_last()[i] == a[i]);
        lemma_items_dynamic_none(a.drop_last(), i);
    }
}

/// Evaluates expressions and runs scripts for the flow.
pub struct ScriptHost {
    engine: rhai::Engine,
}

impl ScriptHost {
    /// The engine stops every script after a bounded number of operations.
    pub closed spec fn wf(&self) -> bool {
        operation_limit(self.engine) == MAX_SCRIPT_OPERATIONS
    }

    /// A host with the `max` and `min` helpers and random numbers, whose
    /// scripts stop with an error after `MAX_SCRIPT_OPERATIONS` operations.
    pub fn new() -> (r: ScriptHost)
        ensures
            r.wf(),
    {
        let mut engine = rhai::Engine::new();
        register_helpers(&mut engine);
        register_random(&mut engine);
        set_operation_limit(&mut engine, MAX_SCRIPT_OPERATIONS);
        ScriptHost { engine }
    }

    /// The scope a script runs with: each variable of `env`, in order, as
    /// its script value; an error when one has none.
    pub fn scope_of(&self, env: &Vec<(String, KvValue)>) -> (r: Result<
        rhai::Scope<'static>,
        ScriptError,
    >)
        ensures
            r.is_ok() == (forall|i: int|
                0 <= i < env.len() ==> #[trigger] variable_dynamic(env@[i].1) is Some),
            r matches Ok(s) ==> scope_entries(s) == env_scope(env@),
    {
        let mut scope = new_scope();
        let mut i: usize = 0;
        while i < env.len()
            invariant
                i <= env.len(),
                forall|j: int| 0 <= j < i ==> #[trigger] variable_dynamic(env@[j].1) is Some,
                scope_entries(scope) == env_scope(env@.subrange(0, i as int)),
            decreases env.len() - i,
        {
            let value = match &env[i].1 {
                KvValue::Scalar(v) => {
                    let r = json_to_dynamic(&scope_json(v));
                    assert(r.is_ok() == variable_dynamic(env@[i as int].1).is_some());
                    assert(r matches Ok(d) ==> variable_dynamic(env@[i as int].1) == Some(d));
                    r
                },
                KvValue::Array(a) => {
                    let r = array_of(a);
                    assert(r.is_ok() == variable_dynamic(env@[i as int].1).is_some());
                    assert(r matches Ok(d) ==> variable_dynamic(env@[i as int].1) == Some(d));
                    r
                },
            };
            match value {
                Ok(d) => {
                    scope_push(&mut scope, &env[i].0, d);
                },
                Err(e) => {
                    return Err(e);
                },
            }
            i = i + 1;
            assert(scope_entries(scope) =~= env_scope(env@.subrange(0, i as int)));
        }
        assert(env@.subrange(0, i as int) =~= env@);
        Ok(scope)
    }

    /// The value of `code` against `env`, as text.
    pub fn eval_text(&self, code: &str, env: &Vec<(String, KvValue)>) -> (r: Result<
        String,
        ScriptError,
    >)
        requires
            self.wf(),
        ensures
            (exists|i: int| 0 <= i < env.len() && variable_dynamic(env@[i].1) is None) ==> r is Err,
    {
        let mut scope = match self.scope_of(env) {
            Ok(s) => s,
            Err(e) => {
                return Err(e);
            },
        };
        match eval_in(&self.engine, &mut scope, code) {
            Ok(d) => Ok(dynamic_text(&d)),
            Err(e) => Err(e),
        }
    }

    /// The value of `code` against `env`, which must be an integer: an
    /// error when the scope cannot be built, the evaluation fails or the
    /// value is no integer.
    pub fn eval_int(&self, code: &str, env: &Vec<(String, KvValue)>) -> (r: Result<
        i64,
        ScriptError,
    >)
        requires
            self.wf(),
        ensures
            (exists|i: int| 0 <= i < env.len() && variable_dynamic(env@[i].1) is None) ==> r is Err,
            r matches Ok(n) ==> exists|d: rhai::Dynamic| dynamic_int_of(d) == Some(n),
    {
        let mut scope = match self.scope_of(env) {
            Ok(s) => s,
            Err(e) => {
                return Err(e);
            },
        };
        match eval_in(&self.engine, &mut scope, code) {
            Ok(d) => int_value(code, dynamic_int(&d)),
            Err(e) => Err(e),
        }
    }

    /// Runs `code` against `env` and returns the variables afterwards, in
    /// scope order, leaving out those whose names start with `__` and those
    /// that have no JSON form.
    pub fn run(&self, code: &str, env: &Vec<(String, KvValue)>) -> (r: Result<
        Vec<(String, serde_json::Value)>,
        ScriptError,
    >)
        requires
            self.wf(),
        ensures
            (exists|i: int| 0 <= i < env.len() && variable_dynamic(env@[i].1) is None) ==> r is Err,
            r matches Ok(vars) ==> exists|raw: Seq<(String, Option<serde_json::Value>)>|
                var_views(vars@) == kept_variables(raw),
            r matches Ok(vars) ==> forall|i: int|
                0 <= i < vars.len() ==> !hidden_name(#[trigger] vars@[i].0@),
    {
        let mut scope = match self.scope_of(env) {
            Ok(s) => s,
            Err(e) => {
                return Err(e);
            },
        };
        match run_in(&self.engine, &mut scope, code) {
            Ok(()) => {},
            Err(e) => {
                return Err(e);
            },
        }
        let vars = scope_variables(&scope);
        let mut raw: Vec<(String, Option<serde_json::Value>)> = Vec::new();
        let mut i: usize = 0;
        while i < vars.len()
            decreases vars.len() - i,
        {
            raw.push((vars[i].0.clone(), dynamic_to_json(&vars[i].1).ok()));
            i = i + 1;
        }
        let ghost raw_view = raw@;
        let out = visible_variables(raw);
        proof {
            lemma_kept_not_hidden(raw_view);
            assert(var_views(out@).len() == out@.len());
            assert forall|i: int| 0 <= i < out.len() implies !hidden_name(#[trigger] out@[i].0@) by {
                assert(var_views(out@)[i] == (out@[i].0@, out@[i].1));
                assert(kept_variables(raw_view)[i] == var_views(out@)[i]);
                assert(!hidden_name(kept_variables(raw_view)[i].0));
            }
        }
        Ok(out)
    }

    /// Runs a script step against a user's variables `env` and returns the
    /// store commands that make those variables what the script left.
    pub fn run_step(&self, param: &RhaiCodeParam, env: Vec<(String, KvValue)>) -> (r: Result<
        Vec<Command>,
        ScriptError,
    >)
        requires
            self.wf(),
        ensures
            (exists|i: int| 0 <= i < env.len() && variable_dynamic(env@[i].1) is None) ==> r is Err,
            r matches Ok(commands) ==> exists|after: Seq<(String, serde_json::Value)>|
                commands@ == delete_commands(env_names(env@), after) + put_commands(after),
    {
        let after = match self.run(param.code.as_str(), &env) {
            Ok(vars) => vars,
            Err(e) => {
                return Err(e);
            },
        };
        let ghost a = after@;
        let mut names: Vec<String> = Vec::new();
        let mut rest = env;
        let ghost e0 = rest@;
        let env_len = rest.len();
        let mut i: usize = 0;
        while rest.len() > 0
            invariant
                i + rest.len() == env_len,
                env_len == e0.len(),
                rest@ == e0.subrange(i as int, e0.len() as int),
                names@ == env_names(e0.subrange(0, i as int)),
            decreases rest.len(),
        {
            let (name, _) = rest.remove(0);
            assert(e0[i as int].0 == name);
            names.push(name);
            i = i + 1;
            assert(names@ =~= env_names(e0.subrange(0, i as int)));
            assert(rest@ =~= e0.subrange(i as int, e0.len() as int));
        }
        assert(e0.subrange(0, i as int) =~= e0);
        let commands = script_commands(names, after);
        Ok(commands)
    }

    /// The value of a ramp expression at `tick`: the expression evaluated
    /// against `ramp_env(tick)`, which must give an integer.
    pub fn ramp_value(&self, expression: &str, tick: u64) -> (r: Result<i64, ScriptError>)
        requires
            self.wf(),
        ensures
            r matches Ok(n) ==> exists|d: rhai::Dynamic| dynamic_int_of(d) == Some(n),
    {
        let env = ramp_env(tick);
        self.eval_int(expression, &env)
    }

    /// Replaces every `%|EXPR|%` token of `input` by the text of `EXPR`
    /// evaluated against `env`. Each distinct expression is evaluated once;
    /// one that fails to evaluate is replaced by `NO_SUCH_VARIABLE:EXPR`.
    pub fn interpolate(&self, input: &str, env: &Vec<(String, KvValue)>) -> (r: String)
        requires
            self.wf(),
        ensures
            !has_token(input@) ==> r@ == input@,
            exists|exprs: Seq<String>, values: Seq<Option<String>>|
                {
                    &&& exprs.len() == values.len()
                    &&& forall|e: Seq<char>| #[trigger]
                        token_exprs(input@, 0).contains(e) <==> exists|i: int|
                            0 <= i < exprs.len() && exprs[i]@ == e
                    &&& r@ == interpolated(input@, 0, exprs, values)
                },
    {
        let exprs = expressions(input);
        let mut values: Vec<Option<String>> = Vec::new();
        let mut i: usize = 0;
        while i < exprs.len()
            invariant
                self.wf(),
                i <= exprs.len(),
                values.len() == i,
            decreases exprs.len() - i,
        {
            match self.eval_text(exprs[i].as_str(), env) {
                Ok(text) => values.push(Some(text)),
                Err(_) => values.push(None),
            }
            i = i + 1;
        }
        let r = interpolate_with(input, &exprs, &values);
        assert(exprs@.len() == values@.len());
        r
    }
}

} // verus!
