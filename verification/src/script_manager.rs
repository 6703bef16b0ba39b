//! The scripts attached to one entity.
//!
//! A manager starts empty.  Attaching a script compiles it and queues it;
//! loading runs the top level of every queued script in its own environment and
//! makes those environments the live ones; running a hook calls the function of
//! that name in each live environment in turn.
//!
//! Everything a manager holds lives in one runtime, see [`ScriptManager::within`].

use vstd::prelude::*;
use vstd::string::StringExecFns;
use crate::console::flatten;
use crate::console::rendering;
use crate::console::Fragment;
use crate::error::EngineError;
use crate::lua;
use crate::lua::all_fit;
use crate::lua::function_home;
use crate::lua::runtime_id;
use crate::lua::table_home;
use crate::marshal::beyond_runtime;
use crate::marshal::function_of;
use crate::marshal::made_by;
use crate::marshal::materialize;
use crate::marshal::of_runtime;
use crate::marshal::runtime_error;
use crate::marshal::snapshot;
use crate::marshal::table_of;
use crate::marshal::Bindings;
use crate::marshal::SNAPSHOT_DEPTH;
use crate::scalar::Scalar;
use crate::variant::Dynamic;
use crate::variant::Intrinsic;
use crate::variant::Variant;
use crate::vec2::Vec2;

verus! {

/// What the host measures before every hook and every environment sees as globals.
#[derive(Debug, Clone, Copy, PartialEq, Eq, Structural)]
pub struct FrameGlobals {
    pub window_width: Scalar,
    pub window_height: Scalar,
    pub mouse_pos: Vec2,
}

/// Where a manager stands.
#[derive(Debug, Clone, Copy, PartialEq, Eq, Structural)]
pub enum ManagerState {
    /// Nothing is queued and nothing was ever loaded.
    Empty,
    /// At least one script is queued.
    Pending,
    /// Nothing is queued and the live environments are those of the last load.
    Loaded,
}

/// One environment whose hook did not run to its end.
#[derive(Debug, PartialEq)]
pub struct HookFailure {
    /// The file name of the script.
    pub script: String,
    pub error: EngineError,
    /// What the runtime said.
    pub message: String,
}

/// The model of a failure.
pub struct FailureView {
    pub script: Seq<char>,
    pub error: EngineError,
    pub message: Seq<char>,
}

impl View for HookFailure {
    type V = FailureView;

    open spec fn view(&self) -> FailureView {
        FailureView { script: self.script@, error: self.error, message: self.message@ }
    }
}

/// What running a hook gave.
#[derive(Debug, PartialEq)]
pub struct HookReport {
    /// The `this` of the last live environment, where its hook ran to its end.
    pub state: Option<Variant>,
    /// The environments whose hook was missing or raised an error, in running order.
    pub failures: Vec<HookFailure>,
}

/// The scripts of one entity: those queued, and the environments of those loaded.
pub struct ScriptManager {
    scripts: Vec<(String, mlua::Function, mlua::Table)>,
    environments: Option<Vec<(String, mlua::Table)>>,
}

/// The first components of a sequence of queued scripts.
spec fn queued_names(scripts: Seq<(String, mlua::Function, mlua::Table)>) -> Seq<Seq<char>> {
    Seq::new(scripts.len(), |i: int| scripts[i].0@)
}

/// The environments of a sequence of queued scripts.
spec fn queued_tables(scripts: Seq<(String, mlua::Function, mlua::Table)>) -> Seq<mlua::Table> {
    Seq::new(scripts.len(), |i: int| scripts[i].2)
}

/// The compiled scripts of a sequence of queued scripts.
spec fn queued_functions(scripts: Seq<(String, mlua::Function, mlua::Table)>) -> Seq<
    mlua::Function,
> {
    Seq::new(scripts.len(), |i: int| scripts[i].1)
}

/// The second components of a sequence of environments.
spec fn live_tables_of(envs: Seq<(String, mlua::Table)>) -> Seq<mlua::Table> {
    Seq::new(envs.len(), |i: int| envs[i].1)
}

/// Whether every compiled script and every environment of `scripts` lives in `lua`.
spec fn queue_within(scripts: Seq<(String, mlua::Function, mlua::Table)>, lua: mlua::Lua) -> bool {
    forall|i: int|
        0 <= i < scripts.len() ==> function_home((#[trigger] scripts[i]).1) == runtime_id(lua)
            && table_home(scripts[i].2) == runtime_id(lua)
}

/// Whether every environment of `envs` lives in `lua`.
spec fn envs_within(envs: Seq<(String, mlua::Table)>, lua: mlua::Lua) -> bool {
    forall|i: int| 0 <= i < envs.len() ==> table_home((#[trigger] envs[i]).1) == runtime_id(lua)
}

/// The first components of a sequence of environments.
spec fn live_names(envs: Seq<(String, mlua::Table)>) -> Seq<Seq<char>> {
    Seq::new(envs.len(), |i: int| envs[i].0@)
}

/// The core's error for a script whose top level could not be run.
pub fn load_error(syntax: bool) -> (e: EngineError)
    ensures
        e == if syntax {
            EngineError::ScriptCompile
        } else {
            EngineError::ScriptRuntime
        },
{
    if syntax {
        EngineError::ScriptCompile
    } else {
        EngineError::ScriptRuntime
    }
}

/// Writes the frame's globals into `env`.
pub(crate) fn load_persistent(
    lua: &mlua::Lua,
    bindings: &Bindings,
    env: &mlua::Table,
    globals: &FrameGlobals,
) -> (r: Result<(), EngineError>)
    requires
        bindings.within(*lua),
        table_home(*env) == runtime_id(*lua),
    ensures
        r is Err ==> r == Err::<(), EngineError>(EngineError::ScriptRuntime),
{
    set_field(lua, env, "window_width", lua::number(globals.window_width.to_bits()))?;
    set_field(lua, env, "window_height", lua::number(globals.window_height.to_bits()))?;
    let mouse = materialize(lua, bindings, &globals.mouse_pos.as_lua())?;
    set_field(lua, env, "mouse_pos", mouse)
}

/// Stores `value` in `table` under the text `key`.
fn set_field(lua: &mlua::Lua, table: &mlua::Table, key: &str, value: mlua::Value) -> (r: Result<
    (),
    EngineError,
>)
    requires
        table_home(*table) == runtime_id(*lua),
        crate::lua::fits(value, *lua),
    ensures
        r is Err ==> r == Err::<(), EngineError>(EngineError::ScriptRuntime),
{
    let k = match lua::text(lua, key) {
        Ok(k) => k,
        Err(e) => {
            return Err(runtime_error(&e));
        },
    };
    match lua::put(lua, table, k, value) {
        Ok(()) => Ok(()),
        Err(e) => Err(runtime_error(&e)),
    }
}

/// The identity that a snapshot carries: that of the intrinsic under `id` in its `base`,
/// or, where it has no such base, under its own `id`.
pub open spec fn owner_of(this: Dynamic) -> Option<u64> {
    match this.field("base"@).field("id"@) {
        Dynamic::Function(Intrinsic::Id(id)) => Some(id),
        _ => match this.field("id"@) {
            Dynamic::Function(Intrinsic::Id(id)) => Some(id),
            _ => None,
        },
    }
}

/// The identity of the entity that a snapshot was taken of.
pub fn owner(this: &Variant) -> (id: Option<u64>)
    ensures
        id == owner_of(this@),
{
    match this.part("base").part("id") {
        Variant::Function(Intrinsic::Id(id)) => Some(*id),
        _ => match this.part("id") {
            Variant::Function(Intrinsic::Id(id)) => Some(*id),
            _ => None,
        },
    }
}

/// Stores every pair of `from` in `env`.
fn inherit(lua: &mlua::Lua, env: &mlua::Table, from: &mlua::Table) -> (r: Result<(), EngineError>)
    requires
        table_home(*env) == runtime_id(*lua),
        table_home(*from) == runtime_id(*lua),
    ensures
        r is Err ==> r == Err::<(), EngineError>(EngineError::ScriptRuntime),
{
    let mut pairs = match lua::pairs(lua, from) {
        Ok(p) => p,
        Err(e) => {
            return Err(runtime_error(&e));
        },
    };
    while pairs.len() > 0
        invariant
            table_home(*env) == runtime_id(*lua),
            crate::lua::pairs_fit(pairs@, *lua),
            crate::lua::keys_taken(pairs@),
        decreases pairs.len(),
    {
        let ghost rest = pairs@;
        match pairs.pop() {
            Some((k, v)) => {
                assert(rest[rest.len() - 1] == (k, v));
                match lua::put(lua, env, k, v) {
                    Ok(()) => {},
                    Err(e) => {
                        return Err(runtime_error(&e));
                    },
                }
            },
            None => {},
        }
    }
    Ok(())
}

/// A fresh environment: `this`, the frame's globals, what every environment starts
/// with, and, where `this` carries an identity, the functions by which the scripts of
/// that entity ask for changes to its children.
///
/// There is no environment for a `this` that the runtime cannot hold.
fn create_environment(
    lua: &mlua::Lua,
    bindings: &Bindings,
    this: &Variant,
    globals: &FrameGlobals,
) -> (r: Result<mlua::Table, EngineError>)
    requires
        bindings.within(*lua),
    ensures
        r is Err ==> r == Err::<mlua::Table, EngineError>(EngineError::ScriptRuntime),
        r is Ok ==> table_home(r->Ok_0) == runtime_id(*lua),
        beyond_runtime(this@) ==> r is Err,
{
    let env = match lua::new_table(lua) {
        Ok(t) => t,
        Err(e) => {
            return Err(runtime_error(&e));
        },
    };
    let seen = materialize(lua, bindings, this)?;
    set_field(lua, &env, "this", seen)?;
    load_persistent(lua, bindings, &env, globals)?;
    inherit(lua, &env, &bindings.commons)?;
    match owner(this) {
        Some(id) => {
            if id <= i64::MAX as u64 {
                let bound = made_by(lua, bindings, "requests", lua::integer(id as i64))?;
                match table_of(lua::shape(lua, &bound)) {
                    Some(requests) => inherit(lua, &env, &requests)?,
                    None => {},
                }
            }
        },
        None => {},
    }
    Ok(env)
}

/// Whether one of `args` is, or holds, an identity that no integer of the runtime holds, so
/// that no hook can be called with them.
pub open spec fn unpassable(args: Seq<Variant>) -> bool {
    exists|i: int| 0 <= i < args.len() && beyond_runtime((#[trigger] args[i])@)
}

/// Whether `failure` is a failure of a script of one of the live environments `live`, with
/// the error of a script that did not run to its end.
pub open spec fn failed_in(failure: HookFailure, live: Option<Seq<Seq<char>>>) -> bool {
    &&& failure.error == EngineError::ScriptRuntime
    &&& live is Some
    &&& exists|j: int| 0 <= j < live->0.len() && #[trigger] live->0[j] == failure.script@
}

/// The texts of `names`.
pub open spec fn texts(names: Seq<String>) -> Seq<Seq<char>> {
    Seq::new(names.len(), |i: int| names[i]@)
}

/// The models of `failures`.
pub open spec fn failure_views(failures: Seq<HookFailure>) -> Seq<FailureView> {
    Seq::new(failures.len(), |i: int| failures[i]@)
}

/// The failures among `outcomes`, in order, each under the name at its place.  An
/// outcome is nothing where the hook ran to its end, else the error and what the runtime
/// said.
pub open spec fn failures_of(
    names: Seq<Seq<char>>,
    outcomes: Seq<Option<(EngineError, String)>>,
) -> Seq<FailureView>
    decreases outcomes.len(),
{
    if outcomes.len() == 0 || names.len() != outcomes.len() {
        Seq::empty()
    } else {
        let rest = failures_of(names.drop_last(), outcomes.drop_last());
        match outcomes.last() {
            Some((error, message)) => rest.push(
                FailureView { script: names.last(), error, message: message@ },
            ),
            None => rest,
        }
    }
}

/// Whether `report` is what the hooks' `outcomes` in the environments `names` come to,
/// where `last` is the `this` of the last environment if it could be read: the failures
/// are those among the outcomes, and the state is `last` where the last hook ran to its
/// end, else nothing.
pub open spec fn concluded(
    names: Seq<Seq<char>>,
    outcomes: Seq<Option<(EngineError, String)>>,
    last: Option<Variant>,
    report: HookReport,
) -> bool {
    &&& failure_views(report.failures@) == failures_of(names, outcomes)
    &&& report.state == if outcomes.len() > 0 && outcomes.last() is None {
        last
    } else {
        None::<Variant>
    }
}

/// Whether `failure` is one of `outcomes`, under the name at its place.
pub open spec fn came_from(
    failure: HookFailure,
    names: Seq<String>,
    outcomes: Seq<Option<(EngineError, String)>>,
) -> bool {
    exists|j: int|
        0 <= j < outcomes.len() && j < names.len() && (#[trigger] outcomes[j]) is Some
            && failure.script@ == names[j]@ && failure.error == outcomes[j]->Some_0.0
            && failure.message@ == outcomes[j]->Some_0.1@
}

/// The report on a hook that came to `outcomes` in the environments of the scripts
/// `names`, where `last` is the `this` of the last environment if it could be read.
///
/// The failures are exactly the outcomes that are failures, in order, each under the
/// name at its place.  The state is `last` where there is an environment and the hook of
/// the last one ran to its end, and nothing otherwise.
pub fn conclude(
    names: &Vec<String>,
    outcomes: Vec<Option<(EngineError, String)>>,
    last: Option<Variant>,
) -> (report: HookReport)
    requires
        outcomes@.len() == names@.len(),
    ensures
        concluded(texts(names@), outcomes@, last, report),
        report.failures@.len() <= outcomes@.len(),
        (forall|j: int| 0 <= j < outcomes@.len() ==> (#[trigger] outcomes@[j]) is Some)
            ==> report.failures@.len() == outcomes@.len(),
        (forall|j: int| 0 <= j < outcomes@.len() ==> (#[trigger] outcomes@[j]) is None)
            ==> report.failures@.len() == 0,
        outcomes@.len() > 0 && outcomes@.last() is Some ==> report.failures@.len() > 0,
        forall|k: int|
            0 <= k < report.failures@.len() ==> came_from(
                #[trigger] report.failures@[k],
                names@,
                outcomes@,
            ),
{
    let mut failures: Vec<HookFailure> = Vec::new();
    let n = outcomes.len();
    let mut i: usize = 0;
    assert(failure_views(failures@) =~= failures_of(
        texts(names@).take(0),
        outcomes@.take(0),
    ));
    while i < n
        invariant
            i <= n,
            n == outcomes@.len(),
            n == names@.len(),
            failure_views(failures@) == failures_of(
                texts(names@).take(i as int),
                outcomes@.take(i as int),
            ),
            failures@.len() <= i,
            (forall|j: int| 0 <= j < i ==> (#[trigger] outcomes@[j]) is Some) ==> failures@.len()
                == i,
            (forall|j: int| 0 <= j < i ==> (#[trigger] outcomes@[j]) is None) ==> failures@.len()
                == 0,
            i > 0 && outcomes@[i - 1] is Some ==> failures@.len() > 0,
            forall|k: int|
                0 <= k < failures@.len() ==> came_from(#[trigger] failures@[k], names@, outcomes@),
        decreases n - i,
    {
        let ghost before = failures@;
        proof {
            assert(texts(names@).take(i + 1).drop_last() =~= texts(names@).take(i as int));
            assert(outcomes@.take(i + 1).drop_last() =~= outcomes@.take(i as int));
            assert(outcomes@.take(i + 1).last() == outcomes@[i as int]);
            assert(texts(names@).take(i + 1).last() == names@[i as int]@);
        }
        match &outcomes[i] {
            Some((error, message)) => {
                let failure = HookFailure {
                    script: names[i].clone(),
                    error: *error,
                    message: message.clone(),
                };
                assert(came_from(failure, names@, outcomes@));
                failures.push(failure);
                proof {
                    assert(failure_views(failures@) =~= failure_views(before).push(failure@));
                    assert forall|k: int| 0 <= k < failures@.len() implies came_from(
                        #[trigger] failures@[k],
                        names@,
                        outcomes@,
                    ) by {
                        if k < before.len() {
                            assert(failures@[k] == before[k]);
                        }
                    }
                }
            },
            None => {},
        }
        i += 1;
    }
    proof {
        assert(texts(names@).take(n as int) =~= texts(names@));
        assert(outcomes@.take(n as int) =~= outcomes@);
    }
    let state = if n > 0 && outcomes[n - 1].is_none() {
        last
    } else {
        None
    };
    HookReport { state, failures }
}

impl ScriptManager {
    /// The file names of the queued scripts, in the order they were attached.
    pub closed spec fn pending(&self) -> Seq<Seq<char>> {
        queued_names(self.scripts@)
    }

    /// The environments of the queued scripts, in the order they were attached.
    pub closed spec fn pending_tables(&self) -> Seq<mlua::Table> {
        queued_tables(self.scripts@)
    }

    /// The queued scripts as the runtime compiled them, in the order they were attached.
    pub closed spec fn pending_functions(&self) -> Seq<mlua::Function> {
        queued_functions(self.scripts@)
    }

    /// The file names of the scripts of the live environments, in running order; `None`
    /// before the first load.
    pub closed spec fn live(&self) -> Option<Seq<Seq<char>>> {
        match self.environments {
            Some(envs) => Some(live_names(envs@)),
            None => None,
        }
    }

    /// The live environments, in running order; `None` before the first load.
    pub closed spec fn live_tables(&self) -> Option<Seq<mlua::Table>> {
        match self.environments {
            Some(envs) => Some(live_tables_of(envs@)),
            None => None,
        }
    }

    /// Whether everything the manager holds lives in the runtime `lua`: every queued
    /// script, its environment, and every live environment.
    pub closed spec fn within(&self, lua: mlua::Lua) -> bool {
        &&& queue_within(self.scripts@, lua)
        &&& match self.environments {
            Some(envs) => envs_within(envs@, lua),
            None => true,
        }
    }

    /// A manager that holds nothing lives in every runtime.
    pub proof fn lemma_empty_within(&self, lua: mlua::Lua)
        requires
            self.pending().len() == 0,
            self.live_count() == 0,
        ensures
            self.within(lua),
    {
        match self.environments {
            Some(envs) => {
                assert(live_names(envs@).len() == 0);
            },
            None => {},
        }
    }

    /// There are as many environments as names, queued and live.
    pub proof fn lemma_tables(&self)
        ensures
            self.pending_tables().len() == self.pending().len(),
            self.pending_functions().len() == self.pending().len(),
            self.live_tables() is Some <==> self.live() is Some,
            self.live() is Some ==> self.live_tables()->0.len() == self.live()->0.len(),
    {
    }

    /// How many environments are live.
    pub open spec fn live_count(&self) -> nat {
        match self.live() {
            Some(names) => names.len(),
            None => 0,
        }
    }

    /// Where the manager stands.
    pub open spec fn state(&self) -> ManagerState {
        if self.pending().len() > 0 {
            ManagerState::Pending
        } else if self.live() is Some {
            ManagerState::Loaded
        } else {
            ManagerState::Empty
        }
    }

    /// The rendering of `ele` at indentation `depth`, see [`crate::console::stringify`].
    pub fn stringify(ele: &Variant, depth: usize) -> (out: Vec<Fragment>)
        ensures
            flatten(out@) == rendering(ele@, depth as nat),
    {
        crate::console::stringify(ele, depth)
    }

    /// An empty manager.
    pub fn new() -> (m: ScriptManager)
        ensures
            m.pending() == Seq::<Seq<char>>::empty(),
            m.pending_tables() == Seq::<mlua::Table>::empty(),
            m.pending_functions() == Seq::<mlua::Function>::empty(),
            m.live() is None,
            m.live_tables() is None,
            m.state() == ManagerState::Empty,
    {
        let m = ScriptManager { scripts: Vec::new(), environments: None };
        assert(m.pending() =~= Seq::<Seq<char>>::empty());
        assert(m.pending_tables() =~= Seq::<mlua::Table>::empty());
        assert(m.pending_functions() =~= Seq::<mlua::Function>::empty());
        m
    }

    /// Where the manager stands.
    pub fn current_state(&self) -> (s: ManagerState)
        ensures
            s == self.state(),
    {
        assert(self.pending().len() == self.scripts@.len());
        if self.scripts.len() > 0 {
            ManagerState::Pending
        } else if self.environments.is_some() {
            ManagerState::Loaded
        } else {
            ManagerState::Empty
        }
    }

    /// Compiles the script `source`, read from the file `filename`, and queues it with a
    /// fresh environment in which `this` is a copy of `this`.
    ///
    /// On success the script is the last of the queue.  On failure the manager is as it
    /// was: a source that the runtime does not compile fails with what [`load_error`]
    /// gives for the runtime's error, [`EngineError::ScriptCompile`] for a syntax error;
    /// a `this` that the runtime cannot hold always fails, with
    /// [`EngineError::ScriptRuntime`].  The bindings and what the manager holds must live
    /// in `lua`.
    #[allow(non_snake_case)]
    pub fn addScript(
        &mut self,
        filename: String,
        source: String,
        lua: &mlua::Lua,
        bindings: &Bindings,
        this: &Variant,
        globals: &FrameGlobals,
    ) -> (r: Result<(), EngineError>)
        requires
            bindings.within(*lua),
            old(self).within(*lua),
        ensures
            final(self).within(*lua),
            final(self).live() == old(self).live(),
            final(self).live_tables() == old(self).live_tables(),
            match r {
                Ok(()) => {
                    &&& final(self).pending() == old(self).pending().push(filename@)
                    &&& final(self).pending_tables().len() == old(self).pending_tables().len() + 1
                    &&& final(self).pending_tables().drop_last() == old(self).pending_tables()
                    &&& final(self).pending_functions().len() == old(self).pending_functions().len()
                        + 1
                    &&& final(self).pending_functions().drop_last() == old(
                        self,
                    ).pending_functions()
                },
                Err(e) => {
                    &&& e == EngineError::ScriptCompile || e == EngineError::ScriptRuntime
                    &&& final(self).pending() == old(self).pending()
                    &&& final(self).pending_tables() == old(self).pending_tables()
                    &&& final(self).pending_functions() == old(self).pending_functions()
                },
            },
            beyond_runtime(this@) ==> r == Err::<(), EngineError>(EngineError::ScriptRuntime),
    {
        let env = create_environment(lua, bindings, this, globals)?;
        let compiled = match lua::compiled(lua, source, &env, filename.as_str()) {
            Ok(f) => f,
            Err(e) => {
                return Err(load_error(lua::is_syntax_error(&e)));
            },
        };
        let ghost before = self.scripts@;
        self.scripts.push((filename, compiled, env));
        proof {
            assert(self.pending() =~= old(self).pending().push(filename@));
            assert(self.pending_tables().drop_last() =~= old(self).pending_tables());
            assert(self.pending_functions().drop_last() =~= old(self).pending_functions());
            assert forall|i: int| 0 <= i < self.scripts@.len() implies function_home(
                (#[trigger] self.scripts@[i]).1,
            ) == runtime_id(*lua) && table_home(self.scripts@[i].2) == runtime_id(*lua) by {
                if i < before.len() {
                    assert(self.scripts@[i] == before[i]);
                }
            }
        }
        Ok(())
    }

    /// Runs the top level of every queued script, in queue order, and makes their
    /// environments the live ones.
    ///
    /// The queue is empty afterwards in any case.  On success the live environments are
    /// those that the scripts were queued with, in queue order, and nothing of the
    /// earlier ones remains.  Where a script fails, the live environments stay what they
    /// were and the scripts after it are not run.  With nothing queued the load
    /// succeeds.  What the manager holds must live in `lua`.
    #[allow(non_snake_case)]
    pub fn loadScripts(&mut self, lua: &mlua::Lua) -> (r: Result<(), EngineError>)
        requires
            old(self).within(*lua),
        ensures
            final(self).within(*lua),
            final(self).pending() == Seq::<Seq<char>>::empty(),
            final(self).pending_tables() == Seq::<mlua::Table>::empty(),
            final(self).pending_functions() == Seq::<mlua::Function>::empty(),
            old(self).pending().len() == 0 ==> r is Ok,
            match r {
                Ok(()) => final(self).live() == Some(old(self).pending())
                    && final(self).live_tables() == Some(old(self).pending_tables()),
                Err(e) => (e == EngineError::ScriptCompile || e == EngineError::ScriptRuntime)
                    && final(self).live() == old(self).live() && final(self).live_tables()
                    == old(self).live_tables(),
            },
    {
        let mut queue: Vec<(String, mlua::Function, mlua::Table)> = Vec::new();
        core::mem::swap(&mut queue, &mut self.scripts);
        assert(self.pending() =~= Seq::<Seq<char>>::empty());
        assert(self.pending_tables() =~= Seq::<mlua::Table>::empty());
        assert(self.pending_functions() =~= Seq::<mlua::Function>::empty());
        let ghost names = queued_names(queue@);
        let ghost tables = queued_tables(queue@);
        assert(names.len() == old(self).pending().len());
        let mut stack: Vec<(String, mlua::Function, mlua::Table)> = Vec::new();
        while queue.len() > 0
            invariant
                queue@.len() + stack@.len() == names.len(),
                names.len() == tables.len(),
                queued_names(queue@) == names.take(queue@.len() as int),
                queued_tables(queue@) == tables.take(queue@.len() as int),
                queue_within(queue@, *lua),
                queue_within(stack@, *lua),
                forall|j: int|
                    0 <= j < stack@.len() ==> (#[trigger] stack@[j]).0@ == names[names.len() - 1
                        - j] && stack@[j].2 == tables[names.len() - 1 - j],
            decreases queue.len(),
        {
            let ghost before = queue@;
            let ghost piled = stack@;
            match queue.pop() {
                Some(item) => {
                    proof {
                        assert(before[before.len() - 1] == item);
                        assert(queued_names(before)[before.len() - 1] == item.0@);
                        assert(queued_tables(before)[before.len() - 1] == item.2);
                        assert(queued_names(queue@) =~= names.take(queue@.len() as int));
                        assert(queued_tables(queue@) =~= tables.take(queue@.len() as int));
                        assert forall|j: int| 0 <= j < queue@.len() implies function_home(
                            (#[trigger] queue@[j]).1,
                        ) == runtime_id(*lua) && table_home(queue@[j].2) == runtime_id(*lua) by {
                            assert(queue@[j] == before[j]);
                        }
                    }
                    stack.push(item);
                    proof {
                        assert forall|j: int| 0 <= j < stack@.len() implies function_home(
                            (#[trigger] stack@[j]).1,
                        ) == runtime_id(*lua) && table_home(stack@[j].2) == runtime_id(*lua) by {
                            if j < piled.len() {
                                assert(stack@[j] == piled[j]);
                            }
                        }
                    }
                },
                None => {},
            }
        }
        let mut live: Vec<(String, mlua::Table)> = Vec::new();
        while stack.len() > 0
            invariant
                live@.len() + stack@.len() == names.len(),
                names.len() == tables.len(),
                live_names(live@) == names.take(live@.len() as int),
                live_tables_of(live@) == tables.take(live@.len() as int),
                queue_within(stack@, *lua),
                envs_within(live@, *lua),
                forall|j: int|
                    0 <= j < stack@.len() ==> (#[trigger] stack@[j]).0@ == names[names.len() - 1
                        - j] && stack@[j].2 == tables[names.len() - 1 - j],
                self.pending() == Seq::<Seq<char>>::empty(),
                self.pending_tables() == Seq::<mlua::Table>::empty(),
                self.pending_functions() == Seq::<mlua::Function>::empty(),
                self.live() == old(self).live(),
                self.live_tables() == old(self).live_tables(),
                self.within(*lua),
                names.len() == old(self).pending().len(),
            decreases stack.len(),
        {
            let ghost piled = stack@;
            let ghost before = live@;
            match stack.pop() {
                Some((name, compiled, env)) => {
                    proof {
                        assert(piled[piled.len() - 1] == (name, compiled, env));
                        assert forall|j: int| 0 <= j < stack@.len() implies function_home(
                            (#[trigger] stack@[j]).1,
                        ) == runtime_id(*lua) && table_home(stack@[j].2) == runtime_id(*lua) by {
                            assert(stack@[j] == piled[j]);
                        }
                    }
                    match lua::call(lua, &compiled, Vec::new()) {
                        Ok(_) => {},
                        Err(e) => {
                            return Err(load_error(lua::is_syntax_error(&e)));
                        },
                    }
                    live.push((name, env));
                    proof {
                        assert(live_names(live@) =~= names.take(live@.len() as int));
                        assert(live_tables_of(live@) =~= tables.take(live@.len() as int));
                        assert forall|j: int| 0 <= j < live@.len() implies table_home(
                            (#[trigger] live@[j]).1,
                        ) == runtime_id(*lua) by {
                            if j < before.len() {
                                assert(live@[j] == before[j]);
                            }
                        }
                    }
                },
                None => {},
            }
        }
        proof {
            assert(names.take(names.len() as int) =~= names);
            assert(tables.take(tables.len() as int) =~= tables);
        }
        self.environments = Some(live);
        Ok(())
    }

    /// Attaches the script `source` and runs its top level at once, without queueing it;
    /// its environment becomes the last live one.
    ///
    /// On failure the manager is as it was; a `this` that the runtime cannot hold always
    /// fails.  On success the live environments are those there were, followed by the new
    /// one.  The bindings and what the manager holds must live in `lua`.
    pub fn embed(
        &mut self,
        filename: String,
        source: String,
        lua: &mlua::Lua,
        bindings: &Bindings,
        this: &Variant,
        globals: &FrameGlobals,
    ) -> (r: Result<(), EngineError>)
        requires
            bindings.within(*lua),
            old(self).within(*lua),
        ensures
            final(self).within(*lua),
            final(self).pending() == old(self).pending(),
            final(self).pending_tables() == old(self).pending_tables(),
            final(self).pending_functions() == old(self).pending_functions(),
            match r {
                Ok(()) => {
                    &&& final(self).live() == Some(
                        match old(self).live() {
                            Some(names) => names.push(filename@),
                            None => seq![filename@],
                        },
                    )
                    &&& final(self).live_tables() is Some
                    &&& final(self).live_tables()->0.len() > 0
                    &&& final(self).live_tables()->0.drop_last() == match old(self).live_tables() {
                        Some(tables) => tables,
                        None => Seq::<mlua::Table>::empty(),
                    }
                },
                Err(e) => (e == EngineError::ScriptCompile || e == EngineError::ScriptRuntime)
                    && final(self).live() == old(self).live() && final(self).live_tables()
                    == old(self).live_tables(),
            },
            beyond_runtime(this@) ==> r is Err,
    {
        let env = create_environment(lua, bindings, this, globals)?;
        let compiled = match lua::compiled(lua, source, &env, filename.as_str()) {
            Ok(f) => f,
            Err(e) => {
                return Err(load_error(lua::is_syntax_error(&e)));
            },
        };
        match lua::call(lua, &compiled, Vec::new()) {
            Ok(_) => {},
            Err(e) => {
                return Err(load_error(lua::is_syntax_error(&e)));
            },
        }
        let mut live: Vec<(String, mlua::Table)> = Vec::new();
        let mut held: Option<Vec<(String, mlua::Table)>> = None;
        core::mem::swap(&mut held, &mut self.environments);
        match held {
            Some(envs) => {
                live = envs;
            },
            None => {},
        }
        let ghost before = live@;
        live.push((filename, env));
        proof {
            assert(live_names(live@) =~= live_names(before).push(filename@));
            assert(live_names(Seq::<(String, mlua::Table)>::empty()).push(filename@)
                =~= seq![filename@]);
            assert(live_tables_of(live@).drop_last() =~= live_tables_of(before));
            assert(live_tables_of(Seq::<(String, mlua::Table)>::empty())
                =~= Seq::<mlua::Table>::empty());
            assert forall|j: int| 0 <= j < live@.len() implies table_home(
                (#[trigger] live@[j]).1,
            ) == runtime_id(*lua) by {
                if j < before.len() {
                    assert(live@[j] == before[j]);
                }
            }
        }
        self.environments = Some(live);
        Ok(())
    }

    /// Calls the function named `func_name` with `args` in every live environment, in
    /// running order, after writing the frame's globals into the environment.
    ///
    /// An environment that has no such function, or whose function raises an error, is
    /// reported as a failure and the others still run.  The report is what [`conclude`]
    /// makes of the outcomes, one for each live environment: its state is a copy of the
    /// `this` of the last environment where that environment's hook ran to its end, and
    /// its failures are the outcomes that are failures, each under its script's name.
    /// With no live environment nothing runs and the report is empty.  With arguments
    /// that the runtime cannot hold every live environment fails.  The bindings and what
    /// the manager holds must live in `lua`.
    pub fn run_4all_envs(
        &self,
        lua: &mlua::Lua,
        bindings: &Bindings,
        func_name: &str,
        args: &Vec<Variant>,
        globals: &FrameGlobals,
    ) -> (report: HookReport)
        requires
            bindings.within(*lua),
            self.within(*lua),
        ensures
            self.live_count() == 0 ==> report.state is None && report.failures@.len() == 0,
            report.state is Some ==> self.live_count() > 0,
            report.failures@.len() <= self.live_count(),
            self.live_count() > 0 && report.state is None ==> report.failures@.len() > 0,
            forall|k: int|
                0 <= k < report.failures@.len() ==> failed_in(
                    #[trigger] report.failures@[k],
                    self.live(),
                ),
            report.state is Some ==> of_runtime(report.state->0@) && report.state->0@.nesting()
                <= SNAPSHOT_DEPTH,
            unpassable(args@) ==> report.state is None && report.failures@.len()
                == self.live_count(),
            self.live() is Some ==> exists|
                outcomes: Seq<Option<(EngineError, String)>>,
                last: Option<Variant>,
            |
                outcomes.len() == self.live()->0.len() && #[trigger] concluded(
                    self.live()->0,
                    outcomes,
                    last,
                    report,
                ),
    {
        let envs = match &self.environments {
            Some(envs) => envs,
            None => {
                return HookReport { state: None, failures: Vec::new() };
            },
        };
        let n = envs.len();
        assert(self.live_count() == n);
        let mut names: Vec<String> = Vec::new();
        let mut outcomes: Vec<Option<(EngineError, String)>> = Vec::new();
        let mut last: Option<Variant> = None;
        let mut i: usize = 0;
        while i < n
            invariant
                i <= n,
                n == envs@.len(),
                names@.len() == i,
                outcomes@.len() == i,
                bindings.within(*lua),
                envs_within(envs@, *lua),
                self.live() == Some(live_names(envs@)),
                forall|j: int| 0 <= j < i ==> (#[trigger] names@[j])@ == envs@[j].0@,
                forall|j: int|
                    0 <= j < i && (#[trigger] outcomes@[j]) is Some ==> outcomes@[j]->Some_0.0
                        == EngineError::ScriptRuntime,
                unpassable(args@) ==> forall|j: int|
                    0 <= j < i ==> (#[trigger] outcomes@[j]) is Some,
                last is Some ==> i == n && outcomes@[n - 1] is None && of_runtime(last->0@)
                    && last->0@.nesting() <= SNAPSHOT_DEPTH,
                i == n && n > 0 && outcomes@[n - 1] is None ==> last is Some,
            decreases n - i,
        {
            let env = &envs[i].1;
            let ghost told = outcomes@;
            let ghost named = names@;
            names.push(envs[i].0.clone());
            let mut outcome = match Self::run_hook(lua, bindings, env, func_name, args, globals) {
                Ok(()) => None,
                Err(failure) => Some(failure),
            };
            if i == n - 1 && outcome.is_none() {
                match lua::get(lua, env, "this") {
                    Ok(this) => {
                        last = Some(snapshot(lua, &this, SNAPSHOT_DEPTH));
                    },
                    Err(e) => {
                        outcome = Some((runtime_error(&e), lua::message(&e)));
                    },
                }
            }
            outcomes.push(outcome);
            proof {
                assert forall|j: int| 0 <= j < i + 1 implies (#[trigger] names@[j])@
                    == envs@[j].0@ by {
                    if j < i {
                        assert(names@[j] == named[j]);
                    }
                }
                assert forall|j: int|
                    0 <= j < i + 1 && (#[trigger] outcomes@[j]) is Some implies outcomes@[j]->Some_0.0
                    == EngineError::ScriptRuntime by {
                    if j < i {
                        assert(outcomes@[j] == told[j]);
                    }
                }
                if unpassable(args@) {
                    assert forall|j: int| 0 <= j < i + 1 implies (#[trigger] outcomes@[j]) is Some by {
                        if j < i {
                            assert(outcomes@[j] == told[j]);
                        }
                    }
                }
            }
            i += 1;
        }
        let ghost given = last;
        let report = conclude(&names, outcomes, last);
        proof {
            assert(texts(names@) =~= live_names(envs@));
            assert forall|k: int| 0 <= k < report.failures@.len() implies failed_in(
                #[trigger] report.failures@[k],
                self.live(),
            ) by {
                assert(came_from(report.failures@[k], names@, outcomes@));
                let j = choose|j: int|
                    0 <= j < outcomes@.len() && j < names@.len() && (#[trigger] outcomes@[j]) is Some
                        && report.failures@[k].script@ == names@[j]@ && report.failures@[k].error
                        == outcomes@[j]->Some_0.0 && report.failures@[k].message@ == outcomes@[j]->Some_0.1@;
                assert(self.live()->0[j] == report.failures@[k].script@);
            }
            assert(concluded(self.live()->0, outcomes@, given, report));
        }
        report
    }

    /// Runs one hook in one environment.  No hook runs with arguments that the runtime
    /// cannot hold.
    fn run_hook(
        lua: &mlua::Lua,
        bindings: &Bindings,
        env: &mlua::Table,
        func_name: &str,
        args: &Vec<Variant>,
        globals: &FrameGlobals,
    ) -> (r: Result<(), (EngineError, String)>)
        requires
            bindings.within(*lua),
            table_home(*env) == runtime_id(*lua),
        ensures
            r is Err ==> r->Err_0.0 == EngineError::ScriptRuntime,
            unpassable(args@) ==> r is Err,
    {
        match load_persistent(lua, bindings, env, globals) {
            Ok(()) => {},
            Err(e) => {
                return Err((e, String::from_str("the frame's globals could not be written")));
            },
        }
        let hook = match lua::get(lua, env, func_name) {
            Ok(h) => h,
            Err(e) => {
                return Err((runtime_error(&e), lua::message(&e)));
            },
        };
        let f = match function_of(lua::shape(lua, &hook)) {
            Some(f) => f,
            None => {
                return Err(
                    (EngineError::ScriptRuntime, String::from_str("the script has no such hook")),
                );
            },
        };
        let mut raw: Vec<mlua::Value> = Vec::new();
        let n = args.len();
        let mut i: usize = 0;
        while i < n
            invariant
                i <= n,
                n == args@.len(),
                bindings.within(*lua),
                all_fit(raw@, *lua),
                forall|j: int| 0 <= j < i ==> !beyond_runtime((#[trigger] args@[j])@),
            decreases n - i,
        {
            let ghost before = raw@;
            match materialize(lua, bindings, &args[i]) {
                Ok(v) => {
                    raw.push(v);
                    assert forall|j: int| 0 <= j < raw@.len() implies crate::lua::fits(
                        #[trigger] raw@[j],
                        *lua,
                    ) by {
                        if j < before.len() {
                            assert(raw@[j] == before[j]);
                        }
                    }
                },
                Err(e) => {
                    return Err((e, String::from_str("an argument could not be passed")));
                },
            }
            i += 1;
        }
        match lua::call(lua, &f, raw) {
            Ok(_) => Ok(()),
            Err(e) => Err((runtime_error(&e), lua::message(&e))),
        }
    }
}

} // verus!
