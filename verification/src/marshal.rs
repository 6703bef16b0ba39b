//! Carrying values between the core's own dynamic values and those of the runtime.

use vstd::prelude::*;
use crate::error::EngineError;
use crate::lua;
use crate::lua::fits;
use crate::lua::held;
use crate::lua::keyable;
use crate::lua::told;
use crate::lua::Held;
use crate::lua::runtime_id;
use crate::lua::table_home;
use crate::lua::Shape;
use crate::variant::deepest;
use crate::variant::tables_among;
use crate::variant::lemma_pairs_view;
use crate::variant::pairs_view;
use crate::scalar::Scalar;
use crate::variant::Dynamic;
use crate::variant::Foreign;
use crate::variant::Intrinsic;
use crate::variant::Variant;

verus! {

/// How deep [`snapshot`] follows tables inside tables when nothing else is asked for.
pub const SNAPSHOT_DEPTH: usize = 96;

/// How many tables [`snapshot`] copies at most, so that a table which holds itself is
/// copied in bounded work.
pub const SNAPSHOT_TABLES: usize = 65536;

/// What the host binds into the runtime for the bridge.
///
/// `commons` holds what every script environment starts with.  `intrinsics` holds, under
/// `dot`, `collides`, `play` and `dimensions`, the functions of those names, under
/// `constant` a function that returns a function returning its argument, under `clicked`
/// a function that takes a transform and returns the click test for it, and under
/// `requests` a function that takes the identity of an entity and returns a table of the
/// functions by which a script of that entity asks for changes to its children.
pub struct Bindings {
    pub commons: mlua::Table,
    pub intrinsics: mlua::Table,
}

impl Bindings {
    /// Whether both tables live in the runtime `lua`.
    pub open spec fn within(&self, lua: mlua::Lua) -> bool {
        table_home(self.commons) == runtime_id(lua) && table_home(self.intrinsics) == runtime_id(
            lua,
        )
    }
}

/// The core's error for a failed call into the runtime.
pub fn runtime_error(e: &mlua::Error) -> (r: EngineError)
    ensures
        r == EngineError::ScriptRuntime,
{
    EngineError::ScriptRuntime
}

/// The copy of a runtime value that is no table: the same nothing, boolean, integer,
/// number, text or error message; [`Intrinsic::Script`] for a function; the name of what
/// the core only carries for anything else.  None for a table.
pub open spec fn leaf_of(shape: Shape) -> Option<Dynamic> {
    match shape {
        Shape::Nil => Some(Dynamic::Nil),
        Shape::Boolean(b) => Some(Dynamic::Boolean(b)),
        Shape::Integer(i) => Some(Dynamic::Integer(i)),
        Shape::Number(bits) => Some(Dynamic::Number(Scalar { bits })),
        Shape::Str(s) => Some(Dynamic::Str(s@)),
        Shape::Function(_) => Some(Dynamic::Function(Intrinsic::Script)),
        Shape::Error(m) => Some(Dynamic::Error(m@)),
        Shape::LightUserData => Some(Dynamic::Foreign(Foreign::LightUserData)),
        Shape::UserData => Some(Dynamic::Foreign(Foreign::UserData)),
        Shape::Thread => Some(Dynamic::Foreign(Foreign::Thread)),
        Shape::Other => Some(Dynamic::Foreign(Foreign::Other)),
        Shape::Table(_) => None,
    }
}

/// The copy of a value that holds `h`, where that is no table: the same nothing,
/// boolean, integer, number, text or error message; [`Intrinsic::Script`] for a function;
/// the name of what the core only carries for anything else.  None for a table.
pub open spec fn copy_of(h: Held) -> Option<Dynamic> {
    match h {
        Held::Nil => Some(Dynamic::Nil),
        Held::Boolean(b) => Some(Dynamic::Boolean(b)),
        Held::Integer(i) => Some(Dynamic::Integer(i)),
        Held::Number(bits) => Some(Dynamic::Number(Scalar { bits })),
        Held::Text(s) => Some(Dynamic::Str(s)),
        Held::Function => Some(Dynamic::Function(Intrinsic::Script)),
        Held::Error(m) => Some(Dynamic::Error(m)),
        Held::LightUserData => Some(Dynamic::Foreign(Foreign::LightUserData)),
        Held::UserData => Some(Dynamic::Foreign(Foreign::UserData)),
        Held::Thread => Some(Dynamic::Foreign(Foreign::Thread)),
        Held::Other => Some(Dynamic::Foreign(Foreign::Other)),
        Held::Table => None,
    }
}

/// The copy of a runtime value that is no table, or the table.
pub fn leaf(shape: Shape) -> (r: Result<Variant, mlua::Table>)
    ensures
        leaf_of(shape) == copy_of(told(shape)),
        match r {
            Ok(v) => leaf_of(shape) == Some(v@) && v@.nesting() == 0 && v@.tables() == 0
                && of_runtime(v@),
            Err(t) => shape == Shape::Table(t),
        },
{
    match shape {
        Shape::Nil => Ok(Variant::Nil),
        Shape::Boolean(b) => Ok(Variant::Boolean(b)),
        Shape::Integer(i) => Ok(Variant::Integer(i)),
        Shape::Number(bits) => Ok(Variant::Number(Scalar::from_bits(bits))),
        Shape::Str(s) => Ok(Variant::Str(s)),
        Shape::Function(_) => Ok(Variant::Function(Intrinsic::Script)),
        Shape::Error(m) => Ok(Variant::Error(m)),
        Shape::LightUserData => Ok(Variant::Foreign(Foreign::LightUserData)),
        Shape::UserData => Ok(Variant::Foreign(Foreign::UserData)),
        Shape::Thread => Ok(Variant::Foreign(Foreign::Thread)),
        Shape::Other => Ok(Variant::Foreign(Foreign::Other)),
        Shape::Table(t) => Err(t),
    }
}

/// The table that a runtime value is.
pub fn table_of(shape: Shape) -> (r: Option<mlua::Table>)
    ensures
        r == match shape {
            Shape::Table(t) => Some(t),
            _ => None::<mlua::Table>,
        },
{
    match shape {
        Shape::Table(t) => Some(t),
        _ => None,
    }
}

/// The function that a runtime value is.
pub fn function_of(shape: Shape) -> (r: Option<mlua::Function>)
    ensures
        r == match shape {
            Shape::Function(f) => Some(f),
            _ => None::<mlua::Function>,
        },
{
    match shape {
        Shape::Function(f) => Some(f),
        _ => None,
    }
}

/// The text that a runtime value is.
pub fn text_of(shape: Shape) -> (r: Option<String>)
    ensures
        r == match shape {
            Shape::Str(s) => Some(s),
            _ => None::<String>,
        },
{
    match shape {
        Shape::Str(s) => Some(s),
        _ => None,
    }
}

/// A copy of what a runtime value holds.
///
/// What is no table is copied as [`leaf`] says.  Tables are followed `depth` levels
/// deep, and no more than [`SNAPSHOT_TABLES`] tables are copied; a table beyond either
/// bound is copied as [`Foreign::Other`], and so is a table that cannot be read.  What
/// the copy holds is what the runtime holds when the copy is taken; every function in
/// it is a script's function.  `v` must be a value of the runtime `lua`.
pub fn snapshot(lua: &mlua::Lua, v: &mlua::Value, depth: usize) -> (r: Variant)
    requires
        fits(*v, *lua),
    ensures
        r@.nesting() <= depth,
        r@.tables() <= SNAPSHOT_TABLES,
        of_runtime(r@),
        match copy_of(held(*v)) {
            Some(copy) => r@ == copy,
            None => r@ is Table || r@ == Dynamic::Foreign(Foreign::Other),
        },
{
    let mut left: usize = SNAPSHOT_TABLES;
    copied(lua, v, depth, &mut left)
}

/// A copy of what a runtime value holds, `depth` levels deep and of no more than `left`
/// tables; `left` is lowered by the number of tables copied.
fn copied(lua: &mlua::Lua, v: &mlua::Value, depth: usize, left: &mut usize) -> (r: Variant)
    requires
        fits(*v, *lua),
    ensures
        r@.nesting() <= depth,
        r@.tables() + *final(left) <= *old(left),
        of_runtime(r@),
        match copy_of(held(*v)) {
            Some(copy) => r@ == copy,
            None => r@ is Table || r@ == Dynamic::Foreign(Foreign::Other),
        },
    decreases depth,
{
    let t = match leaf(lua::shape(lua, v)) {
        Ok(plain) => {
            return plain;
        },
        Err(t) => t,
    };
    if depth == 0 || *left == 0 {
        return Variant::Foreign(Foreign::Other);
    }
    match lua::pairs(lua, &t) {
        Err(_) => Variant::Foreign(Foreign::Other),
        Ok(raw) => {
            *left = *left - 1;
            let mut entries: Vec<(Variant, Variant)> = Vec::new();
            let n = raw.len();
            let mut i: usize = 0;
            while i < n
                invariant
                    i <= n,
                    n == raw@.len(),
                    depth > 0,
                    crate::lua::pairs_fit(raw@, *lua),
                    deepest(pairs_view(entries@)) <= depth - 1,
                    1 + tables_among(pairs_view(entries@)) + *left <= *old(left),
                    forall|j: int|
                        0 <= j < entries@.len() ==> of_runtime(
                            (#[trigger] pairs_view(entries@)[j]).0,
                        ) && of_runtime(pairs_view(entries@)[j].1),
                decreases n - i,
            {
                let key = copied(lua, &raw[i].0, depth - 1, left);
                let value = copied(lua, &raw[i].1, depth - 1, left);
                let ghost before = entries@;
                entries.push((key, value));
                proof {
                    assert(entries@.drop_last() =~= before);
                    assert(pairs_view(entries@).drop_last() =~= pairs_view(before));
                    lemma_pairs_view(before);
                    lemma_pairs_view(entries@);
                }
                i += 1;
            }
            proof {
                lemma_pairs_view(entries@);
            }
            Variant::Table(entries)
        },
    }
}

/// Whether every function in `v`, at any depth, is a script's function: the form of a
/// copy taken from the runtime, in which the core recognises no intrinsic.
pub open spec fn of_runtime(v: Dynamic) -> bool
    decreases v,
{
    match v {
        Dynamic::Function(f) => f == Intrinsic::Script,
        Dynamic::Table(entries) => forall|i: int|
            0 <= i < entries.len() ==> of_runtime((#[trigger] entries[i]).0) && of_runtime(
                entries[i].1,
            ),
        _ => true,
    }
}

/// Whether rebuilding `v` asks nothing of the runtime that the runtime can refuse:
/// nothing, a boolean, an integer, a number, a foreign value, or a script's function.
pub open spec fn plain(v: Dynamic) -> bool {
    match v {
        Dynamic::Nil => true,
        Dynamic::Boolean(_) => true,
        Dynamic::Integer(_) => true,
        Dynamic::Number(_) => true,
        Dynamic::Foreign(_) => true,
        Dynamic::Function(Intrinsic::Script) => true,
        _ => false,
    }
}

/// Whether `v` is, or holds in a table at any depth, the identity intrinsic of an
/// identity that no integer of the runtime holds.
pub open spec fn beyond_runtime(v: Dynamic) -> bool
    decreases v,
{
    match v {
        Dynamic::Function(Intrinsic::Id(id)) => id > i64::MAX,
        Dynamic::Table(entries) => exists|i: int|
            0 <= i < entries.len() && (beyond_runtime((#[trigger] entries[i]).0)
                || beyond_runtime(entries[i].1)),
        _ => false,
    }
}

/// What the host bound under `name` for the bridge.
fn bound(lua: &mlua::Lua, bindings: &Bindings, name: &str) -> (r: Result<mlua::Value, EngineError>)
    requires
        bindings.within(*lua),
    ensures
        r is Err ==> r == Err::<mlua::Value, EngineError>(EngineError::ScriptRuntime),
        r is Ok ==> fits(r->Ok_0, *lua),
{
    match lua::get(lua, &bindings.intrinsics, name) {
        Ok(v) => Ok(v),
        Err(e) => Err(runtime_error(&e)),
    }
}

/// The result of the function that the host bound under `name`, called with `arg`.
pub(crate) fn made_by(lua: &mlua::Lua, bindings: &Bindings, name: &str, arg: mlua::Value) -> (r:
    Result<mlua::Value, EngineError>)
    requires
        bindings.within(*lua),
        fits(arg, *lua),
    ensures
        r is Err ==> r == Err::<mlua::Value, EngineError>(EngineError::ScriptRuntime),
        r is Ok ==> fits(r->Ok_0, *lua),
{
    let maker = bound(lua, bindings, name)?;
    match function_of(lua::shape(lua, &maker)) {
        Some(f) => {
            let mut args: Vec<mlua::Value> = Vec::new();
            args.push(arg);
            match lua::call(lua, &f, args) {
                Ok(v) => Ok(v),
                Err(e) => Err(runtime_error(&e)),
            }
        },
        None => Err(EngineError::ScriptRuntime),
    }
}

/// What `v` is rebuilt as holds, where that depends on `v` alone: the same nothing,
/// boolean, integer or number, the text of a text or of an error message, a table for a
/// table, and nothing for a foreign value and for a script's function, which the core
/// cannot rebuild.  None for an intrinsic, which becomes what the host bound for it.
/// `nested` inside the transform of a click test, where a click test is rebuilt as
/// nothing.
pub open spec fn rebuilt(v: Dynamic, nested: bool) -> Option<Held> {
    match v {
        Dynamic::Nil => Some(Held::Nil),
        Dynamic::Boolean(b) => Some(Held::Boolean(b)),
        Dynamic::Integer(i) => Some(Held::Integer(i)),
        Dynamic::Number(n) => Some(Held::Number(n.bits)),
        Dynamic::Str(s) => Some(Held::Text(s)),
        Dynamic::Error(m) => Some(Held::Text(m)),
        Dynamic::Foreign(_) => Some(Held::Nil),
        Dynamic::Table(_) => Some(Held::Table),
        Dynamic::Function(Intrinsic::Script) => Some(Held::Nil),
        Dynamic::Function(Intrinsic::Clicked(_)) => if nested {
            Some(Held::Nil)
        } else {
            None
        },
        Dynamic::Function(_) => None,
    }
}

/// Whether `k` is rebuilt as something that the runtime takes for no key: nothing, a
/// foreign value, a script's function, or a number that is no number.
pub open spec fn refused_key(k: Dynamic) -> bool {
    match rebuilt(k, false) {
        Some(h) => !keyable(h),
        None => false,
    }
}

/// Whether `v` is a table with a key that the runtime refuses, or holds one at any depth.
pub open spec fn holds_refused_key(v: Dynamic) -> bool
    decreases v,
{
    match v {
        Dynamic::Table(entries) => exists|i: int|
            0 <= i < entries.len() && (refused_key((#[trigger] entries[i]).0)
                || holds_refused_key(entries[i].0) || holds_refused_key(entries[i].1)),
        _ => false,
    }
}

/// Whether the runtime takes a value of the shape `shape` as the key of a table.
pub fn takes_key(shape: &Shape) -> (b: bool)
    ensures
        b == keyable(told(*shape)),
{
    match shape {
        Shape::Nil => false,
        Shape::Number(bits) => !Scalar::from_bits(*bits).nan(),
        _ => true,
    }
}

/// What is rebuilt of nothing, a boolean, an integer, a number or a text is copied back
/// as what it was.
pub proof fn lemma_leaf_round_trip(v: Dynamic)
    requires
        v is Nil || v is Boolean || v is Integer || v is Number || v is Str,
    ensures
        rebuilt(v, false) is Some,
        copy_of(rebuilt(v, false)->0) == Some(v),
{
}

/// `v` rebuilt in the runtime; `nested` inside the transform of a click test.
fn rebuild(lua: &mlua::Lua, bindings: &Bindings, v: &Variant, nested: bool) -> (r: Result<
    mlua::Value,
    EngineError,
>)
    requires
        bindings.within(*lua),
    ensures
        r is Err ==> r == Err::<mlua::Value, EngineError>(EngineError::ScriptRuntime),
        r is Ok ==> fits(r->Ok_0, *lua),
        r is Ok && rebuilt(v@, nested) is Some ==> held(r->Ok_0) == rebuilt(v@, nested)->0,
        holds_refused_key(v@) ==> r is Err,
        plain(v@) ==> r is Ok,
        nested && v@ is Function && v@->Function_0 is Clicked ==> r is Ok,
        beyond_runtime(v@) ==> r is Err,
    decreases
            (if nested {
                0int
            } else {
                1int
            }),
            v,
{
    match v {
        Variant::Nil => Ok(lua::nil()),
        Variant::Boolean(b) => Ok(lua::boolean(*b)),
        Variant::Integer(i) => Ok(lua::integer(*i)),
        Variant::Number(n) => Ok(lua::number(n.to_bits())),
        Variant::Str(s) => match lua::text(lua, s.as_str()) {
            Ok(t) => Ok(t),
            Err(e) => Err(runtime_error(&e)),
        },
        Variant::Error(m) => match lua::text(lua, m.as_str()) {
            Ok(t) => Ok(t),
            Err(e) => Err(runtime_error(&e)),
        },
        Variant::Foreign(_) => Ok(lua::nil()),
        Variant::Function(f) => match f {
            Intrinsic::Dot => bound(lua, bindings, "dot"),
            Intrinsic::Collides => bound(lua, bindings, "collides"),
            Intrinsic::Play => bound(lua, bindings, "play"),
            Intrinsic::Dimensions => bound(lua, bindings, "dimensions"),
            Intrinsic::Script => Ok(lua::nil()),
            Intrinsic::Id(id) => {
                if *id > i64::MAX as u64 {
                    Err(EngineError::ScriptRuntime)
                } else {
                    made_by(lua, bindings, "constant", lua::integer(*id as i64))
                }
            },
            Intrinsic::Kind(k) => match lua::text(lua, k.name()) {
                Ok(t) => made_by(lua, bindings, "constant", t),
                Err(e) => Err(runtime_error(&e)),
            },
            Intrinsic::Clicked(t) => {
                if nested {
                    Ok(lua::nil())
                } else {
                    let area = t.as_lua();
                    let arg = rebuild(lua, bindings, &area, true)?;
                    made_by(lua, bindings, "clicked", arg)
                }
            },
        },
        Variant::Table(entries) => {
            let table = match lua::new_table(lua) {
                Ok(t) => t,
                Err(e) => {
                    return Err(runtime_error(&e));
                },
            };
            let n = entries.len();
            let mut i: usize = 0;
            proof {
                lemma_pairs_view(entries@);
            }
            while i < n
                invariant
                    i <= n,
                    n == entries@.len(),
                    bindings.within(*lua),
                    table_home(table) == runtime_id(*lua),
                    decreases_to!(v => entries),
                    v@ == Dynamic::Table(pairs_view(entries@)),
                    forall|j: int|
                        0 <= j < i ==> !beyond_runtime((#[trigger] pairs_view(entries@)[j]).0)
                            && !beyond_runtime(pairs_view(entries@)[j].1),
                    forall|j: int|
                        0 <= j < i ==> !refused_key((#[trigger] pairs_view(entries@)[j]).0)
                            && !holds_refused_key(pairs_view(entries@)[j].0)
                            && !holds_refused_key(pairs_view(entries@)[j].1),
                decreases n - i,
            {
                proof {
                    vstd::std_specs::vec::axiom_vec_index_decreases(*entries, i as int);
                    lemma_pairs_view(entries@);
                }
                let key = rebuild(lua, bindings, &entries[i].0, nested)?;
                if !takes_key(&lua::shape(lua, &key)) {
                    return Err(EngineError::ScriptRuntime);
                }
                let value = rebuild(lua, bindings, &entries[i].1, nested)?;
                match lua::put(lua, &table, key, value) {
                    Ok(()) => {},
                    Err(e) => {
                        return Err(runtime_error(&e));
                    },
                }
                i += 1;
            }
            Ok(lua::table_value(table))
        },
    }
}

/// `v` rebuilt in the runtime.
///
/// A table becomes a new table of the runtime with the same pairs in the same order.
/// An intrinsic becomes what the host bound for it; a script's function, which the core
/// cannot rebuild, and a foreign value become `nil`.  Fails with
/// [`EngineError::ScriptRuntime`] where the runtime refuses a step, and always where `v`
/// holds the identity intrinsic of an identity that no integer of the runtime holds.
/// What asks nothing of the runtime that it can refuse is always rebuilt.  A table with
/// a key that the runtime takes for no key, at any depth, is never rebuilt: nothing, a
/// foreign value, a script's function and a number that is no number are no keys.  What
/// is rebuilt holds what [`rebuilt`] says.  The bindings must live in `lua`; what is
/// rebuilt can be used in `lua`.
pub fn materialize(lua: &mlua::Lua, bindings: &Bindings, v: &Variant) -> (r: Result<
    mlua::Value,
    EngineError,
>)
    requires
        bindings.within(*lua),
    ensures
        r is Err ==> r == Err::<mlua::Value, EngineError>(EngineError::ScriptRuntime),
        r is Ok ==> fits(r->Ok_0, *lua),
        r is Ok && rebuilt(v@, false) is Some ==> held(r->Ok_0) == rebuilt(v@, false)->0,
        plain(v@) ==> r is Ok,
        beyond_runtime(v@) ==> r is Err,
        holds_refused_key(v@) ==> r is Err,
{
    rebuild(lua, bindings, v, false)
}

} // verus!
