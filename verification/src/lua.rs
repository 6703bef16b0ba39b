//! The scripting runtime, as far as the core relies on it.
//!
//! Everything here is trusted: the types are those of the `mlua` crate, opaque
//! to the verifier, and each function below makes one call into that crate.
//! What a script does is not a function of the arguments of a call, so none of
//! these functions promises what a table holds or what a call returns; the
//! verified code that calls them is proved for every result.
//!
//! A handle (a table, a function, a value that holds one) refers to the runtime
//! it was made in and must be used in that runtime, while that runtime is alive:
//! `mlua` panics otherwise.  Every function that uses a handle therefore takes
//! the runtime and requires that the handle lives in it; a function that makes
//! a handle says in which runtime it lives.
//!
//! A call that runs a script returns when the script does: a script that never
//! ends keeps its caller waiting, and nothing here can rule that out.  Nor can
//! anything here rule out a panic in a function that the host has bound into the
//! runtime: `mlua` catches it where the script calls the function and raises it
//! again when control is back in the caller, so it passes through a call made
//! here.
//!
//! What a value holds, as far as it depends on the value alone, has a name too,
//! see [`held`]: which kind of value it is, and its boolean, integer, number or
//! text.  What a table holds and what a function does are no part of it.

use vstd::prelude::*;
use crate::scalar::Scalar;

verus! {

/// `mlua::Lua`, one instance of the scripting runtime.
#[verifier::external_type_specification]
#[verifier::external_body]
pub struct ExLua(mlua::Lua);

/// `mlua::Table`, a reference to a table that lives in the runtime.
#[verifier::external_type_specification]
#[verifier::external_body]
pub struct ExTable(mlua::Table);

/// `mlua::Function`, a reference to a function that lives in the runtime.
#[verifier::external_type_specification]
#[verifier::external_body]
pub struct ExFunction(mlua::Function);

/// `mlua::Value`, any value of the runtime.
#[verifier::external_type_specification]
#[verifier::external_body]
pub struct ExValue(mlua::Value);

/// `mlua::Error`, what a failed call into the runtime returns.
#[verifier::external_type_specification]
#[verifier::external_body]
pub struct ExError(mlua::Error);

/// Which runtime `lua` is.
pub uninterp spec fn runtime_id(lua: mlua::Lua) -> int;

/// The runtime that the table `t` lives in.
pub uninterp spec fn table_home(t: mlua::Table) -> int;

/// The runtime that the function `f` lives in.
pub uninterp spec fn function_home(f: mlua::Function) -> int;

/// The runtime that the handle inside `v` lives in; none where `v` holds no handle.
pub uninterp spec fn value_home(v: mlua::Value) -> Option<int>;

/// Whether `v` can be used in `lua`: it holds no handle, or one that lives in `lua`.
pub open spec fn fits(v: mlua::Value, lua: mlua::Lua) -> bool {
    value_home(v) is None || value_home(v) == Some(runtime_id(lua))
}

/// Whether every value of `values` can be used in `lua`.
pub open spec fn all_fit(values: Seq<mlua::Value>, lua: mlua::Lua) -> bool {
    forall|i: int| 0 <= i < values.len() ==> fits(#[trigger] values[i], lua)
}

/// Whether every key and every value of `pairs` can be used in `lua`.
pub open spec fn pairs_fit(pairs: Seq<(mlua::Value, mlua::Value)>, lua: mlua::Lua) -> bool {
    forall|i: int| 0 <= i < pairs.len() ==> fits((#[trigger] pairs[i]).0, lua) && fits(pairs[i].1, lua)
}

/// What a runtime value holds, as far as it depends on the value alone.  A number is
/// its bit pattern; a table and a function are only told from the rest.
pub enum Held {
    Nil,
    Boolean(bool),
    Integer(i64),
    Number(u64),
    Text(Seq<char>),
    Table,
    Function,
    Error(Seq<char>),
    LightUserData,
    UserData,
    Thread,
    Other,
}

/// What the value `v` holds: the variant of `mlua::Value` that it is, with the boolean,
/// the integer or the bits of the number in it, the text of a string as
/// `to_string_lossy` gives it, the message of an error as `to_string` gives it.
pub uninterp spec fn held(v: mlua::Value) -> Held;

/// Whether the runtime takes a value that holds `h` as the key of a table: anything
/// but `nil` and a number that is no number.
pub open spec fn keyable(h: Held) -> bool {
    match h {
        Held::Nil => false,
        Held::Number(bits) => !(Scalar { bits }).is_nan(),
        _ => true,
    }
}

/// Whether every key of `pairs` is one that the runtime takes.
pub open spec fn keys_taken(pairs: Seq<(mlua::Value, mlua::Value)>) -> bool {
    forall|i: int| 0 <= i < pairs.len() ==> keyable(held((#[trigger] pairs[i]).0))
}

/// What kind of value a runtime value is, with what it holds.
pub enum Shape {
    Nil,
    Boolean(bool),
    Integer(i64),
    /// The bit pattern of the number.
    Number(u64),
    Str(String),
    Table(mlua::Table),
    Function(mlua::Function),
    Error(String),
    LightUserData,
    UserData,
    Thread,
    Other,
}

/// What a value of the shape `s` holds.
pub open spec fn told(s: Shape) -> Held {
    match s {
        Shape::Nil => Held::Nil,
        Shape::Boolean(b) => Held::Boolean(b),
        Shape::Integer(i) => Held::Integer(i),
        Shape::Number(bits) => Held::Number(bits),
        Shape::Str(s) => Held::Text(s@),
        Shape::Table(_) => Held::Table,
        Shape::Function(_) => Held::Function,
        Shape::Error(m) => Held::Error(m@),
        Shape::LightUserData => Held::LightUserData,
        Shape::UserData => Held::UserData,
        Shape::Thread => Held::Thread,
        Shape::Other => Held::Other,
    }
}

/// `mlua::Lua::new`: a fresh runtime with the safe standard libraries.
#[verifier::external_body]
pub(crate) fn fresh_state() -> (lua: mlua::Lua) {
    mlua::Lua::new()
}

/// `mlua::Lua::load`, `mlua::Chunk::set_environment`, `set_name` and `into_function`:
/// compiles `source` under the name `name`, with `env` as its global table, and runs
/// nothing.  The function made lives in `lua`.
#[verifier::external_body]
pub(crate) fn compiled(lua: &mlua::Lua, source: String, env: &mlua::Table, name: &str) -> (r: Result<
    mlua::Function,
    mlua::Error,
>)
    requires
        table_home(*env) == runtime_id(*lua),
    ensures
        r is Ok ==> function_home(r->Ok_0) == runtime_id(*lua),
{
    lua.load(source).set_environment(env.clone()).set_name(name).into_function()
}

/// `mlua::Lua::globals`: the runtime's own global table, which lives in it.
#[verifier::external_body]
pub(crate) fn globals(lua: &mlua::Lua) -> (t: mlua::Table)
    ensures
        table_home(t) == runtime_id(*lua),
{
    lua.globals()
}

/// `mlua::Lua::create_table`: a new empty table, which lives in `lua`.
#[verifier::external_body]
pub(crate) fn new_table(lua: &mlua::Lua) -> (r: Result<mlua::Table, mlua::Error>)
    ensures
        r is Ok ==> table_home(r->Ok_0) == runtime_id(*lua),
{
    lua.create_table()
}

/// `mlua::Table::set`: stores `value` under `key`.  The key must be one that the
/// runtime takes: on `nil` or on a number that is no number the runtime raises an error
/// that nothing catches where the table has no metatable, and the process ends.
#[verifier::external_body]
#[allow(unused_variables)]
pub(crate) fn put(lua: &mlua::Lua, table: &mlua::Table, key: mlua::Value, value: mlua::Value) -> (r:
    Result<(), mlua::Error>)
    requires
        table_home(*table) == runtime_id(*lua),
        fits(key, *lua),
        fits(value, *lua),
        keyable(held(key)),
{
    table.set(key, value)
}

/// `mlua::Table::get`: what the table holds under the text `key`, `nil` where nothing.
/// What a table of `lua` holds can be used in `lua`.
#[verifier::external_body]
#[allow(unused_variables)]
pub(crate) fn get(lua: &mlua::Lua, table: &mlua::Table, key: &str) -> (r: Result<
    mlua::Value,
    mlua::Error,
>)
    requires
        table_home(*table) == runtime_id(*lua),
    ensures
        r is Ok ==> fits(r->Ok_0, *lua),
{
    table.get(key)
}

/// `mlua::Table::get` with the runtime's conversion to a text: the text that the table
/// holds under `key`, or the number there written as the runtime writes it; none where
/// it holds neither, or no text that can be read.
#[verifier::external_body]
#[allow(unused_variables)]
pub(crate) fn get_text(lua: &mlua::Lua, table: &mlua::Table, key: &str) -> (r: Option<String>)
    requires
        table_home(*table) == runtime_id(*lua),
{
    table.get::<String>(key).ok()
}

/// `mlua::Table::pairs`: every key of the table with its value, in the runtime's order.
/// What a table of `lua` holds can be used in `lua`, and a key that a table has is one
/// that the runtime takes.
#[verifier::external_body]
#[allow(unused_variables)]
pub(crate) fn pairs(lua: &mlua::Lua, table: &mlua::Table) -> (r: Result<
    Vec<(mlua::Value, mlua::Value)>,
    mlua::Error,
>)
    requires
        table_home(*table) == runtime_id(*lua),
    ensures
        r is Ok ==> pairs_fit(r->Ok_0@, *lua),
        r is Ok ==> keys_taken(r->Ok_0@),
{
    table.pairs::<mlua::Value, mlua::Value>().collect()
}

/// `mlua::Function::call`: calls `f` with `args` and takes its first result.  What a
/// function of `lua` returns can be used in `lua`.
#[verifier::external_body]
#[allow(unused_variables)]
pub(crate) fn call(lua: &mlua::Lua, f: &mlua::Function, args: Vec<mlua::Value>) -> (r: Result<
    mlua::Value,
    mlua::Error,
>)
    requires
        function_home(*f) == runtime_id(*lua),
        all_fit(args@, *lua),
    ensures
        r is Ok ==> fits(r->Ok_0, *lua),
{
    f.call(mlua::MultiValue::from_vec(args))
}

/// Tells the variants of `mlua::Value` apart, which is what the value holds.  A number
/// is given by `to_bits`, a string by `mlua::String::to_string_lossy`, an error by its
/// `to_string`.  The table or the function that a value of `lua` is lives in `lua`.
#[verifier::external_body]
#[allow(unused_variables)]
pub(crate) fn shape(lua: &mlua::Lua, v: &mlua::Value) -> (s: Shape)
    requires
        fits(*v, *lua),
    ensures
        told(s) == held(*v),
        s is Table ==> table_home(s->Table_0) == runtime_id(*lua),
        s is Function ==> function_home(s->Function_0) == runtime_id(*lua),
{
    match v {
        mlua::Value::Nil => Shape::Nil,
        mlua::Value::Boolean(b) => Shape::Boolean(*b),
        mlua::Value::Integer(i) => Shape::Integer(*i),
        mlua::Value::Number(n) => Shape::Number(n.to_bits()),
        mlua::Value::String(s) => Shape::Str(s.to_string_lossy()),
        mlua::Value::Table(t) => Shape::Table(t.clone()),
        mlua::Value::Function(f) => Shape::Function(f.clone()),
        mlua::Value::Error(e) => Shape::Error(e.to_string()),
        mlua::Value::LightUserData(_) => Shape::LightUserData,
        mlua::Value::UserData(_) => Shape::UserData,
        mlua::Value::Thread(_) => Shape::Thread,
        mlua::Value::Other(_) => Shape::Other,
    }
}

/// `mlua::Value::Nil`, which holds no handle.
#[verifier::external_body]
pub(crate) fn nil() -> (v: mlua::Value)
    ensures
        value_home(v) is None,
        held(v) == Held::Nil,
{
    mlua::Value::Nil
}

/// `mlua::Value::Boolean`, which holds no handle.
#[verifier::external_body]
pub(crate) fn boolean(b: bool) -> (v: mlua::Value)
    ensures
        value_home(v) is None,
        held(v) == Held::Boolean(b),
{
    mlua::Value::Boolean(b)
}

/// `mlua::Value::Integer`, which holds no handle.
#[verifier::external_body]
pub(crate) fn integer(i: i64) -> (v: mlua::Value)
    ensures
        value_home(v) is None,
        held(v) == Held::Integer(i),
{
    mlua::Value::Integer(i)
}

/// `mlua::Value::Number` of the number with the bit pattern `bits`; it holds no handle.
#[verifier::external_body]
pub(crate) fn number(bits: u64) -> (v: mlua::Value)
    ensures
        value_home(v) is None,
        held(v) == Held::Number(bits),
{
    mlua::Value::Number(mlua::Number::from_bits(bits))
}

/// `mlua::Lua::create_string`: the text `s` as a runtime value, which lives in `lua`.
#[verifier::external_body]
pub(crate) fn text(lua: &mlua::Lua, s: &str) -> (r: Result<mlua::Value, mlua::Error>)
    ensures
        r is Ok ==> value_home(r->Ok_0) == Some(runtime_id(*lua)),
        r is Ok ==> held(r->Ok_0) == Held::Text(s@),
{
    lua.create_string(s).map(mlua::Value::String)
}

/// `mlua::Value::Table`: the table as a value, which lives where the table lives.
#[verifier::external_body]
pub(crate) fn table_value(t: mlua::Table) -> (v: mlua::Value)
    ensures
        value_home(v) == Some(table_home(t)),
        held(v) == Held::Table,
{
    mlua::Value::Table(t)
}

/// Whether an `mlua::Error` is its variant `SyntaxError`.
#[verifier::external_body]
pub(crate) fn is_syntax_error(e: &mlua::Error) -> (b: bool) {
    match e {
        mlua::Error::SyntaxError { .. } => true,
        _ => false,
    }
}

/// `mlua::Error`'s `to_string`: the message of an error.
#[verifier::external_body]
pub(crate) fn message(e: &mlua::Error) -> (s: String) {
    e.to_string()
}

} // verus!
