use scene_core::color::Color;
use scene_core::kind::Kind;
use scene_core::lua::Shape;
use scene_core::marshal::function_of;
use scene_core::marshal::leaf;
use scene_core::marshal::table_of;
use scene_core::marshal::text_of;
use scene_core::marshal::materialize;
use scene_core::marshal::snapshot;
use scene_core::marshal::Bindings;
use scene_core::nodelike::IdCounter;
use scene_core::nodes::clickable_area::ClickableArea;
use scene_core::nodes::rectmesh::RectMesh;
use scene_core::scalar::Scalar;
use scene_core::script_manager::FrameGlobals;
use scene_core::variant::Foreign;
use scene_core::variant::Intrinsic;
use scene_core::variant::Variant;
use scene_core::vec2::Vec2;

fn bindings(lua: &mlua::Lua) -> Bindings {
    let commons = lua.create_table().unwrap();
    let intrinsics = lua.create_table().unwrap();
    let constant: mlua::Function = lua
        .load("return function(v) return function() return v end end")
        .eval()
        .unwrap();
    let dot: mlua::Function = lua
        .load("return function(a, b) return a.x * b.x + a.y * b.y end")
        .eval()
        .unwrap();
    let clicked: mlua::Function = lua
        .load("return function(t) return function(button) return t.pos.x + button end end")
        .eval()
        .unwrap();
    let never: mlua::Function = lua.load("return function() return false end").eval().unwrap();
    intrinsics.set("constant", constant).unwrap();
    intrinsics.set("dot", dot).unwrap();
    intrinsics.set("clicked", clicked).unwrap();
    intrinsics.set("collides", never.clone()).unwrap();
    intrinsics.set("play", never.clone()).unwrap();
    intrinsics.set("dimensions", never).unwrap();
    let requests: mlua::Function = lua
        .load("return function(id) return { owner = function() return id end } end")
        .eval()
        .unwrap();
    intrinsics.set("requests", requests).unwrap();
    let double: mlua::Function = lua.load("return function(n) return 2 * n end").eval().unwrap();
    commons.set("double", double).unwrap();
    let raise: mlua::Function = lua.globals().get("error").unwrap();
    commons.set("error", raise).unwrap();
    Bindings { commons, intrinsics }
}

fn globals() -> FrameGlobals {
    FrameGlobals {
        window_width: Scalar::from_bits(800.0f64.to_bits()),
        window_height: Scalar::from_bits(600.0f64.to_bits()),
        mouse_pos: Vec2::new(11, 22),
    }
}

#[test]
fn plain_values_survive_the_runtime() {
    let lua = mlua::Lua::new();
    let b = bindings(&lua);
    for v in [
        Variant::Nil,
        Variant::Boolean(true),
        Variant::Boolean(false),
        Variant::Integer(-7),
        Variant::Integer(i64::MAX),
        Variant::Number(Scalar::from_bits(0.5f64.to_bits())),
        Variant::text("text"),
        Variant::text(""),
    ] {
        let raw = materialize(&lua, &b, &v).unwrap();
        assert_eq!(snapshot(&lua, &raw, 4), v);
    }
}

#[test]
fn a_table_survives_the_runtime() {
    let lua = mlua::Lua::new();
    let b = bindings(&lua);
    let inner = Variant::Table(vec![Variant::entry("deep", Variant::Integer(1))]);
    let v = Variant::Table(vec![Variant::entry("inner", inner)]);
    let raw = materialize(&lua, &b, &v).unwrap();
    let back = snapshot(&lua, &raw, 4);
    assert_eq!(back.part("inner").integer_at("deep"), Some(1));
    assert_eq!(snapshot(&lua, &raw, 1).part("inner"), &Variant::Foreign(Foreign::Other));
    assert_eq!(snapshot(&lua, &raw, 0), Variant::Foreign(Foreign::Other));
}

#[test]
fn what_the_runtime_holds_is_what_was_written() {
    let lua = mlua::Lua::new();
    let b = bindings(&lua);
    let v = Variant::Table(vec![
        Variant::entry("n", Variant::Integer(41)),
        Variant::entry("s", Variant::text("word")),
        Variant::entry("f", Variant::Boolean(true)),
        (Variant::Integer(1), Variant::text("first")),
    ]);
    let raw = materialize(&lua, &b, &v).unwrap();
    lua.globals().set("t", raw).unwrap();
    let sum: i64 = lua.load("return t.n + 1").eval().unwrap();
    assert_eq!(sum, 42);
    let word: String = lua.load("return t.s .. t[1]").eval().unwrap();
    assert_eq!(word, "wordfirst");
    let flag: bool = lua.load("return t.f").eval().unwrap();
    assert!(flag);
}

#[test]
fn a_snapshot_copies_what_a_script_wrote() {
    let lua = mlua::Lua::new();
    let raw: mlua::Value = lua
        .load("return { x = 3, y = 4.5, name = 'n', on = false, list = { 10, 20 }, f = print }")
        .eval()
        .unwrap();
    let v = snapshot(&lua, &raw, 8);
    assert_eq!(v.integer_at("x"), Some(3));
    assert_eq!(v.part("y"), &Variant::Number(Scalar::from_bits(4.5f64.to_bits())));
    assert_eq!(v.text_at("name"), Some("n"));
    assert_eq!(v.boolean_at("on"), Some(false));
    assert_eq!(v.part("f"), &Variant::Function(Intrinsic::Script));
    assert_eq!(
        v.part("list"),
        &Variant::Table(vec![
            (Variant::Integer(1), Variant::Integer(10)),
            (Variant::Integer(2), Variant::Integer(20)),
        ])
    );
}

#[test]
fn a_table_that_holds_itself_is_cut_off() {
    let lua = mlua::Lua::new();
    let raw: mlua::Value = lua.load("local t = {}; t.me = t; return t").eval().unwrap();
    let v = snapshot(&lua, &raw, 3);
    assert_eq!(
        v.part("me").part("me").part("me"),
        &Variant::Foreign(Foreign::Other)
    );
}

#[test]
fn intrinsics_become_what_the_host_bound() {
    let lua = mlua::Lua::new();
    let b = bindings(&lua);
    let raw = materialize(&lua, &b, &Vec2::new(3, 4).as_lua()).unwrap();
    lua.globals().set("v", raw).unwrap();
    let dot: i64 = lua.load("return v.dot(v, v)").eval().unwrap();
    assert_eq!(dot, 25);
}

#[test]
fn identity_and_kind_become_functions_that_return_them() {
    let lua = mlua::Lua::new();
    let b = bindings(&lua);
    let mut ids = IdCounter { next: 77 };
    let mesh = RectMesh::new(Vec2::zero(), Vec2::one(), Color::new(0), &mut ids);
    let raw = materialize(&lua, &b, &mesh.as_lua()).unwrap();
    lua.globals().set("this", raw).unwrap();
    let id: i64 = lua.load("return this.base.id()").eval().unwrap();
    assert_eq!(id, 77);
    let kind: String = lua.load("return this.kind()").eval().unwrap();
    assert_eq!(kind, Kind::RectMesh.name());
}

#[test]
fn a_click_test_is_made_for_the_area() {
    let lua = mlua::Lua::new();
    let b = bindings(&lua);
    let mut ids = IdCounter::new();
    let area = ClickableArea::new(Vec2::new(40, 0), Vec2::one(), &mut ids);
    let raw = materialize(&lua, &b, &area.as_lua()).unwrap();
    lua.globals().set("this", raw).unwrap();
    let answer: i64 = lua.load("return this.clicked(2)").eval().unwrap();
    assert_eq!(answer, 42);
}

#[test]
fn what_cannot_be_rebuilt_becomes_nil() {
    let lua = mlua::Lua::new();
    let b = bindings(&lua);
    let raw = materialize(&lua, &b, &Variant::Function(Intrinsic::Script)).unwrap();
    assert_eq!(snapshot(&lua, &raw, 1), Variant::Nil);
    let raw = materialize(&lua, &b, &Variant::Foreign(Foreign::Thread)).unwrap();
    assert_eq!(snapshot(&lua, &raw, 1), Variant::Nil);
    let raw = materialize(&lua, &b, &Variant::Error("e".to_string())).unwrap();
    assert_eq!(snapshot(&lua, &raw, 1), Variant::text("e"));
}

#[test]
fn a_missing_binding_fails() {
    let lua = mlua::Lua::new();
    let b = Bindings {
        commons: lua.create_table().unwrap(),
        intrinsics: lua.create_table().unwrap(),
    };
    assert!(materialize(&lua, &b, &Variant::Function(Intrinsic::Id(1))).is_err());
    assert!(materialize(&lua, &b, &Variant::Integer(1)).is_ok());
    let _ = globals();
}

#[test]
fn what_is_no_table_is_copied_leaf_by_leaf() {
    let lua = mlua::Lua::new();
    let half = 0.5f64.to_bits();
    assert_eq!(leaf(Shape::Nil).unwrap(), Variant::Nil);
    assert_eq!(leaf(Shape::Boolean(true)).unwrap(), Variant::Boolean(true));
    assert_eq!(leaf(Shape::Integer(-3)).unwrap(), Variant::Integer(-3));
    assert_eq!(leaf(Shape::Number(half)).unwrap(), Variant::Number(Scalar::from_bits(half)));
    assert_eq!(leaf(Shape::Str("s".to_string())).unwrap(), Variant::text("s"));
    assert_eq!(leaf(Shape::Error("e".to_string())).unwrap(), Variant::Error("e".to_string()));
    assert_eq!(leaf(Shape::LightUserData).unwrap(), Variant::Foreign(Foreign::LightUserData));
    assert_eq!(leaf(Shape::UserData).unwrap(), Variant::Foreign(Foreign::UserData));
    assert_eq!(leaf(Shape::Thread).unwrap(), Variant::Foreign(Foreign::Thread));
    assert_eq!(leaf(Shape::Other).unwrap(), Variant::Foreign(Foreign::Other));
    let f: mlua::Function = lua.globals().get("print").unwrap();
    assert_eq!(leaf(Shape::Function(f)).unwrap(), Variant::Function(Intrinsic::Script));
    let t = lua.create_table().unwrap();
    assert_eq!(leaf(Shape::Table(t.clone())), Err(t));
}

#[test]
fn what_asks_nothing_of_the_runtime_is_always_rebuilt() {
    let lua = mlua::Lua::new();
    let empty = Bindings {
        commons: lua.create_table().unwrap(),
        intrinsics: lua.create_table().unwrap(),
    };
    for v in [
        Variant::Nil,
        Variant::Boolean(true),
        Variant::Integer(i64::MIN),
        Variant::Number(Scalar::from_bits(f64::NAN.to_bits())),
        Variant::Foreign(Foreign::UserData),
        Variant::Function(Intrinsic::Script),
    ] {
        assert!(materialize(&lua, &empty, &v).is_ok());
    }
}

#[test]
fn an_identity_beyond_the_integers_of_the_runtime_is_never_rebuilt() {
    let lua = mlua::Lua::new();
    let b = bindings(&lua);
    let beyond = Variant::Function(Intrinsic::Id(i64::MAX as u64 + 1));
    assert!(materialize(&lua, &b, &beyond).is_err());
    let nested = Variant::Table(vec![
        Variant::entry("fine", Variant::Integer(1)),
        Variant::entry(
            "inner",
            Variant::Table(vec![(Variant::Function(Intrinsic::Id(u64::MAX)), Variant::Nil)]),
        ),
    ]);
    assert!(materialize(&lua, &b, &nested).is_err());
    let last = Variant::Function(Intrinsic::Id(i64::MAX as u64));
    assert!(materialize(&lua, &b, &last).is_ok());
}

#[test]
fn a_value_is_taken_for_the_table_function_or_text_it_is() {
    let lua = mlua::Lua::new();
    let t = lua.create_table().unwrap();
    let f: mlua::Function = lua.globals().get("print").unwrap();
    assert_eq!(table_of(Shape::Table(t.clone())), Some(t.clone()));
    assert_eq!(table_of(Shape::Function(f.clone())), None);
    assert_eq!(table_of(Shape::Nil), None);
    assert_eq!(function_of(Shape::Function(f.clone())), Some(f));
    assert_eq!(function_of(Shape::Table(t)), None);
    assert_eq!(function_of(Shape::Str("f".to_string())), None);
    assert_eq!(text_of(Shape::Str("kind".to_string())), Some("kind".to_string()));
    assert_eq!(text_of(Shape::Error("kind".to_string())), None);
    assert_eq!(text_of(Shape::Integer(1)), None);
}

fn refused(key: Variant) {
    let lua = mlua::Lua::new();
    let b = bindings(&lua);
    let flat = Variant::Table(vec![(Variant::Integer(1), Variant::Integer(2)), (key, Variant::Integer(3))]);
    assert_eq!(materialize(&lua, &b, &flat), Err(scene_core::error::EngineError::ScriptRuntime));
    let deep = Variant::Table(vec![(Variant::text("inner"), flat)]);
    assert_eq!(materialize(&lua, &b, &deep), Err(scene_core::error::EngineError::ScriptRuntime));
    let as_key = Variant::Table(vec![(deep, Variant::Integer(1))]);
    assert_eq!(materialize(&lua, &b, &as_key), Err(scene_core::error::EngineError::ScriptRuntime));
}

#[test]
fn nothing_is_no_key() {
    refused(Variant::Nil);
}

#[test]
fn a_foreign_value_is_no_key() {
    refused(Variant::Foreign(Foreign::Other));
    refused(Variant::Foreign(Foreign::UserData));
    refused(Variant::Foreign(Foreign::LightUserData));
    refused(Variant::Foreign(Foreign::Thread));
}

#[test]
fn the_function_of_a_script_is_no_key() {
    refused(Variant::Function(Intrinsic::Script));
}

#[test]
fn a_number_that_is_no_number_is_no_key() {
    refused(Variant::Number(Scalar::from_bits(f64::NAN.to_bits())));
    refused(Variant::Number(Scalar::from_bits(0x7ff0_0000_0000_0001)));
    refused(Variant::Number(Scalar::from_bits(0xfff8_0000_0000_0000)));
    assert!(Scalar::from_bits(f64::NAN.to_bits()).nan());
    assert!(!Scalar::from_bits(f64::INFINITY.to_bits()).nan());
    assert!(!Scalar::from_bits(1.5f64.to_bits()).nan());
}

#[test]
fn an_intrinsic_that_the_host_bound_to_nothing_is_no_key() {
    let lua = mlua::Lua::new();
    let b = bindings(&lua);
    b.intrinsics.set("dot", mlua::Value::Nil).unwrap();
    let keyed = Variant::Table(vec![(Variant::Function(Intrinsic::Dot), Variant::Integer(1))]);
    assert_eq!(materialize(&lua, &b, &keyed), Err(scene_core::error::EngineError::ScriptRuntime));
}

#[test]
fn every_other_value_is_a_key() {
    let lua = mlua::Lua::new();
    let b = bindings(&lua);
    let keyed = Variant::Table(vec![
        (Variant::Boolean(false), Variant::Integer(1)),
        (Variant::Integer(0), Variant::Integer(2)),
        (Variant::Number(Scalar::from_bits(f64::INFINITY.to_bits())), Variant::Integer(3)),
        (Variant::Number(Scalar::from_bits(0.5f64.to_bits())), Variant::Integer(4)),
        (Variant::text(""), Variant::Integer(5)),
        (Variant::Table(vec![]), Variant::Integer(6)),
        (Variant::Function(Intrinsic::Dot), Variant::Integer(7)),
    ]);
    let raw = materialize(&lua, &b, &keyed).unwrap();
    let table = match raw {
        mlua::Value::Table(t) => t,
        _ => panic!("not a table"),
    };
    assert_eq!(table.get::<i64>(false).unwrap(), 1);
    assert_eq!(table.get::<i64>(0).unwrap(), 2);
    assert_eq!(table.get::<i64>(f64::INFINITY).unwrap(), 3);
    assert_eq!(table.get::<i64>(0.5).unwrap(), 4);
    assert_eq!(table.get::<i64>("").unwrap(), 5);
    assert_eq!(table.pairs::<mlua::Value, mlua::Value>().count(), 7);
}

#[test]
fn a_table_that_holds_itself_twice_is_copied_in_bounded_work() {
    let lua = mlua::Lua::new();
    let raw: mlua::Value = lua.load("local t = {}; t.a = t; t.b = t; return t").eval().unwrap();
    let copy = snapshot(&lua, &raw, 96);
    fn tables(v: &Variant) -> usize {
        match v {
            Variant::Table(entries) => {
                1 + entries.iter().map(|(k, v)| tables(k) + tables(v)).sum::<usize>()
            },
            _ => 0,
        }
    }
    assert!(tables(&copy) <= 65536);
    assert!(tables(&copy) >= 1000);
    assert_eq!(scene_core::marshal::SNAPSHOT_TABLES, 65536);
}
