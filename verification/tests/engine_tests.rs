use scene_core::color::Color;
use scene_core::command::Command;
use scene_core::command::Request;
use scene_core::engine::background;
use scene_core::engine::merge_back;
use scene_core::engine::place_described;
use scene_core::engine::place_entity;
use scene_core::engine::placing_cost;
use scene_core::engine::settle;
use scene_core::engine::Engine;
use scene_core::engine::Stage;
use scene_core::entity::Entity;
use scene_core::error::EngineError;
use scene_core::kind::Kind;
use scene_core::marshal::Bindings;
use scene_core::children_container::ChildrenContainer;
use scene_core::nodelike::IdCounter;
use scene_core::nodes::collider::Collider;
use scene_core::nodes::collider::ColliderRegistry;
use scene_core::nodes::button::TextButton;
use scene_core::nodes::node::Node;
use scene_core::nodes::rectmesh::RectMesh;
use scene_core::scalar::Scalar;
use scene_core::script_manager::FrameGlobals;
use scene_core::script_manager::HookFailure;
use scene_core::script_manager::HookReport;
use scene_core::script_manager::ManagerState;
use scene_core::transform::Transform;
use scene_core::variant::Variant;
use scene_core::vec2::Vec2;
use scene_core::window::WindowConfig;

fn bindings(lua: &mlua::Lua) -> Bindings {
    let commons = lua.create_table().unwrap();
    let intrinsics = lua.create_table().unwrap();
    let constant: mlua::Function = lua
        .load("return function(v) return function() return v end end")
        .eval()
        .unwrap();
    let dot: mlua::Function = lua
        .load("return function(a, b) return a.x * b.x + a.y * b.y end")
        .eval()
        .unwrap();
    let clicked: mlua::Function = lua
        .load("return function(t) return function(button) return t.pos.x + button end end")
        .eval()
        .unwrap();
    let never: mlua::Function = lua.load("return function() return false end").eval().unwrap();
    intrinsics.set("constant", constant).unwrap();
    intrinsics.set("dot", dot).unwrap();
    intrinsics.set("clicked", clicked).unwrap();
    intrinsics.set("collides", never.clone()).unwrap();
    intrinsics.set("play", never.clone()).unwrap();
    intrinsics.set("dimensions", never).unwrap();
    let requests: mlua::Function = lua
        .load("return function(id) return { owner = function() return id end } end")
        .eval()
        .unwrap();
    intrinsics.set("requests", requests).unwrap();
    let double: mlua::Function = lua.load("return function(n) return 2 * n end").eval().unwrap();
    commons.set("double", double).unwrap();
    let raise: mlua::Function = lua.globals().get("error").unwrap();
    commons.set("error", raise).unwrap();
    Bindings { commons, intrinsics }
}

fn quiet(_: &ColliderRegistry) {}

fn globals() -> FrameGlobals {
    FrameGlobals {
        window_width: Scalar::from_bits(800.0f64.to_bits()),
        window_height: Scalar::from_bits(600.0f64.to_bits()),
        mouse_pos: Vec2::new(11, 22),
    }
}

fn engine_for(source: &str) -> Engine {
    let lua = mlua::Lua::new();
    let b = bindings(&lua);
    let env = lua.create_table().unwrap();
    let print: mlua::Function = lua.globals().get("print").unwrap();
    env.set("record", print).unwrap();
    Engine::load(source.to_string(), lua, env, b).unwrap()
}

fn rect(ids: &mut IdCounter) -> RectMesh {
    RectMesh::new(Vec2::new(1, 2), Vec2::new(3, 4), Color::from_rgb(5, 6, 7), ids)
}

const RECT: &str = "{ kind = function() return 'RectMesh' end, base = { children = {} }, \
    transform = { pos = { x = 1, y = 2 }, size = { x = 3, y = 4 }, scale = 1 }, \
    color = { r = 9, g = 8, b = 7, a = 6 } }";

#[test]
fn load_takes_the_background_from_the_script() {
    let engine = engine_for("color = { r = 1, g = 2, b = 3, a = 4 }");
    assert_eq!(engine.bg_color, Color::from_rgba(1, 2, 3, 4));
    assert_eq!(engine.children.len(), 0);
}

#[test]
fn load_without_a_colour_is_transparent_black() {
    assert_eq!(engine_for("x = 1").bg_color, Color::from_rgba(0, 0, 0, 0));
    assert_eq!(engine_for("color = { r = 300 }").bg_color, Color::from_rgba(0, 0, 0, 0));
    assert_eq!(background(&Variant::Nil), Color::from_rgba(0, 0, 0, 0));
    assert_eq!(background(&Color::from_rgb(1, 1, 1).as_lua()), Color::from_rgb(1, 1, 1));
}

#[test]
fn load_fails_on_a_script_that_does_not_compile() {
    let lua = mlua::Lua::new();
    let b = bindings(&lua);
    let env = lua.create_table().unwrap();
    let r = Engine::load("color = ".to_string(), lua, env, b);
    assert!(matches!(r, Err(EngineError::ScriptCompile)));
}

#[test]
fn load_fails_on_a_script_that_raises() {
    let lua = mlua::Lua::new();
    let b = bindings(&lua);
    let env = lua.create_table().unwrap();
    let r = Engine::load("local t = nil; t.x = 1".to_string(), lua, env, b);
    assert!(matches!(r, Err(EngineError::ScriptRuntime)));
}

#[test]
fn a_field_set_in_setup_is_in_the_snapshot_after_the_setup_phase() {
    let mut engine = engine_for("");
    let mut ids = IdCounter::new();
    let mut mesh = rect(&mut ids);
    let source = "function Setup() this.color.r = 42 end".to_string();
    let added = engine.add_script_to_node(&mut mesh, "s.lua".to_string(), source, &globals());
    assert_eq!(added, Ok(()));
    assert_eq!(mesh.base.scripts.current_state(), ManagerState::Pending);
    engine.children.add_child("mesh".to_string(), Entity::RectMesh(mesh));
    let notices = engine.setup_phase(&globals(), &mut ids, &mut ColliderRegistry::new(), &quiet).unwrap();
    assert_eq!(notices.len(), 1);
    assert_eq!(notices[0].error, None);
    assert_eq!(notices[0].hook, "Setup");
    let held = engine.children.child("mesh").unwrap();
    assert_eq!(held.as_lua().part("color").integer_at("r"), Some(42));
    assert_eq!(held.as_lua().part("color").integer_at("g"), Some(6));
    assert_eq!(held.base().scripts.current_state(), ManagerState::Loaded);
    assert_eq!(held.id(), 0);
}

#[test]
fn the_global_hooks_are_called() {
    let mut engine = engine_for("calls = 0; function Setup() calls = calls + 1 end; \
        function Loop(dt) calls = calls + dt end");
    let mut ids = IdCounter::new();
    assert_eq!(engine.setup_phase(&globals(), &mut ids, &mut ColliderRegistry::new(), &quiet).unwrap().len(), 0);
    let calls: i64 = engine.environment.get("calls").unwrap();
    assert_eq!(calls, 1);
    let dt = Scalar::from_bits(0.5f64.to_bits());
    assert_eq!(engine.update_phase(dt, &globals(), &mut ids, &mut ColliderRegistry::new(), &quiet).unwrap().len(), 0);
    let calls: mlua::Number = engine.environment.get("calls").unwrap();
    assert_eq!(calls.to_bits(), 1.5f64.to_bits());
    let width: mlua::Number = engine.environment.get("window_width").unwrap();
    assert_eq!(width.to_bits(), 800.0f64.to_bits());
}

#[test]
fn a_failing_global_hook_fails_the_phase() {
    let mut engine = engine_for("function Setup() local t = nil; t.x = 1 end");
    let mut ids = IdCounter::new();
    let r = engine.setup_phase(&globals(), &mut ids, &mut ColliderRegistry::new(), &quiet);
    let failure = r.unwrap_err();
    assert_eq!(failure.error, EngineError::ScriptRuntime);
}

#[test]
fn the_update_phase_runs_loop_and_merges() {
    let mut engine = engine_for("function Setup() end; function Loop() end");
    let mut ids = IdCounter::new();
    let mut mesh = rect(&mut ids);
    let source = "function Loop(dt) this.transform.pos.x = this.transform.pos.x + 10 end";
    let added = engine.add_script_to_node(&mut mesh, "s.lua".to_string(), source.to_string(), &globals());
    assert_eq!(added, Ok(()));
    engine.children.add_child("mesh".to_string(), Entity::RectMesh(mesh));
    let notices = engine.setup_phase(&globals(), &mut ids, &mut ColliderRegistry::new(), &quiet).unwrap();
    assert_eq!(notices.len(), 1);
    assert_eq!(notices[0].error, Some(EngineError::ScriptRuntime));
    assert_eq!(notices[0].id, Some(0));
    assert_eq!(notices[0].kind, Some(Kind::RectMesh));
    assert_eq!(notices[0].script, "s.lua");
    for frame in 1..4 {
        let notices = engine.update_phase(Scalar::one(), &globals(), &mut ids, &mut ColliderRegistry::new(), &quiet).unwrap();
        assert!(notices.is_empty());
        match engine.children.child("mesh").unwrap() {
            Entity::RectMesh(r) => assert_eq!(r.transform.pos, Vec2::new(1 + 10 * frame, 2)),
            _ => panic!("not a rectangle"),
        }
    }
}

#[test]
fn a_rejected_merge_is_noted_and_changes_nothing() {
    let mut engine = engine_for("function Setup() end; function Loop() end");
    let mut ids = IdCounter::new();
    let mut mesh = rect(&mut ids);
    let source = "function Loop(dt) this.color = 'red' end";
    let added = engine.add_script_to_node(&mut mesh, "s.lua".to_string(), source.to_string(), &globals());
    assert_eq!(added, Ok(()));
    let mut registry = ColliderRegistry::new();
    engine.children.add_child("mesh".to_string(), Entity::RectMesh(mesh));
    engine.setup_phase(&globals(), &mut ids, &mut ColliderRegistry::new(), &quiet).unwrap();
    let notices = engine.update_phase(Scalar::one(), &globals(), &mut ids, &mut ColliderRegistry::new(), &quiet).unwrap();
    assert_eq!(notices.len(), 1);
    assert_eq!(notices[0].error, Some(EngineError::Serialization));
    assert_eq!(notices[0].hook, "Loop");
    match engine.children.child("mesh").unwrap() {
        Entity::RectMesh(r) => assert_eq!(r.color, Color::from_rgb(5, 6, 7)),
        _ => panic!("not a rectangle"),
    }
    engine.sync_colliders(&mut registry);
    assert!(registry.records.is_empty());
}

#[test]
fn scripts_of_children_run_too() {
    let mut engine = engine_for("function Setup() end; function Loop() end");
    let mut ids = IdCounter::new();
    let mut parent = Node::new(&mut ids);
    let mut child = rect(&mut ids);
    let source = "function Setup() this.color.g = 99 end";
    let added = engine.add_script_to_node(&mut child, "c.lua".to_string(), source.to_string(), &globals());
    assert_eq!(added, Ok(()));
    parent.children.add_child("child".to_string(), Entity::RectMesh(child));
    engine.children.add_child("parent".to_string(), Entity::Node(parent));
    let notices = engine.setup_phase(&globals(), &mut ids, &mut ColliderRegistry::new(), &quiet).unwrap();
    assert!(notices.is_empty());
    let parent = engine.children.child("parent").unwrap();
    match parent.base().children.child("child").unwrap() {
        Entity::RectMesh(r) => assert_eq!(r.color, Color::from_rgb(5, 99, 7)),
        _ => panic!("not a rectangle"),
    }
}

#[test]
fn a_script_that_does_not_load_fails_the_setup_phase() {
    let mut engine = engine_for("function Setup() end");
    let mut ids = IdCounter::new();
    let mut mesh = rect(&mut ids);
    let added = engine.add_script_to_node(&mut mesh, "s.lua".to_string(), "function(".to_string(), &globals());
    assert_eq!(added, Err(EngineError::ScriptCompile));
    let added =
        engine.add_script_to_node(&mut mesh, "s.lua".to_string(), "error('no')".to_string(), &globals());
    assert_eq!(added, Ok(()));
    engine.children.add_child("mesh".to_string(), Entity::RectMesh(mesh));
    let r = engine.setup_phase(&globals(), &mut ids, &mut ColliderRegistry::new(), &quiet);
    let failure = r.unwrap_err();
    assert_eq!(failure.error, EngineError::ScriptRuntime);
    assert!(engine.children.has_child("mesh"));
}

#[test]
fn the_root_description_makes_entities() {
    let source = format!("function Setup() end; function Loop() end; root = {{ box = {} }}", RECT);
    let mut engine = engine_for(&source);
    let mut ids = IdCounter { next: 30 };
    let notices = engine.setup_phase(&globals(), &mut ids, &mut ColliderRegistry::new(), &quiet).unwrap();
    assert!(notices.is_empty());
    assert_eq!(engine.children.len(), 1);
    match engine.children.child("box").unwrap() {
        Entity::RectMesh(r) => {
            assert_eq!(r.base.id, 30);
            assert_eq!(r.transform, Transform::new(Vec2::new(1, 2), Vec2::new(3, 4)));
            assert_eq!(r.color, Color::from_rgba(9, 8, 7, 6));
        }
        _ => panic!("not a rectangle"),
    }
    assert_eq!(ids.next, 31);
    let again = engine.update_phase(Scalar::one(), &globals(), &mut ids, &mut ColliderRegistry::new(), &quiet).unwrap();
    assert!(again.is_empty());
    assert_eq!(engine.children.len(), 1);
    assert_eq!(engine.children.child("box").unwrap().id(), 30);
    assert_eq!(ids.next, 31);
}

#[test]
fn a_changed_root_description_changes_the_entity() {
    let source = format!(
        "function Setup() end; function Loop() root.box.color.r = root.box.color.r + 1 end; \
         root = {{ box = {} }}",
        RECT
    );
    let mut engine = engine_for(&source);
    let mut ids = IdCounter::new();
    engine.setup_phase(&globals(), &mut ids, &mut ColliderRegistry::new(), &quiet).unwrap();
    engine.update_phase(Scalar::one(), &globals(), &mut ids, &mut ColliderRegistry::new(), &quiet).unwrap();
    engine.update_phase(Scalar::one(), &globals(), &mut ids, &mut ColliderRegistry::new(), &quiet).unwrap();
    match engine.children.child("box").unwrap() {
        Entity::RectMesh(r) => assert_eq!(r.color, Color::from_rgba(11, 8, 7, 6)),
        _ => panic!("not a rectangle"),
    }
}

#[test]
fn an_unknown_kind_in_the_root_description_is_fatal() {
    let source = "function Setup() end; root = { x = { kind = function() return 'Dragon' end } }";
    let mut engine = engine_for(source);
    let mut ids = IdCounter::new();
    let r = engine.setup_phase(&globals(), &mut ids, &mut ColliderRegistry::new(), &quiet);
    let failure = r.unwrap_err();
    assert_eq!((failure.error, failure.stage), (EngineError::UnknownKind, Stage::Root));
    let nameless = "function Setup() end; root = { x = { color = 1 } }";
    let mut engine = engine_for(nameless);
    let r = engine.setup_phase(&globals(), &mut ids, &mut ColliderRegistry::new(), &quiet);
    let failure = r.unwrap_err();
    assert_eq!((failure.error, failure.stage), (EngineError::UnknownKind, Stage::Root));
}

#[test]
fn a_root_description_that_is_rejected_is_noted() {
    let source = "function Setup() end; root = { x = { kind = function() return 'Camera' end } }";
    let mut engine = engine_for(source);
    let mut ids = IdCounter::new();
    let notices = engine.setup_phase(&globals(), &mut ids, &mut ColliderRegistry::new(), &quiet).unwrap();
    assert_eq!(notices.len(), 1);
    assert_eq!(notices[0].error, Some(EngineError::Serialization));
    assert_eq!(engine.children.len(), 0);
}

#[test]
fn entities_of_the_host_stay_beside_those_of_the_root_description() {
    let source = format!("function Setup() end; root = {{ box = {} }}", RECT);
    let mut engine = engine_for(&source);
    let mut ids = IdCounter::new();
    let mesh = rect(&mut ids);
    engine.children.add_child("mine".to_string(), Entity::RectMesh(mesh));
    engine.setup_phase(&globals(), &mut ids, &mut ColliderRegistry::new(), &quiet).unwrap();
    assert_eq!(engine.children.len(), 2);
    assert!(engine.children.has_child("mine"));
    assert!(engine.children.has_child("box"));
}

#[test]
fn place_entity_merges_or_makes() {
    let mut ids = IdCounter::new();
    let mut children = ChildrenContainer::new();
    let pattern = rect(&mut ids).as_lua();
    assert_eq!(place_entity(&mut children, "a".to_string(), "RectMesh", &pattern, &mut ids), Ok(()));
    assert_eq!(children.len(), 1);
    assert_eq!(children.child("a").unwrap().id(), 1);
    assert_eq!(ids.next, 2);
    let other = RectMesh::new(Vec2::zero(), Vec2::zero(), Color::from_rgb(50, 50, 50), &mut ids).as_lua();
    assert_eq!(place_entity(&mut children, "a".to_string(), "RectMesh", &other, &mut ids), Ok(()));
    assert_eq!(children.len(), 1);
    assert_eq!(children.child("a").unwrap().id(), 1);
    assert_eq!(ids.next, 3);
    match children.child("a").unwrap() {
        Entity::RectMesh(r) => assert_eq!(r.color, Color::from_rgb(50, 50, 50)),
        _ => panic!("not a rectangle"),
    }
    let node = Node::new(&mut ids).as_lua();
    assert_eq!(place_entity(&mut children, "a".to_string(), "Node", &node, &mut ids), Ok(()));
    assert_eq!(children.child("a").unwrap().kind(), Kind::Node);
    assert_eq!(
        place_entity(&mut children, "b".to_string(), "Dragon", &node, &mut ids),
        Err(EngineError::UnknownKind)
    );
    assert_eq!(
        place_entity(&mut children, "b".to_string(), "Camera", &node, &mut ids),
        Err(EngineError::Serialization)
    );
    assert_eq!(children.len(), 1);
}

#[test]
fn merge_back_notes_failures_and_rejections() {
    let mut ids = IdCounter { next: 4 };
    let mut entity = Entity::RectMesh(rect(&mut ids));
    let mut notices = Vec::new();
    let mut registry = ColliderRegistry::new();
    let mut state = entity.as_lua();
    if let Variant::Table(entries) = &mut state {
        entries[2].1 = Color::from_rgb(70, 70, 70).as_lua();
    }
    let report = HookReport {
        state: Some(state),
        failures: vec![HookFailure {
            script: "a.lua".to_string(),
            error: EngineError::ScriptRuntime,
            message: "m".to_string(),
        }],
    };
    merge_back(&mut entity, &report, "Loop", &mut registry, &quiet, &mut notices);
    assert_eq!(notices.len(), 1);
    assert_eq!(notices[0].id, Some(4));
    assert_eq!(notices[0].kind, Some(Kind::RectMesh));
    assert_eq!(notices[0].script, "a.lua");
    assert_eq!(notices[0].hook, "Loop");
    assert_eq!(notices[0].message, "m");
    match &entity {
        Entity::RectMesh(r) => assert_eq!(r.color, Color::from_rgb(70, 70, 70)),
        _ => panic!("not a rectangle"),
    }
    let bad = HookReport { state: Some(Variant::Integer(1)), failures: vec![] };
    merge_back(&mut entity, &bad, "Loop", &mut registry, &quiet, &mut notices);
    assert_eq!(notices.len(), 2);
    assert_eq!(notices[1].error, Some(EngineError::Serialization));
    let nothing = HookReport { state: None, failures: vec![] };
    merge_back(&mut entity, &nothing, "Loop", &mut registry, &quiet, &mut notices);
    assert_eq!(notices.len(), 2);
}

#[test]
fn colliders_are_synchronised_with_the_registry() {
    let mut engine = engine_for("function Setup() end; function Loop() end");
    let mut ids = IdCounter::new();
    let mut mover = Collider::new(Vec2::new(5, 5), Vec2::new(10, 10), "a".to_string(), &mut ids);
    let wall = Collider::new(Vec2::new(0, 0), Vec2::new(10, 10), "a".to_string(), &mut ids);
    let source = "function Loop() this.transform.pos.x = 100; this.transform.pos.y = 100 end";
    let added = engine.add_script_to_node(&mut mover, "m.lua".to_string(), source.to_string(), &globals());
    assert_eq!(added, Ok(()));
    engine.children.add_child("mover".to_string(), Entity::Collider(mover));
    engine.children.add_child("wall".to_string(), Entity::Collider(wall));
    let mut registry = ColliderRegistry::new();
    engine.setup_phase(&globals(), &mut ids, &mut registry, &quiet).unwrap();
    let wall_hits = |engine: &Engine, registry: &ColliderRegistry| match engine.children.child("wall").unwrap() {
        Entity::Collider(c) => c.collides(registry, None),
        _ => panic!("not a collider"),
    };
    assert!(wall_hits(&engine, &registry));
    engine.update_phase(Scalar::one(), &globals(), &mut ids, &mut registry, &quiet).unwrap();
    assert!(!wall_hits(&engine, &registry));
    assert_eq!(registry.records.len(), 2);
}

#[test]
fn the_window_is_what_the_script_asks_for() {
    let config = WindowConfig::load(
        "Title = 'Game'; Size = { x = 800, y = 600 }; Fullscreen = true; Resizable = false".to_string(),
    )
    .unwrap();
    assert_eq!(config.title, "Game");
    assert_eq!(config.size, Vec2::new(800, 600));
    assert!(config.fullscreen);
    assert!(!config.resizable);
}

#[test]
fn the_window_has_defaults() {
    let config = WindowConfig::load("x = 1".to_string()).unwrap();
    assert_eq!(config.title, "Default Window");
    assert_eq!(config.size, Vec2::new(500, 500));
    assert!(!config.fullscreen);
    assert!(!config.resizable);
    let same = WindowConfig::from_globals(
        None,
        &Variant::text("big"),
        Some(Variant::Nil),
        Some(Variant::Boolean(false)),
    );
    assert_eq!(same, config);
    let unread = WindowConfig::from_globals(None, &Variant::Nil, None, None);
    assert!(!unread.fullscreen);
    assert!(unread.resizable);
    let any = WindowConfig::from_globals(
        Some("7".to_string()),
        &Vec2::new(3, 4).as_lua(),
        Some(Variant::Integer(0)),
        Some(Variant::text("")),
    );
    assert_eq!(any.title, "7");
    assert_eq!(any.size, Vec2::new(3, 4));
    assert!(any.fullscreen);
    assert!(any.resizable);
}

#[test]
fn the_window_takes_values_as_the_runtime_does() {
    let config =
        WindowConfig::load("Title = 42; Fullscreen = 'yes'; Resizable = 0".to_string()).unwrap();
    assert_eq!(config.title, "42");
    assert!(config.fullscreen);
    assert!(config.resizable);
    let config = WindowConfig::load("Title = {}; Resizable = false".to_string()).unwrap();
    assert_eq!(config.title, "Default Window");
    assert!(!config.resizable);
}

#[test]
fn a_window_script_that_does_not_compile_fails() {
    assert_eq!(WindowConfig::load("Title = ".to_string()), Err(EngineError::ScriptCompile));
    assert_eq!(
        WindowConfig::load("local t = nil; t.x = 1".to_string()),
        Err(EngineError::ScriptRuntime)
    );
}

#[test]
fn a_request_reaches_the_entity_with_the_identity() {
    let mut engine = engine_for("function Setup() end; function Loop() end");
    let mut ids = IdCounter::new();
    let mut parent = Node::new(&mut ids);
    let inner = Node::new(&mut ids);
    parent.children.add_child("inner".to_string(), Entity::Node(inner));
    engine.children.add_child("parent".to_string(), Entity::Node(parent));
    let pattern = rect(&mut ids).as_lua();
    let add = Command {
        target: 1,
        request: Request::Add {
            name: "box".to_string(),
            kind_name: "RectMesh".to_string(),
            description: pattern,
        },
    };
    assert_eq!(engine.apply_command(&add, &globals(), &mut ids), Ok(true));
    let inner = engine.children.child("parent").unwrap().base().children.child("inner").unwrap();
    assert_eq!(inner.base().children.len(), 1);
    assert_eq!(inner.base().children.child("box").unwrap().kind(), Kind::RectMesh);
    assert!(engine.children.child("parent").unwrap().has_id(3));
    assert!(!engine.children.child("parent").unwrap().has_id(2));

    let remove = Command { target: 1, request: Request::Remove { name: "box".to_string() } };
    assert_eq!(engine.apply_command(&remove, &globals(), &mut ids), Ok(true));
    let inner = engine.children.child("parent").unwrap().base().children.child("inner").unwrap();
    assert_eq!(inner.base().children.len(), 0);

    let clear = Command { target: 0, request: Request::Clear };
    assert_eq!(engine.apply_command(&clear, &globals(), &mut ids), Ok(true));
    assert_eq!(engine.children.child("parent").unwrap().base().children.len(), 0);
    assert_eq!(engine.children.len(), 1);

    let nobody = Command { target: 99, request: Request::Clear };
    assert_eq!(engine.apply_command(&nobody, &globals(), &mut ids), Ok(false));

    let dragon = Command {
        target: 0,
        request: Request::Add {
            name: "d".to_string(),
            kind_name: "Dragon".to_string(),
            description: Variant::Nil,
        },
    };
    assert_eq!(engine.apply_command(&dragon, &globals(), &mut ids), Err(EngineError::UnknownKind));
}

#[test]
fn an_embedded_script_runs_with_the_next_hook() {
    let mut engine = engine_for("function Setup() end; function Loop() end");
    let mut ids = IdCounter::new();
    let mesh = rect(&mut ids);
    engine.children.add_child("mesh".to_string(), Entity::RectMesh(mesh));
    engine.setup_phase(&globals(), &mut ids, &mut ColliderRegistry::new(), &quiet).unwrap();
    let embed = Command {
        target: 0,
        request: Request::Embed {
            filename: "late.lua".to_string(),
            source: "function Loop() this.color.r = 77 end".to_string(),
        },
    };
    assert_eq!(engine.apply_command(&embed, &globals(), &mut ids), Ok(true));
    engine.update_phase(Scalar::one(), &globals(), &mut ids, &mut ColliderRegistry::new(), &quiet).unwrap();
    match engine.children.child("mesh").unwrap() {
        Entity::RectMesh(r) => assert_eq!(r.color, Color::from_rgb(77, 6, 7)),
        _ => panic!("not a rectangle"),
    }
    let broken = Command {
        target: 0,
        request: Request::Embed { filename: "bad.lua".to_string(), source: "function(".to_string() },
    };
    assert_eq!(engine.apply_command(&broken, &globals(), &mut ids), Err(EngineError::ScriptCompile));
}

#[test]
fn the_root_description_needs_identities() {
    let source = format!("function Setup() end; root = {{ box = {} }}", RECT);
    let mut engine = engine_for(&source);
    let mut ids = IdCounter { next: u64::MAX };
    let r = engine.setup_phase(&globals(), &mut ids, &mut ColliderRegistry::new(), &quiet);
    let failure = r.unwrap_err();
    assert_eq!((failure.error, failure.stage), (EngineError::IdentitiesExhausted, Stage::Root));
    assert_eq!(engine.children.len(), 0);
    let mut enough = IdCounter { next: u64::MAX - 1 };
    assert!(engine.setup_phase(&globals(), &mut enough, &mut ColliderRegistry::new(), &quiet).is_ok());
    assert_eq!(engine.children.child("box").unwrap().id(), u64::MAX - 1);
    assert_eq!(enough.next, u64::MAX);
    assert!(engine.setup_phase(&globals(), &mut enough, &mut ColliderRegistry::new(), &quiet).is_ok());
    assert_eq!(placing_cost(&engine.children, "box", "RectMesh"), 0);
    assert_eq!(placing_cost(&engine.children, "box", "TextButton"), 3);
    assert_eq!(placing_cost(&engine.children, "other", "RectMesh"), 1);
    assert_eq!(placing_cost(&engine.children, "other", "Nothing"), 0);
}

#[test]
fn settle_ends_the_run_only_for_an_unknown_kind() {
    let mut notices = Vec::new();
    assert_eq!(settle(Ok(()), &mut notices), Ok(()));
    assert!(notices.is_empty());
    assert_eq!(settle(Err(EngineError::UnknownKind), &mut notices), Err(EngineError::UnknownKind));
    assert!(notices.is_empty());
    assert_eq!(settle(Err(EngineError::Serialization), &mut notices), Ok(()));
    assert_eq!(notices.len(), 1);
    assert_eq!(notices[0].error, Some(EngineError::Serialization));
    assert_eq!(notices[0].hook, "root");
    assert_eq!(notices[0].id, None);
    assert_eq!(notices[0].kind, None);
    assert_eq!(settle(Err(EngineError::StructuralViolation), &mut notices), Ok(()));
    assert_eq!(notices.len(), 2);
    assert_eq!(notices[1].error, Some(EngineError::StructuralViolation));
}

#[test]
fn place_described_by_what_was_read() {
    let mut ids = IdCounter { next: 5 };
    let mut children = ChildrenContainer::new();
    let mut notices = Vec::new();
    let pattern = rect(&mut ids).as_lua();

    let nameless = place_described(
        &mut children,
        None,
        Some("RectMesh".to_string()),
        &pattern,
        &mut ids,
        &mut notices,
    );
    assert_eq!(nameless, Ok(()));
    assert_eq!(children.len(), 0);
    assert_eq!(ids.next, 6);
    assert_eq!(notices.len(), 1);
    assert_eq!(notices[0].error, Some(EngineError::Serialization));

    let kindless =
        place_described(&mut children, Some("a".to_string()), None, &pattern, &mut ids, &mut notices);
    assert_eq!(kindless, Err(EngineError::UnknownKind));
    assert_eq!((children.len(), ids.next, notices.len()), (0, 6, 1));

    let unknown = place_described(
        &mut children,
        Some("a".to_string()),
        Some("Dragon".to_string()),
        &pattern,
        &mut ids,
        &mut notices,
    );
    assert_eq!(unknown, Err(EngineError::UnknownKind));
    assert_eq!((children.len(), ids.next, notices.len()), (0, 6, 1));

    let mut few = IdCounter { next: u64::MAX - 2 };
    let exhausted = place_described(
        &mut children,
        Some("a".to_string()),
        Some("TextButton".to_string()),
        &pattern,
        &mut few,
        &mut notices,
    );
    assert_eq!(exhausted, Err(EngineError::IdentitiesExhausted));
    assert_eq!((children.len(), few.next, notices.len()), (0, u64::MAX - 2, 1));
    let mut none = IdCounter { next: u64::MAX };
    let exhausted = place_described(
        &mut children,
        Some("a".to_string()),
        Some("RectMesh".to_string()),
        &pattern,
        &mut none,
        &mut notices,
    );
    assert_eq!(exhausted, Err(EngineError::IdentitiesExhausted));
    assert_eq!((children.len(), none.next, notices.len()), (0, u64::MAX, 1));

    let rejected = place_described(
        &mut children,
        Some("a".to_string()),
        Some("Camera".to_string()),
        &pattern,
        &mut ids,
        &mut notices,
    );
    assert_eq!(rejected, Ok(()));
    assert_eq!((children.len(), ids.next, notices.len()), (0, 7, 2));
    assert_eq!(notices[1].error, Some(EngineError::Serialization));

    let placed = place_described(
        &mut children,
        Some("a".to_string()),
        Some("RectMesh".to_string()),
        &pattern,
        &mut ids,
        &mut notices,
    );
    assert_eq!(placed, Ok(()));
    assert_eq!((children.len(), ids.next, notices.len()), (1, 8, 2));
    match children.child("a").unwrap() {
        Entity::RectMesh(r) => {
            assert_eq!(r.base.id, 7);
            assert_eq!(r.color, Color::from_rgb(5, 6, 7));
        }
        _ => panic!("not a rectangle"),
    }
}

#[test]
fn a_phase_keeps_what_the_engine_holds() {
    let source = format!("function Setup() end; function Loop() end; root = {{ box = {} }}", RECT);
    let mut engine = engine_for(&source);
    let mut ids = IdCounter { next: 9 };
    let mut parent = Node::new(&mut ids);
    parent.children.add_child("kept".to_string(), Entity::RectMesh(rect(&mut ids)));
    engine.children.add_child("parent".to_string(), Entity::Node(parent));
    let environment = engine.environment.clone();
    engine.setup_phase(&globals(), &mut ids, &mut ColliderRegistry::new(), &quiet).unwrap();
    assert!(ids.next >= 11);
    let after_setup = ids.next;
    engine.update_phase(Scalar::one(), &globals(), &mut ids, &mut ColliderRegistry::new(), &quiet).unwrap();
    assert!(ids.next >= after_setup);
    assert_eq!(engine.environment, environment);
    let parent = engine.children.child("parent").unwrap();
    assert_eq!(parent.id(), 9);
    assert!(parent.base().children.has_child("kept"));
}

#[test]
fn a_missing_global_hook_is_one_warning() {
    let mut engine = engine_for("x = 1");
    let mut ids = IdCounter::new();
    let notices = engine.setup_phase(&globals(), &mut ids, &mut ColliderRegistry::new(), &quiet).unwrap();
    assert_eq!(notices.len(), 1);
    assert_eq!(notices[0].error, None);
    assert_eq!(notices[0].hook, "Setup");
    assert_eq!(notices[0].id, None);
    let notices = engine.update_phase(Scalar::one(), &globals(), &mut ids, &mut ColliderRegistry::new(), &quiet).unwrap();
    assert_eq!(notices.len(), 1);
    assert_eq!(notices[0].hook, "Loop");
}

#[test]
fn an_update_without_scripts_is_the_native_update() {
    let mut engine = engine_for("function Loop() end");
    let mut ids = IdCounter::new();
    let mut button = TextButton::new(
        "go",
        Vec2::new(1, 2),
        12,
        Color::from_rgb(1, 2, 3),
        Vec2::new(30, 10),
        &mut ids,
    );
    button.text.set_measured(Vec2::new(44, 17));
    let area_pos = button.area.transform.pos;
    let mut parent = Node::new(&mut ids);
    let parent_id = parent.id;
    parent.children.add_child("button".to_string(), Entity::TextButton(button));
    parent.children.add_child("box".to_string(), Entity::RectMesh(rect(&mut ids)));
    engine.children.add_child("parent".to_string(), Entity::Node(parent));
    let notices = engine.update_phase(Scalar::one(), &globals(), &mut ids, &mut ColliderRegistry::new(), &quiet).unwrap();
    assert!(notices.is_empty());
    let parent = engine.children.child("parent").unwrap();
    assert_eq!(parent.id(), parent_id);
    assert_eq!(parent.base().scripts.current_state(), ManagerState::Empty);
    assert_eq!(parent.base().children.len(), 2);
    match parent.base().children.child("button").unwrap() {
        Entity::TextButton(b) => {
            assert_eq!(b.area.transform.size, Vec2::new(44, 17));
            assert_eq!(b.area.transform.pos, area_pos);
            assert_eq!(b.text.measured, Vec2::new(44, 17));
            assert_eq!(b.text.text, "go");
        },
        _ => panic!("not a text button"),
    }
    assert_eq!(parent.base().children.child("box").unwrap().kind(), Kind::RectMesh);
}

#[test]
fn a_setup_without_scripts_notes_nothing() {
    let mut engine = engine_for("function Setup() end");
    let mut ids = IdCounter::new();
    let mut parent = Node::new(&mut ids);
    parent.children.add_child("box".to_string(), Entity::RectMesh(rect(&mut ids)));
    engine.children.add_child("parent".to_string(), Entity::Node(parent));
    let notices = engine.setup_phase(&globals(), &mut ids, &mut ColliderRegistry::new(), &quiet).unwrap();
    assert!(notices.is_empty());
    let parent = engine.children.child("parent").unwrap();
    assert_eq!(parent.base().scripts.current_state(), ManagerState::Loaded);
    let inner = parent.base().children.child("box").unwrap();
    assert_eq!(inner.base().scripts.current_state(), ManagerState::Loaded);
}

#[test]
fn every_notice_of_a_phase_is_for_its_hook_or_for_the_root() {
    let source = "root = { x = { kind = function() return 'Camera' end } }";
    let mut engine = engine_for(source);
    let mut ids = IdCounter::new();
    let mut mesh = rect(&mut ids);
    let script = "function Loop(dt) error('no') end";
    let added =
        engine.add_script_to_node(&mut mesh, "s.lua".to_string(), script.to_string(), &globals());
    assert_eq!(added, Ok(()));
    engine.children.add_child("mesh".to_string(), Entity::RectMesh(mesh));
    let notices = engine.setup_phase(&globals(), &mut ids, &mut ColliderRegistry::new(), &quiet).unwrap();
    assert_eq!(notices.len(), 3);
    assert_eq!(notices[0].hook, "Setup");
    assert_eq!(notices[0].id, None);
    assert_eq!(notices[1].hook, "Setup");
    assert_eq!(notices[1].script, "s.lua");
    assert_eq!(notices[1].kind, Some(Kind::RectMesh));
    assert_eq!(notices[2].hook, "root");
    assert_eq!(notices[2].error, Some(EngineError::Serialization));
    let notices = engine.update_phase(Scalar::one(), &globals(), &mut ids, &mut ColliderRegistry::new(), &quiet).unwrap();
    assert_eq!(notices.len(), 3);
    assert_eq!(notices[0].hook, "Loop");
    assert_eq!(notices[1].hook, "Loop");
    assert_eq!(notices[1].error, Some(EngineError::ScriptRuntime));
    assert_eq!(notices[2].hook, "root");
}

#[test]
fn a_merge_keeps_the_registry_in_step() {
    let mut ids = IdCounter::new();
    let first = Collider::new(Vec2::new(0, 0), Vec2::new(10, 10), "a".to_string(), &mut ids);
    let second = Collider::new(Vec2::new(5, 5), Vec2::new(10, 10), "a".to_string(), &mut ids);
    let mut registry = ColliderRegistry::new();
    first.register(&mut registry);
    second.register(&mut registry);
    assert!(first.collides(&registry, None));
    assert!(second.collides(&registry, None));
    assert_eq!(registry.answer(first.base.id, &first.as_lua(), None), Ok(true));

    let moved = Collider::new(Vec2::new(100, 100), Vec2::new(10, 10), "a".to_string(), &mut ids);
    let mut state = second.as_lua();
    if let Variant::Table(entries) = &mut state {
        for entry in entries.iter_mut() {
            if entry.0 == Variant::text("transform") {
                entry.1 = moved.transform.as_lua();
            }
        }
    }
    let mut entity = Entity::Collider(second);
    let mut notices = Vec::new();
    let report = HookReport { state: Some(state), failures: vec![] };
    merge_back(&mut entity, &report, "Loop", &mut registry, &quiet, &mut notices);
    assert!(notices.is_empty());
    let second = match &entity {
        Entity::Collider(c) => c,
        _ => panic!("not a collider"),
    };
    assert_eq!(second.transform.pos, Vec2::new(100, 100));
    assert_eq!(registry.records.len(), 2);
    assert_eq!(registry.answer(first.base.id, &first.as_lua(), None), Ok(false));
    assert_eq!(registry.answer(second.base.id, &second.as_lua(), None), Ok(false));
    assert!(!first.collides(&registry, None));
    assert!(!second.collides(&registry, None));
}

#[test]
fn a_missing_global_hook_is_noted_and_nothing_ends() {
    let mut notices = Vec::new();
    let found = Engine::found_hook(None, "Setup", &mut notices);
    assert!(found.is_none());
    assert_eq!(notices.len(), 1);
    assert_eq!(notices[0].hook, "Setup");
    assert_eq!(notices[0].error, None);
    assert_eq!(notices[0].id, None);
    let lua = mlua::Lua::new();
    let hook: mlua::Function = lua.load("return function() end").eval().unwrap();
    let found = Engine::found_hook(Some(hook.clone()), "Loop", &mut notices);
    assert_eq!(found, Some(hook));
    assert_eq!(notices.len(), 1);

    let mut engine = engine_for("x = 1");
    let mut ids = IdCounter::new();
    engine.children.add_child("mesh".to_string(), Entity::RectMesh(rect(&mut ids)));
    let notices = engine.setup_phase(&globals(), &mut ids, &mut ColliderRegistry::new(), &quiet).unwrap();
    assert_eq!(notices.len(), 1);
    let mesh = engine.children.child("mesh").unwrap();
    assert_eq!(mesh.base().scripts.current_state(), ManagerState::Loaded);
}

#[test]
fn a_request_takes_the_identities_of_what_it_adds() {
    let add = |kind: &str| Request::Add {
        name: "n".to_string(),
        kind_name: kind.to_string(),
        description: Variant::Nil,
    };
    assert_eq!(add("RectMesh").needs(), 1);
    assert_eq!(add("TextButton").needs(), 3);
    assert_eq!(add("SpriteButton").needs(), 3);
    assert_eq!(add("Nothing").needs(), 0);
    assert_eq!(Request::Remove { name: "n".to_string() }.needs(), 0);
    assert_eq!(Request::Clear.needs(), 0);
    assert_eq!(Request::Embed { filename: "f".to_string(), source: "s".to_string() }.needs(), 0);

    let mut engine = engine_for("x = 1");
    let mut ids = IdCounter { next: u64::MAX - 2 };
    let mut parent = Node::new(&mut ids);
    let target = parent.id;
    parent.children.add_child("old".to_string(), Entity::RectMesh(rect(&mut ids)));
    engine.children.add_child("parent".to_string(), Entity::Node(parent));
    assert_eq!(ids.next, u64::MAX);
    let clear = Command { target, request: Request::Clear };
    assert_eq!(engine.apply_command(&clear, &globals(), &mut ids), Ok(true));
    assert_eq!(engine.children.child("parent").unwrap().base().children.len(), 0);
    let missing = Command { target: 77, request: Request::Clear };
    assert_eq!(engine.apply_command(&missing, &globals(), &mut ids), Ok(false));
}

#[test]
fn a_phase_that_ends_early_says_where_and_keeps_its_notices() {
    let mut engine = engine_for("function Setup() error('no') end");
    let mut ids = IdCounter::new();
    let failure =
        engine.setup_phase(&globals(), &mut ids, &mut ColliderRegistry::new(), &quiet).unwrap_err();
    assert_eq!((failure.error, failure.stage), (EngineError::ScriptRuntime, Stage::GlobalHook));
    assert!(failure.notices.is_empty());

    let mut engine = engine_for("root = { x = { kind = function() return 'Dragon' end } }");
    let mut mesh = rect(&mut ids);
    let script = "function Loop(dt) error('no') end";
    let added =
        engine.add_script_to_node(&mut mesh, "s.lua".to_string(), script.to_string(), &globals());
    assert_eq!(added, Ok(()));
    engine.children.add_child("mesh".to_string(), Entity::RectMesh(mesh));
    let failure =
        engine.setup_phase(&globals(), &mut ids, &mut ColliderRegistry::new(), &quiet).unwrap_err();
    assert_eq!((failure.error, failure.stage), (EngineError::UnknownKind, Stage::Root));
    assert_eq!(failure.notices.len(), 2);
    assert_eq!(failure.notices[0].hook, "Setup");
    assert_eq!(failure.notices[0].id, None);
    assert_eq!(failure.notices[1].script, "s.lua");
    let failure = engine
        .update_phase(Scalar::one(), &globals(), &mut ids, &mut ColliderRegistry::new(), &quiet)
        .unwrap_err();
    assert_eq!((failure.error, failure.stage), (EngineError::UnknownKind, Stage::Root));
    assert_eq!(failure.notices.len(), 2);
    assert_eq!(failure.notices[1].error, Some(EngineError::ScriptRuntime));

    let mut engine = engine_for("x = 1");
    let mut mesh = rect(&mut ids);
    let added = engine.add_script_to_node(
        &mut mesh,
        "s.lua".to_string(),
        "error('at once')".to_string(),
        &globals(),
    );
    assert_eq!(added, Ok(()));
    engine.children.add_child("mesh".to_string(), Entity::RectMesh(mesh));
    let failure =
        engine.setup_phase(&globals(), &mut ids, &mut ColliderRegistry::new(), &quiet).unwrap_err();
    assert_eq!((failure.error, failure.stage), (EngineError::ScriptRuntime, Stage::Loading));
    assert_eq!(failure.notices.len(), 1);
}

#[test]
fn the_registry_is_published_after_every_merge() {
    let mut engine = engine_for("function Loop() end");
    let mut ids = IdCounter::new();
    let mut mover = Collider::new(Vec2::new(5, 5), Vec2::new(10, 10), "a".to_string(), &mut ids);
    let source = "function Loop() this.transform.pos.x = this.transform.pos.x + 1 end";
    let added =
        engine.add_script_to_node(&mut mover, "m.lua".to_string(), source.to_string(), &globals());
    assert_eq!(added, Ok(()));
    engine.children.add_child("mover".to_string(), Entity::Collider(mover));
    engine.children.add_child("box".to_string(), Entity::RectMesh(rect(&mut ids)));
    let seen: std::cell::RefCell<Vec<Vec<i32>>> = std::cell::RefCell::new(Vec::new());
    let publish = |known: &ColliderRegistry| {
        seen.borrow_mut().push(known.records.iter().map(|r| r.transform.pos.x).collect());
    };
    let mut registry = ColliderRegistry::new();
    engine.setup_phase(&globals(), &mut ids, &mut registry, &publish).unwrap();
    engine.update_phase(Scalar::one(), &globals(), &mut ids, &mut registry, &publish).unwrap();
    let seen = seen.into_inner();
    assert_eq!(seen, vec![vec![5], vec![5], vec![5], vec![6], vec![6], vec![6]]);
}
