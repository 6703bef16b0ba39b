use scene_core::color::Color;
use scene_core::entity::Downcastable;
use scene_core::entity::Entity;
use scene_core::error::EngineError;
use scene_core::image::Img;
use scene_core::kind::Kind;
use scene_core::luable::Luable;
use scene_core::nodelike::IdCounter;
use scene_core::nodelike::NodeLike;
use scene_core::nodes::button::SpriteButton;
use scene_core::nodes::button::TextButton;
use scene_core::nodes::camera::Camera;
use scene_core::nodes::clickable_area::ClickableArea;
use scene_core::nodes::collider::Collider;
use scene_core::nodes::node::Node;
use scene_core::nodes::rectmesh::RectMesh;
use scene_core::nodes::soundplayer::SoundPlayer;
use scene_core::nodes::sprite::Sprite;
use scene_core::nodes::text::Text;
use scene_core::scalar::Scalar;
use scene_core::script_manager::ManagerState;
use scene_core::transform::Transform;
use scene_core::variant::Intrinsic;
use scene_core::variant::Variant;
use scene_core::vec2::Vec2;

fn set(table: &mut Variant, key: &str, value: Variant) {
    match table {
        Variant::Table(entries) => {
            for entry in entries.iter_mut() {
                if entry.0 == Variant::text(key) {
                    entry.1 = value;
                    return;
                }
            }
            entries.push(Variant::entry(key, value));
        }
        _ => panic!("not a table"),
    }
}

fn at<'a>(table: &'a mut Variant, key: &str) -> &'a mut Variant {
    match table {
        Variant::Table(entries) => {
            for entry in entries.iter_mut() {
                if entry.0 == Variant::text(key) {
                    return &mut entry.1;
                }
            }
            panic!("no such key")
        }
        _ => panic!("not a table"),
    }
}

fn node_with_children(ids: &mut IdCounter) -> Node {
    let mut node = Node::new(ids);
    let a = RectMesh::new(Vec2::new(1, 1), Vec2::new(2, 2), Color::from_rgb(1, 1, 1), ids);
    let b = RectMesh::new(Vec2::new(3, 3), Vec2::new(4, 4), Color::from_rgb(2, 2, 2), ids);
    node.children.add_child("a".to_string(), Entity::RectMesh(a));
    node.children.add_child("b".to_string(), Entity::RectMesh(b));
    node
}

#[test]
fn a_new_node_has_nothing() {
    let mut ids = IdCounter { next: 5 };
    let node = Node::new(&mut ids);
    assert_eq!(node.id, 5);
    assert_eq!(node.children.len(), 0);
    assert_eq!(node.scripts.current_state(), ManagerState::Empty);
}

#[test]
fn node_snapshot_has_children_and_identity() {
    let mut ids = IdCounter { next: 5 };
    let node = node_with_children(&mut ids);
    let v = node.as_lua();
    assert_eq!(v.part("id"), &Variant::Function(Intrinsic::Id(5)));
    let children = v.part("children");
    assert!(children.is_table());
    assert_eq!(children.part("a").part("color").integer_at("r"), Some(1));
    assert_eq!(children.part("b").part("color").integer_at("r"), Some(2));
    assert_eq!(
        children.part("a").part("kind"),
        &Variant::Function(Intrinsic::Kind(Kind::RectMesh))
    );
}

#[test]
fn the_node_entity_carries_its_kind() {
    let mut ids = IdCounter::new();
    let entity = Entity::Node(Node::new(&mut ids));
    let v = entity.as_lua();
    assert_eq!(v.part("kind"), &Variant::Function(Intrinsic::Kind(Kind::Node)));
    assert!(v.part("children").is_table());
}

#[test]
fn merging_the_own_snapshot_changes_nothing() {
    let mut ids = IdCounter::new();
    let mut node = node_with_children(&mut ids);
    let before = node.as_lua();
    assert_eq!(node.from_lua(&before), Ok(()));
    assert_eq!(node.as_lua(), before);
}

#[test]
fn merging_changes_the_children_named() {
    let mut ids = IdCounter::new();
    let mut node = node_with_children(&mut ids);
    let mut v = node.as_lua();
    set(at(at(at(&mut v, "children"), "b"), "color"), "r", Variant::Integer(200));
    assert_eq!(node.from_lua(&v), Ok(()));
    match node.children.child("b").unwrap() {
        Entity::RectMesh(r) => assert_eq!(r.color, Color::from_rgb(200, 2, 2)),
        _ => panic!("not a rectangle"),
    }
    match node.children.child("a").unwrap() {
        Entity::RectMesh(r) => assert_eq!(r.color, Color::from_rgb(1, 1, 1)),
        _ => panic!("not a rectangle"),
    }
}

#[test]
fn merging_fewer_children_succeeds_and_keeps_the_rest() {
    let mut ids = IdCounter::new();
    let mut node = node_with_children(&mut ids);
    let mut v = node.as_lua();
    match at(&mut v, "children") {
        Variant::Table(entries) => {
            entries.remove(0);
        }
        _ => panic!("not a table"),
    }
    set(at(at(at(&mut v, "children"), "b"), "color"), "g", Variant::Integer(77));
    assert_eq!(node.from_lua(&v), Ok(()));
    assert_eq!(node.children.len(), 2);
    match node.children.child("a").unwrap() {
        Entity::RectMesh(r) => assert_eq!(r.color, Color::from_rgb(1, 1, 1)),
        _ => panic!("not a rectangle"),
    }
    match node.children.child("b").unwrap() {
        Entity::RectMesh(r) => assert_eq!(r.color, Color::from_rgb(2, 77, 2)),
        _ => panic!("not a rectangle"),
    }
}

#[test]
fn merging_no_children_succeeds() {
    let mut ids = IdCounter::new();
    let mut node = node_with_children(&mut ids);
    let mut v = node.as_lua();
    set(&mut v, "children", Variant::Table(vec![]));
    assert_eq!(node.from_lua(&v), Ok(()));
    assert_eq!(node.children.len(), 2);
}

#[test]
fn merging_more_children_is_a_structural_violation() {
    let mut ids = IdCounter::new();
    let mut node = node_with_children(&mut ids);
    let before = node.as_lua();
    let mut v = node.as_lua();
    let extra = RectMesh::new(Vec2::zero(), Vec2::zero(), Color::new(0), &mut ids).as_lua();
    set(at(&mut v, "children"), "c", extra);
    assert_eq!(node.from_lua(&v), Err(EngineError::StructuralViolation));
    assert_eq!(node.children.len(), 2);
    assert_eq!(node.as_lua(), before);
}

#[test]
fn merging_a_child_under_an_unknown_name_is_a_structural_violation() {
    let mut ids = IdCounter::new();
    let mut node = node_with_children(&mut ids);
    let mut v = node.as_lua();
    let a = node.children.child("a").unwrap().as_lua();
    set(at(&mut v, "children"), "zzz", a);
    match at(&mut v, "children") {
        Variant::Table(entries) => {
            entries.remove(0);
        }
        _ => panic!("not a table"),
    }
    assert_eq!(node.from_lua(&v), Err(EngineError::StructuralViolation));
    let mut keyed = node.as_lua();
    match at(&mut keyed, "children") {
        Variant::Table(entries) => {
            entries[0].0 = Variant::Integer(1);
        }
        _ => panic!("not a table"),
    }
    assert_eq!(node.from_lua(&keyed), Err(EngineError::StructuralViolation));
}

#[test]
fn a_rejected_child_rejects_the_whole_merge() {
    let mut ids = IdCounter::new();
    let mut node = node_with_children(&mut ids);
    let before = node.as_lua();
    let mut v = node.as_lua();
    set(at(at(at(&mut v, "children"), "a"), "color"), "r", Variant::Integer(5));
    set(at(at(at(&mut v, "children"), "b"), "color"), "r", Variant::text("red"));
    assert_eq!(node.from_lua(&v), Err(EngineError::Serialization));
    assert_eq!(node.as_lua(), before);
}

#[test]
fn from_lua_rejects_what_is_no_node() {
    let mut ids = IdCounter::new();
    let mut node = node_with_children(&mut ids);
    assert_eq!(node.from_lua(&Variant::Nil), Err(EngineError::Serialization));
    assert_eq!(node.from_lua(&Variant::Table(vec![])), Err(EngineError::Serialization));
    let no_table = Variant::Table(vec![Variant::entry("children", Variant::Integer(0))]);
    assert_eq!(node.from_lua(&no_table), Err(EngineError::Serialization));
}

#[test]
fn functions_in_a_snapshot_are_ignored_by_the_merge() {
    let mut ids = IdCounter::new();
    let mut mesh = RectMesh::new(Vec2::new(1, 2), Vec2::new(3, 4), Color::from_rgb(5, 6, 7), &mut ids);
    let mut v = mesh.as_lua();
    set(&mut v, "kind", Variant::Function(Intrinsic::Script));
    set(at(&mut v, "base"), "id", Variant::Integer(999));
    set(&mut v, "custom", Variant::Integer(42));
    assert_eq!(mesh.from_lua(&v), Ok(()));
    assert_eq!(mesh.base.id, 0);
    assert_eq!(mesh.get_kind(), "RectMesh");
}

#[test]
fn rectmesh_merges_transform_and_color() {
    let mut ids = IdCounter::new();
    let mut mesh = RectMesh::new(Vec2::new(1, 2), Vec2::new(3, 4), Color::from_rgb(5, 6, 7), &mut ids);
    let mut v = mesh.as_lua();
    set(at(&mut v, "color"), "r", Variant::Integer(42));
    set(at(at(&mut v, "transform"), "pos"), "x", Variant::Integer(100));
    set(at(&mut v, "transform"), "scale", Variant::Number(Scalar::from_bits(2.0f64.to_bits())));
    assert_eq!(mesh.from_lua(&v), Ok(()));
    assert_eq!(mesh.color, Color::from_rgb(42, 6, 7));
    assert_eq!(mesh.transform.pos, Vec2::new(100, 2));
    assert_eq!(mesh.transform.size, Vec2::new(3, 4));
    assert_eq!(mesh.transform.scale, Scalar::from_bits(2.0f64.to_bits()));
    assert_eq!(mesh.as_lua().part("color").integer_at("r"), Some(42));
}

#[test]
fn rectmesh_rejects_in_the_order_base_transform_color() {
    let mut ids = IdCounter::new();
    let mut mesh = RectMesh::new(Vec2::new(1, 2), Vec2::new(3, 4), Color::from_rgb(5, 6, 7), &mut ids);
    let mut v = mesh.as_lua();
    set(&mut v, "color", Variant::Nil);
    let extra = mesh.as_lua();
    set(at(at(&mut v, "base"), "children"), "x", extra);
    assert_eq!(mesh.from_lua(&v), Err(EngineError::StructuralViolation));
    let mut w = mesh.as_lua();
    set(&mut w, "color", Variant::Nil);
    assert_eq!(mesh.from_lua(&w), Err(EngineError::Serialization));
    assert_eq!(mesh.color, Color::from_rgb(5, 6, 7));
}

#[test]
fn sprite_merges_its_image() {
    let mut ids = IdCounter::new();
    let mut sprite = Sprite::new(Vec2::zero(), Vec2::new(8, 8), Img::new("a.png"), &mut ids);
    let mut v = sprite.as_lua();
    set(at(&mut v, "img"), "texture", Variant::text("b.png"));
    set(at(&mut v, "img"), "flip_x", Variant::Boolean(true));
    set(at(&mut v, "img"), "src", Vec2::new(8, 0).as_lua());
    assert_eq!(sprite.from_lua(&v), Ok(()));
    assert_eq!(sprite.img, Img::new("b.png").flip(true, false).section(Vec2::new(8, 0)));
    assert_eq!(sprite.get_kind(), "Sprite");
}

#[test]
fn camera_merges_its_focal_length() {
    let mut ids = IdCounter::new();
    let mut camera = Camera::new(Vec2::zero(), Vec2::new(640, 480), Scalar::one(), &mut ids);
    let mut v = camera.as_lua();
    let two = Scalar::from_bits(2.0f64.to_bits());
    set(&mut v, "focal_length", Variant::Number(two));
    assert_eq!(camera.from_lua(&v), Ok(()));
    assert_eq!(camera.focal_length, two);
    set(&mut v, "focal_length", Variant::text("far"));
    assert_eq!(camera.from_lua(&v), Err(EngineError::Serialization));
    assert_eq!(camera.focal_length, two);
    assert_eq!(camera.get_kind(), "Camera");
}

#[test]
fn a_clickable_area_binds_its_click_test_to_where_it_lies() {
    let mut ids = IdCounter::new();
    let mut area = ClickableArea::new(Vec2::new(1, 2), Vec2::new(3, 4), &mut ids);
    let v = area.as_lua();
    assert_eq!(
        v.part("clicked"),
        &Variant::Function(Intrinsic::Clicked(Transform::new(Vec2::new(1, 2), Vec2::new(3, 4))))
    );
    let mut moved = area.as_lua();
    set(at(at(&mut moved, "transform"), "pos"), "x", Variant::Integer(50));
    assert_eq!(area.from_lua(&moved), Ok(()));
    assert_eq!(area.transform.pos, Vec2::new(50, 2));
    assert_eq!(area.get_kind(), "ClickableArea");
}

#[test]
fn collider_merges_its_layer() {
    let mut ids = IdCounter::new();
    let mut collider = Collider::new(Vec2::zero(), Vec2::one(), "walls".to_string(), &mut ids);
    let mut v = collider.as_lua();
    assert_eq!(v.text_at("layer"), Some("walls"));
    assert_eq!(v.part("collides"), &Variant::Function(Intrinsic::Collides));
    set(&mut v, "layer", Variant::text("doors"));
    assert_eq!(collider.from_lua(&v), Ok(()));
    assert_eq!(collider.layer, "doors");
    set(&mut v, "layer", Variant::Integer(3));
    assert_eq!(collider.from_lua(&v), Err(EngineError::Serialization));
    assert_eq!(collider.layer, "doors");
    assert_eq!(Collider::empty(&mut ids).layer, "");
}

#[test]
fn sound_player_merges_its_sound() {
    let mut ids = IdCounter::new();
    let mut player = SoundPlayer::new("hit.wav", &mut ids);
    let mut v = player.as_lua();
    assert_eq!(v.part("play"), &Variant::Function(Intrinsic::Play));
    set(&mut v, "sound", Variant::text("miss.wav"));
    assert_eq!(player.from_lua(&v), Ok(()));
    assert_eq!(player.sound, "miss.wav");
    assert_eq!(SoundPlayer::empty(&mut ids).sound, "");
    assert_eq!(player.get_kind(), "SoundPlayer");
}

#[test]
fn text_snapshot_and_merge() {
    let mut ids = IdCounter::new();
    let mut text = Text::new("hello", Vec2::new(1, 2), 24, Color::from_rgb(9, 9, 9), &mut ids);
    let mut v = text.as_lua();
    assert_eq!(v.text_at("text"), Some("hello"));
    assert_eq!(v.integer_at("font_size"), Some(24));
    assert_eq!(v.text_at("font"), Some(""));
    assert_eq!(v.part("dimensions"), &Variant::Function(Intrinsic::Dimensions));
    set(&mut v, "text", Variant::text("bye"));
    set(&mut v, "font_size", Variant::Integer(30));
    set(&mut v, "rotation", Variant::Number(Scalar::from_bits(1.5f64.to_bits())));
    assert_eq!(text.from_lua(&v), Ok(()));
    assert_eq!(text.text, "bye");
    assert_eq!(text.font_size, 30);
    assert_eq!(text.rotation, Scalar::from_bits(1.5f64.to_bits()));
    assert_eq!(text.font_path, None);
    assert!(!text.font_stale);
}

#[test]
fn a_changed_font_path_makes_the_font_stale_once() {
    let mut ids = IdCounter::new();
    let mut text = Text::new("hello", Vec2::zero(), 24, Color::new(0), &mut ids);
    let mut v = text.as_lua();
    set(&mut v, "font", Variant::text("mono.ttf"));
    assert_eq!(text.from_lua(&v), Ok(()));
    assert_eq!(text.font_path, Some("mono.ttf".to_string()));
    assert!(text.font_stale);
    text.font_loaded();
    assert!(!text.font_stale);
    assert_eq!(text.from_lua(&v), Ok(()));
    assert!(!text.font_stale);
    set(&mut v, "font", Variant::text(""));
    assert_eq!(text.from_lua(&v), Ok(()));
    assert_eq!(text.font_path, None);
    assert!(text.font_stale);
}

#[test]
fn text_rejects_a_font_size_out_of_range() {
    let mut ids = IdCounter::new();
    let mut text = Text::new("hello", Vec2::zero(), 24, Color::new(0), &mut ids);
    let mut v = text.as_lua();
    set(&mut v, "font_size", Variant::Integer(65536));
    assert_eq!(text.from_lua(&v), Err(EngineError::Serialization));
    set(&mut v, "font_size", Variant::Integer(65535));
    assert_eq!(text.from_lua(&v), Ok(()));
    assert_eq!(text.font_size, 65535);
}

#[test]
fn what_the_host_measured_is_no_part_of_the_snapshot() {
    let mut ids = IdCounter::new();
    let mut text = Text::new("hello", Vec2::zero(), 24, Color::new(0), &mut ids);
    let before = text.as_lua();
    text.set_measured(Vec2::new(60, 20));
    assert_eq!(text.getTextSize(), Vec2::new(60, 20));
    assert_eq!(text.as_lua(), before);
    assert_eq!(text.from_lua(&before), Ok(()));
    assert_eq!(text.getTextSize(), Vec2::new(60, 20));
}

#[test]
fn text_button_takes_the_measured_extent_on_update() {
    let mut ids = IdCounter::new();
    let mut button =
        TextButton::new("go", Vec2::new(5, 5), 12, Color::new(0), Vec2::new(20, 10), &mut ids);
    assert_eq!(button.area.transform.size, Vec2::new(20, 10));
    button.text.set_measured(Vec2::new(44, 11));
    button.update(Scalar::zero());
    assert_eq!(button.area.transform.size, Vec2::new(44, 11));
    assert_eq!(button.area.transform.pos, Vec2::new(5, 5));
    assert_eq!(button.get_kind(), "TextButton");
}

#[test]
fn update_reaches_buttons_among_the_children() {
    let mut ids = IdCounter::new();
    let mut root = Node::new(&mut ids);
    let mut inner = Node::new(&mut ids);
    let mut button =
        TextButton::new("go", Vec2::zero(), 12, Color::new(0), Vec2::new(1, 1), &mut ids);
    button.text.set_measured(Vec2::new(9, 9));
    inner.children.add_child("button".to_string(), Entity::TextButton(button));
    root.children.add_child("inner".to_string(), Entity::Node(inner));
    let mut entity = Entity::Node(root);
    entity.update(Scalar::one());
    let inner = entity.base().children.child("inner").unwrap();
    match inner.base().children.child("button").unwrap() {
        Entity::TextButton(b) => assert_eq!(b.area.transform.size, Vec2::new(9, 9)),
        _ => panic!("not a button"),
    }
}

#[test]
fn buttons_merge_their_parts() {
    let mut ids = IdCounter::new();
    let mut button = SpriteButton::new(Vec2::zero(), Vec2::new(8, 8), Img::new("a.png"), &mut ids);
    let mut v = button.as_lua();
    set(at(at(&mut v, "sprite"), "img"), "texture", Variant::text("b.png"));
    set(at(at(at(&mut v, "area"), "transform"), "pos"), "y", Variant::Integer(3));
    assert_eq!(button.from_lua(&v), Ok(()));
    assert_eq!(button.sprite.img.texture, "b.png");
    assert_eq!(button.area.transform.pos, Vec2::new(0, 3));
    set(at(&mut v, "area"), "transform", Variant::Nil);
    assert_eq!(button.from_lua(&v), Err(EngineError::Serialization));
    let mut text_button =
        TextButton::new("go", Vec2::zero(), 12, Color::new(0), Vec2::new(1, 1), &mut ids);
    let mut w = text_button.as_lua();
    set(at(&mut w, "text"), "text", Variant::text("stop"));
    assert_eq!(text_button.from_lua(&w), Ok(()));
    assert_eq!(text_button.text.text, "stop");
    assert_eq!(button.get_kind(), "SpriteButton");
}

#[test]
fn construct_makes_the_kind_named() {
    let mut ids = IdCounter { next: 10 };
    let pattern = RectMesh::new(Vec2::new(1, 2), Vec2::new(3, 4), Color::from_rgb(5, 6, 7), &mut ids);
    let entity = Entity::construct("RectMesh", &pattern.as_lua(), &mut ids).unwrap();
    match &entity {
        Entity::RectMesh(r) => {
            assert_eq!(r.base.id, 11);
            assert_eq!(r.transform, Transform::new(Vec2::new(1, 2), Vec2::new(3, 4)));
            assert_eq!(r.color, Color::from_rgb(5, 6, 7));
        }
        _ => panic!("not a rectangle"),
    }
    assert_eq!(ids.next, 12);
}

#[test]
fn construct_rejects_an_unknown_kind() {
    let mut ids = IdCounter::new();
    let r = Entity::construct("Dragon", &Variant::Table(vec![]), &mut ids);
    assert!(matches!(r, Err(EngineError::UnknownKind)));
    assert_eq!(ids.next, 0);
}

#[test]
fn construct_rejects_a_description_of_another_shape() {
    let mut ids = IdCounter::new();
    let r = Entity::construct("Camera", &Variant::Table(vec![]), &mut ids);
    assert!(matches!(r, Err(EngineError::Serialization)));
}

#[test]
fn an_entity_is_taken_for_its_own_kind_only() {
    let mut ids = IdCounter::new();
    let mut entity = Entity::blank(Kind::Collider, &mut ids);
    assert!(Collider::downcast(&entity).is_some());
    assert!(RectMesh::downcast(&entity).is_none());
    assert!(Node::downcast(&entity).is_none());
    Collider::downcast_mut(&mut entity).unwrap().layer = "x".to_string();
    assert_eq!(Collider::downcast(&entity).unwrap().layer, "x");
}

#[test]
fn the_capabilities_are_those_of_the_kind() {
    let mut ids = IdCounter::new();
    let mut entity = Entity::blank(Kind::Sprite, &mut ids);
    assert_eq!(NodeLike::get_kind(&entity), "Sprite");
    NodeLike::setup(&mut entity);
    NodeLike::update(&mut entity, Scalar::one());
    let lua = mlua::Lua::new();
    assert_eq!(NodeLike::load_scripts(&mut entity, &lua), Ok(()));
    assert_eq!(NodeLike::get_scripts(&mut entity).current_state(), ManagerState::Loaded);
    let v = Luable::as_lua(&entity);
    assert_eq!(Luable::from_lua(&mut entity, &v), Ok(()));
    assert_eq!(Luable::from_lua(&mut entity, &Variant::Nil), Err(EngineError::Serialization));
}
