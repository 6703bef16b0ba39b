use scene_core::color::Color;
use scene_core::entity::Entity;
use scene_core::error::EngineError;
use scene_core::nodelike::IdCounter;
use scene_core::nodes::collider::Collider;
use scene_core::nodes::collider::ColliderRegistry;
use scene_core::nodes::node::Node;
use scene_core::nodes::rectmesh::RectMesh;
use scene_core::transform::Transform;
use scene_core::variant::Variant;
use scene_core::vec2::Vec2;

#[test]
fn two_colliders_of_a_layer_collide_until_one_moves_away() {
    let mut ids = IdCounter::new();
    let mut registry = ColliderRegistry::new();
    let first = Collider::new(Vec2::new(0, 0), Vec2::new(10, 10), "a".to_string(), &mut ids);
    let mut second = Collider::new(Vec2::new(5, 5), Vec2::new(10, 10), "a".to_string(), &mut ids);
    first.register(&mut registry);
    second.register(&mut registry);
    assert!(first.collides(&registry, None));
    assert!(second.collides(&registry, None));
    second.transform.pos = Vec2::new(100, 100);
    second.register(&mut registry);
    assert!(!first.collides(&registry, None));
    assert!(!second.collides(&registry, None));
    assert_eq!(registry.records.len(), 2);
}

#[test]
fn a_collider_does_not_collide_with_itself() {
    let mut ids = IdCounter::new();
    let mut registry = ColliderRegistry::new();
    let only = Collider::new(Vec2::new(0, 0), Vec2::new(10, 10), "a".to_string(), &mut ids);
    only.register(&mut registry);
    assert!(!only.collides(&registry, None));
    assert!(!only.collides(&registry, Some(false)));
    assert!(only.collides(&registry, Some(true)));
}

#[test]
fn colliders_of_other_layers_are_not_looked_at() {
    let mut ids = IdCounter::new();
    let mut registry = ColliderRegistry::new();
    let a = Collider::new(Vec2::new(0, 0), Vec2::new(10, 10), "a".to_string(), &mut ids);
    let b = Collider::new(Vec2::new(5, 5), Vec2::new(10, 10), "b".to_string(), &mut ids);
    a.register(&mut registry);
    b.register(&mut registry);
    assert!(!a.collides(&registry, None));
    assert!(!b.collides(&registry, None));
}

#[test]
fn with_require_all_every_other_collider_must_overlap() {
    let mut registry = ColliderRegistry::new();
    registry.record(1, "a", Transform::new(Vec2::new(0, 0), Vec2::new(10, 10)));
    registry.record(2, "a", Transform::new(Vec2::new(5, 5), Vec2::new(10, 10)));
    registry.record(3, "a", Transform::new(Vec2::new(50, 50), Vec2::new(10, 10)));
    let here = Transform::new(Vec2::new(0, 0), Vec2::new(10, 10));
    assert!(registry.collides(1, "a", &here, None));
    assert!(registry.collides(1, "a", &here, Some(false)));
    assert!(!registry.collides(1, "a", &here, Some(true)));
    let wide = Transform::new(Vec2::new(0, 0), Vec2::new(60, 60));
    assert!(registry.collides(9, "a", &wide, Some(true)));
    assert!(registry.collides(9, "none", &wide, Some(true)));
    assert!(!registry.collides(9, "none", &wide, None));
}

#[test]
fn recording_again_replaces_the_record() {
    let mut registry = ColliderRegistry::new();
    registry.record(1, "a", Transform::new(Vec2::new(0, 0), Vec2::new(1, 1)));
    registry.record(2, "a", Transform::new(Vec2::new(9, 9), Vec2::new(1, 1)));
    registry.record(1, "b", Transform::new(Vec2::new(7, 7), Vec2::new(1, 1)));
    assert_eq!(registry.records.len(), 2);
    assert_eq!(registry.records[0].id, 1);
    assert_eq!(registry.records[0].layer, "b");
    assert_eq!(registry.records[0].transform.pos, Vec2::new(7, 7));
    assert_eq!(registry.records[1].id, 2);
    registry.clear();
    assert_eq!(registry.records.len(), 0);
}

#[test]
fn every_collider_of_a_tree_is_recorded() {
    let mut ids = IdCounter::new();
    let mut root = Node::new(&mut ids);
    let mut inner = Collider::new(Vec2::new(1, 1), Vec2::new(2, 2), "a".to_string(), &mut ids);
    let leaf = Collider::new(Vec2::new(3, 3), Vec2::new(2, 2), "b".to_string(), &mut ids);
    let mesh = RectMesh::new(Vec2::zero(), Vec2::one(), Color::new(0), &mut ids);
    inner.base.children.add_child("leaf".to_string(), Entity::Collider(leaf));
    root.children.add_child("inner".to_string(), Entity::Collider(inner));
    root.children.add_child("mesh".to_string(), Entity::RectMesh(mesh));
    let mut registry = ColliderRegistry::new();
    Entity::Node(root).record_colliders(&mut registry);
    assert_eq!(registry.records.len(), 2);
    assert_eq!(registry.records[0].id, 1);
    assert_eq!(registry.records[0].layer, "a");
    assert_eq!(registry.records[1].id, 2);
    assert_eq!(registry.records[1].layer, "b");
}

#[test]
fn the_collides_intrinsic_answers_from_what_this_holds() {
    let mut ids = IdCounter::new();
    let mut registry = ColliderRegistry::new();
    let wall = Collider::new(Vec2::new(0, 0), Vec2::new(10, 10), "a".to_string(), &mut ids);
    let mut mover = Collider::new(Vec2::new(5, 5), Vec2::new(10, 10), "a".to_string(), &mut ids);
    wall.register(&mut registry);
    mover.register(&mut registry);
    assert_eq!(registry.answer(1, &mover.as_lua(), None), Ok(true));
    assert_eq!(registry.answer(1, &mover.as_lua(), Some(true)), Ok(true));
    mover.transform.pos = Vec2::new(100, 100);
    assert_eq!(registry.answer(1, &mover.as_lua(), None), Ok(false));
    assert_eq!(registry.answer(1, &Variant::Nil, None), Err(EngineError::Serialization));
    assert_eq!(
        registry.answer(1, &Transform::new(Vec2::zero(), Vec2::one()).as_lua(), None),
        Err(EngineError::Serialization)
    );
}
