use scene_core::children_container::ChildrenContainer;
use scene_core::color::Color;
use scene_core::entity::Entity;
use scene_core::kind::Kind;
use scene_core::nodelike::IdCounter;
use scene_core::nodes::camera::Camera;
use scene_core::nodes::node::Node;
use scene_core::nodes::rectmesh::RectMesh;
use scene_core::nodes::sprite::Sprite;
use scene_core::vec2::Vec2;

fn rect(ids: &mut IdCounter, red: u8) -> Entity {
    Entity::RectMesh(RectMesh::new(Vec2::zero(), Vec2::one(), Color::from_rgb(red, 0, 0), ids))
}

fn red_of(entity: &Entity) -> u8 {
    match entity {
        Entity::RectMesh(r) => r.color.get_r(),
        _ => panic!("not a rectangle"),
    }
}

#[test]
fn new_is_empty() {
    let c = ChildrenContainer::new();
    assert_eq!(c.len(), 0);
    assert!(c.child("a").is_none());
    assert!(!c.has_child("a"));
}

#[test]
fn a_second_add_under_a_name_replaces_the_first() {
    let mut ids = IdCounter::new();
    let mut c = ChildrenContainer::new();
    c.add_child("k".to_string(), rect(&mut ids, 1));
    c.add_child("k".to_string(), rect(&mut ids, 2));
    assert_eq!(c.len(), 1);
    assert_eq!(red_of(c.child("k").unwrap()), 2);
    assert_eq!(c.child("k").unwrap().id(), 1);
}

#[test]
fn add_keeps_what_is_under_other_names() {
    let mut ids = IdCounter::new();
    let mut c = ChildrenContainer::new();
    c.add_child("a".to_string(), rect(&mut ids, 1));
    c.add_child("b".to_string(), rect(&mut ids, 2));
    c.add_child("a".to_string(), rect(&mut ids, 3));
    assert_eq!(c.len(), 2);
    assert_eq!(red_of(c.child("a").unwrap()), 3);
    assert_eq!(red_of(c.child("b").unwrap()), 2);
}

#[test]
fn after_remove_the_name_holds_nothing() {
    let mut ids = IdCounter::new();
    let mut c = ChildrenContainer::new();
    c.add_child("a".to_string(), rect(&mut ids, 1));
    c.add_child("b".to_string(), rect(&mut ids, 2));
    c.remove_child("a");
    assert!(c.child("a").is_none());
    assert_eq!(c.len(), 1);
    assert_eq!(red_of(c.child("b").unwrap()), 2);
}

#[test]
fn remove_of_an_absent_name_changes_nothing() {
    let mut ids = IdCounter::new();
    let mut c = ChildrenContainer::new();
    c.add_child("a".to_string(), rect(&mut ids, 1));
    c.remove_child("zzz");
    assert_eq!(c.len(), 1);
    assert_eq!(red_of(c.child("a").unwrap()), 1);
    let mut empty = ChildrenContainer::new();
    empty.remove_child("a");
    assert_eq!(empty.len(), 0);
}

#[test]
fn clear_empties_the_collection() {
    let mut ids = IdCounter::new();
    let mut c = ChildrenContainer::new();
    c.add_child("a".to_string(), rect(&mut ids, 1));
    c.add_child("b".to_string(), rect(&mut ids, 2));
    c.clear_children();
    assert_eq!(c.len(), 0);
    assert!(c.child("a").is_none());
}

#[test]
fn get_child_gives_the_kind_asked_for() {
    let mut ids = IdCounter::new();
    let mut c = ChildrenContainer::new();
    c.add_child("r".to_string(), rect(&mut ids, 9));
    let found = c.get_child::<RectMesh>("r");
    assert!(found.is_some());
    found.unwrap().color = Color::from_rgb(10, 0, 0);
    assert_eq!(red_of(c.child("r").unwrap()), 10);
}

#[test]
fn get_child_of_another_kind_is_absent() {
    let mut ids = IdCounter::new();
    let mut c = ChildrenContainer::new();
    c.add_child("r".to_string(), rect(&mut ids, 9));
    assert!(c.get_child::<Sprite>("r").is_none());
    assert!(c.get_child::<Camera>("r").is_none());
    assert!(c.get_child::<Node>("r").is_none());
    assert!(c.get_child::<RectMesh>("other").is_none());
    assert_eq!(red_of(c.child("r").unwrap()), 9);
}

#[test]
fn foreach_child_hands_every_entity_over_once() {
    let mut ids = IdCounter::new();
    let mut c = ChildrenContainer::new();
    c.add_child("a".to_string(), rect(&mut ids, 1));
    c.add_child("b".to_string(), rect(&mut ids, 2));
    c.add_child("c".to_string(), rect(&mut ids, 3));
    c.foreach_child(|name: &String, entity: Entity| match entity {
        Entity::RectMesh(mut r) => {
            r.color = Color::from_rgb(r.color.get_r() + 10, name.len() as u8, 0);
            Entity::RectMesh(r)
        }
        other => other,
    });
    assert_eq!(c.len(), 3);
    assert_eq!(red_of(c.child("a").unwrap()), 11);
    assert_eq!(red_of(c.child("b").unwrap()), 12);
    assert_eq!(red_of(c.child("c").unwrap()), 13);
    assert_eq!(c.index_of("a"), 0);
    assert_eq!(c.index_of("b"), 1);
    assert_eq!(c.index_of("c"), 2);
}

#[test]
fn foreach_child_may_change_another_collection() {
    let mut ids = IdCounter::new();
    let mut c = ChildrenContainer::new();
    c.add_child("a".to_string(), rect(&mut ids, 1));
    let mut inner = ChildrenContainer::new();
    inner.add_child("x".to_string(), rect(&mut ids, 5));
    c.foreach_child(|_name: &String, mut entity: Entity| {
        entity.base_mut().children.add_child("y".to_string(), Entity::Node(Node::new(&mut IdCounter { next: 100 })));
        entity
    });
    assert_eq!(c.child("a").unwrap().base().children.len(), 1);
    assert_eq!(c.child("a").unwrap().base().children.child("y").unwrap().kind(), Kind::Node);
    assert_eq!(inner.len(), 1);
}
