use scene_core::color::Color;
use scene_core::entity::Entity;
use scene_core::image::Img;
use scene_core::kind::Kind;
use scene_core::nodelike::generate_id;
use scene_core::nodelike::IdCounter;
use scene_core::nodes::button::SpriteButton;
use scene_core::nodes::button::TextButton;
use scene_core::nodes::node::Node;
use scene_core::nodes::rectmesh::RectMesh;
use scene_core::vec2::Vec2;

#[test]
fn identities_grow_by_one() {
    let mut ids = IdCounter::new();
    assert_eq!(generate_id(&mut ids), 0);
    assert_eq!(generate_id(&mut ids), 1);
    assert_eq!(generate_id(&mut ids), 2);
    assert_eq!(ids.next, 3);
}

#[test]
fn entities_get_distinct_growing_identities() {
    let mut ids = IdCounter::new();
    let a = Node::new(&mut ids);
    let b = RectMesh::new(Vec2::zero(), Vec2::one(), Color::new(0), &mut ids);
    let c = Node::new(&mut ids);
    assert!(a.id < b.base.id);
    assert!(b.base.id < c.id);
}

#[test]
fn every_kind_takes_its_identities_from_the_counter() {
    let mut ids = IdCounter { next: 40 };
    let mut last = 39;
    for kind in [
        Kind::Node,
        Kind::RectMesh,
        Kind::Sprite,
        Kind::Text,
        Kind::Camera,
        Kind::ClickableArea,
        Kind::Collider,
        Kind::SoundPlayer,
        Kind::TextButton,
        Kind::SpriteButton,
    ] {
        let entity = Entity::blank(kind, &mut ids);
        assert_eq!(entity.kind(), kind);
        assert!(entity.id() > last);
        assert!(entity.id() < ids.next);
        last = ids.next - 1;
    }
    assert_eq!(ids.next, 40 + 8 + 3 + 3);
}

#[test]
fn a_text_button_has_three_identities() {
    let mut ids = IdCounter { next: 7 };
    let b = TextButton::new("go", Vec2::new(1, 1), 12, Color::new(0), Vec2::new(30, 12), &mut ids);
    assert_eq!(b.text.base.id, 7);
    assert_eq!(b.base.id, 8);
    assert_eq!(b.area.base.id, 9);
    assert_eq!(ids.next, 10);
}

#[test]
fn a_sprite_button_has_three_identities() {
    let mut ids = IdCounter { next: 7 };
    let b = SpriteButton::new(Vec2::new(1, 1), Vec2::new(2, 2), Img::new("b.png"), &mut ids);
    assert_eq!(b.base.id, 7);
    assert_eq!(b.sprite.base.id, 8);
    assert_eq!(b.area.base.id, 9);
    assert_eq!(ids.next, 10);
}

#[test]
fn the_counter_tells_what_is_left() {
    let ids = IdCounter { next: u64::MAX - 2 };
    assert!(ids.has(2));
    assert!(!ids.has(3));
    assert!(IdCounter::new().has(u64::MAX));
}
