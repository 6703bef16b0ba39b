use scene_core::error::EngineError;
use scene_core::scalar::Scalar;
use scene_core::transform::Transform;
use scene_core::variant::Variant;
use scene_core::vec2::Vec2;

fn scalar(value: f64) -> Scalar {
    Scalar::from_bits(value.to_bits())
}

#[test]
fn new_is_not_scaled() {
    let t = Transform::new(Vec2::new(1, 2), Vec2::new(3, 4));
    assert_eq!(t.pos, Vec2::new(1, 2));
    assert_eq!(t.size, Vec2::new(3, 4));
    assert_eq!(t.scale, Scalar::one());
}

#[test]
fn overlapping_rectangles_intersect() {
    let a = Transform::new(Vec2::new(0, 0), Vec2::new(10, 10));
    let b = Transform::new(Vec2::new(5, 5), Vec2::new(10, 10));
    assert!(a.instersects(&b));
    assert!(b.instersects(&a));
}

#[test]
fn distant_rectangles_do_not_intersect() {
    let a = Transform::new(Vec2::new(0, 0), Vec2::new(10, 10));
    let b = Transform::new(Vec2::new(100, 100), Vec2::new(10, 10));
    assert!(!a.instersects(&b));
    assert!(!b.instersects(&a));
    let beside = Transform::new(Vec2::new(11, 0), Vec2::new(10, 10));
    assert!(!a.instersects(&beside));
    let below = Transform::new(Vec2::new(0, 11), Vec2::new(10, 10));
    assert!(!a.instersects(&below));
}

#[test]
fn touching_edges_intersect() {
    let a = Transform::new(Vec2::new(0, 0), Vec2::new(10, 10));
    let b = Transform::new(Vec2::new(10, 10), Vec2::new(5, 5));
    assert!(a.instersects(&b));
}

#[test]
fn scale_enlarges_the_rectangle() {
    let mut a = Transform::new(Vec2::new(0, 0), Vec2::new(10, 10));
    let b = Transform::new(Vec2::new(15, 15), Vec2::new(1, 1));
    assert!(!a.instersects(&b));
    a.scale = scalar(2.0);
    assert!(a.instersects(&b));
    a.scale = scalar(0.5);
    assert!(!a.instersects(&Transform::new(Vec2::new(6, 6), Vec2::new(1, 1))));
    assert!(a.instersects(&Transform::new(Vec2::new(5, 5), Vec2::new(1, 1))));
}

#[test]
fn extreme_coordinates_do_not_overflow() {
    let a = Transform::new(Vec2::new(i32::MAX, i32::MAX), Vec2::new(i32::MAX, i32::MAX));
    let b = Transform::new(Vec2::new(i32::MIN, i32::MIN), Vec2::new(i32::MAX, i32::MAX));
    assert!(!a.instersects(&b));
    assert!(a.instersects(&a));
}

#[test]
fn contains_counts_the_edges() {
    let t = Transform::new(Vec2::new(10, 20), Vec2::new(5, 5));
    assert!(t.contains(Vec2::new(10, 20)));
    assert!(t.contains(Vec2::new(15, 25)));
    assert!(t.contains(Vec2::new(12, 23)));
    assert!(!t.contains(Vec2::new(16, 23)));
    assert!(!t.contains(Vec2::new(12, 26)));
    assert!(!t.contains(Vec2::new(9, 20)));
    assert!(!t.contains(Vec2::new(10, 19)));
}

#[test]
fn transform_round_trip() {
    let mut t = Transform::new(Vec2::new(-3, 8), Vec2::new(640, 480));
    t.scale = scalar(0.75);
    let mut u = Transform::new(Vec2::zero(), Vec2::zero());
    assert_eq!(u.from_lua(&t.as_lua()), Ok(()));
    assert_eq!(u, t);
}

#[test]
fn snapshot_names_pos_size_and_scale() {
    let t = Transform::new(Vec2::new(1, 2), Vec2::new(3, 4));
    let v = t.as_lua();
    assert_eq!(Vec2::decode(v.part("pos")), Ok(Vec2::new(1, 2)));
    assert_eq!(Vec2::decode(v.part("size")), Ok(Vec2::new(3, 4)));
    assert_eq!(v.part("scale"), &Variant::Number(Scalar::one()));
}

#[test]
fn an_integer_scale_is_taken_as_a_number() {
    let v = Variant::Table(vec![
        Variant::entry("pos", Vec2::new(0, 0).as_lua()),
        Variant::entry("size", Vec2::new(4, 4).as_lua()),
        Variant::entry("scale", Variant::Integer(2)),
    ]);
    let t = Transform::decode(&v).unwrap();
    assert_eq!(t.scale, scalar(2.0));
}

#[test]
fn from_lua_rejects_what_is_no_transform() {
    let mut t = Transform::new(Vec2::new(1, 1), Vec2::new(2, 2));
    let no_scale = Variant::Table(vec![
        Variant::entry("pos", Vec2::new(0, 0).as_lua()),
        Variant::entry("size", Vec2::new(4, 4).as_lua()),
    ]);
    assert_eq!(t.from_lua(&no_scale), Err(EngineError::Serialization));
    let bad_pos = Variant::Table(vec![
        Variant::entry("pos", Variant::Integer(3)),
        Variant::entry("size", Vec2::new(4, 4).as_lua()),
        Variant::entry("scale", Variant::Number(Scalar::one())),
    ]);
    assert_eq!(t.from_lua(&bad_pos), Err(EngineError::Serialization));
    assert_eq!(t.from_lua(&Variant::text("transform")), Err(EngineError::Serialization));
    assert_eq!(t, Transform::new(Vec2::new(1, 1), Vec2::new(2, 2)));
}

fn overlap_in_single_precision(a: &Transform, b: &Transform) -> bool {
    let rect = |t: &Transform| {
        let scale = f64::from_bits(t.scale.to_bits()) as f32;
        let w = ((t.size.x as f32) * scale) as i32;
        let h = ((t.size.y as f32) * scale) as i32;
        (t.pos.x as f32, t.pos.y as f32, w as f32, h as f32)
    };
    let (ax, ay, aw, ah) = rect(a);
    let (bx, by, bw, bh) = rect(b);
    ax <= bx + bw && ax + aw >= bx && ay <= by + bh && ay + ah >= by
}

#[test]
fn intersection_is_that_of_single_precision_rectangles() {
    let mut state: u64 = 0x9E3779B97F4A7C15;
    let mut step = || {
        state ^= state << 13;
        state ^= state >> 7;
        state ^= state << 17;
        state
    };
    let mut coordinate = |wide: bool| {
        let raw = step() as u32 as i32;
        if wide {
            raw
        } else {
            raw >> 20
        }
    };
    for round in 0..100000 {
        let wide = round % 5 == 0;
        let mut a = Transform::new(
            Vec2::new(coordinate(wide), coordinate(wide)),
            Vec2::new(coordinate(wide), coordinate(wide)),
        );
        let mut b = Transform::new(
            Vec2::new(coordinate(wide), coordinate(wide)),
            Vec2::new(coordinate(wide), coordinate(wide)),
        );
        if round % 3 == 0 {
            a.scale = scalar((round % 400) as f64 / 100.0);
            b.scale = scalar(-1.5);
        }
        assert_eq!(a.instersects(&b), overlap_in_single_precision(&a, &b), "{:?} {:?}", a, b);
        assert_eq!(b.instersects(&a), overlap_in_single_precision(&b, &a), "{:?} {:?}", b, a);
    }
}
