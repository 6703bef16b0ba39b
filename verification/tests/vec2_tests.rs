use scene_core::error::EngineError;
use scene_core::scalar::Scalar;
use scene_core::variant::Intrinsic;
use scene_core::variant::Variant;
use scene_core::vec2::dot_values;
use scene_core::vec2::Vec2;

#[test]
fn new_keeps_both_coordinates() {
    let v = Vec2::new(3, -4);
    assert_eq!(v.get_x(), 3);
    assert_eq!(v.get_y(), -4);
    assert_eq!(v.as_slice(), [3, -4]);
}

#[test]
fn zero_one_and_default() {
    assert_eq!(Vec2::zero(), Vec2::new(0, 0));
    assert_eq!(Vec2::one(), Vec2::new(1, 1));
    assert_eq!(Vec2::default(), Vec2::new(0, 0));
}

#[test]
fn dot_of_two_vectors() {
    assert_eq!(Vec2::new(1, 2).dot(Vec2::new(3, 4)), 11);
    assert_eq!(Vec2::new(-2, 5).dot(Vec2::new(7, 1)), -9);
}

#[test]
fn checked_dot_tells_overflow() {
    assert_eq!(Vec2::new(1, 2).checked_dot(Vec2::new(3, 4)), Some(11));
    assert_eq!(Vec2::new(i32::MAX, 0).checked_dot(Vec2::new(2, 0)), None);
    assert_eq!(Vec2::new(i32::MIN, i32::MIN).checked_dot(Vec2::new(i32::MIN, i32::MIN)), None);
    assert_eq!(Vec2::new(46340, 0).checked_dot(Vec2::new(46340, 0)), Some(2147395600));
}

#[test]
fn arithmetic_is_coordinate_wise() {
    let a = Vec2::new(6, -8);
    let b = Vec2::new(3, 2);
    assert_eq!(a + b, Vec2::new(9, -6));
    assert_eq!(a - b, Vec2::new(3, -10));
    assert_eq!(a * b, Vec2::new(18, -16));
    assert_eq!(a * 3, Vec2::new(18, -24));
    assert_eq!(a / b, Vec2::new(2, -4));
    assert_eq!(a / 4, Vec2::new(1, -2));
    assert_eq!(-a, Vec2::new(-6, 8));
}

#[test]
fn division_rounds_toward_zero() {
    assert_eq!(Vec2::new(7, -7) / 2, Vec2::new(3, -3));
    assert_eq!(Vec2::new(7, -7) / -2, Vec2::new(-3, 3));
}

#[test]
fn snapshot_has_coordinates_and_dot() {
    let v = Vec2::new(3, 4).as_lua();
    assert_eq!(
        v,
        Variant::Table(vec![
            (Variant::Str("x".to_string()), Variant::Integer(3)),
            (Variant::Str("y".to_string()), Variant::Integer(4)),
            (Variant::Str("dot".to_string()), Variant::Function(Intrinsic::Dot)),
        ])
    );
}

#[test]
fn vector_round_trip() {
    let v = Vec2::new(-17, 2_000_000_000);
    let mut w = Vec2::zero();
    assert_eq!(w.from_lua(&v.as_lua()), Ok(()));
    assert_eq!(w, v);
    assert_eq!(Vec2::decode(&v.as_lua()), Ok(v));
}

#[test]
fn from_lua_rejects_what_is_no_vector() {
    let mut v = Vec2::new(1, 2);
    assert_eq!(v.from_lua(&Variant::Integer(5)), Err(EngineError::Serialization));
    assert_eq!(v.from_lua(&Variant::Nil), Err(EngineError::Serialization));
    let no_y = Variant::Table(vec![Variant::entry("x", Variant::Integer(9))]);
    assert_eq!(v.from_lua(&no_y), Err(EngineError::Serialization));
    let text_y = Variant::Table(vec![
        Variant::entry("x", Variant::Integer(9)),
        Variant::entry("y", Variant::text("nine")),
    ]);
    assert_eq!(v.from_lua(&text_y), Err(EngineError::Serialization));
    assert_eq!(v, Vec2::new(1, 2));
}

#[test]
fn from_lua_reduces_to_32_bits() {
    let big = Variant::Table(vec![
        Variant::entry("x", Variant::Integer(4_294_967_296 + 7)),
        Variant::entry("y", Variant::Integer(-1)),
    ]);
    let mut v = Vec2::zero();
    assert_eq!(v.from_lua(&big), Ok(()));
    assert_eq!(v, Vec2::new(7, -1));
}

#[test]
fn from_lua_takes_whole_numbers_for_integers() {
    let table = Variant::Table(vec![
        Variant::entry("x", Variant::Number(Scalar::from_bits(103.0f64.to_bits()))),
        Variant::entry("y", Variant::Number(Scalar::from_bits((-2.0f64).to_bits()))),
    ]);
    assert_eq!(Vec2::decode(&table), Ok(Vec2::new(103, -2)));
    let fractional = Variant::Table(vec![
        Variant::entry("x", Variant::Number(Scalar::from_bits(103.5f64.to_bits()))),
        Variant::entry("y", Variant::Integer(0)),
    ]);
    assert_eq!(Vec2::decode(&fractional), Err(EngineError::Serialization));
}

#[test]
fn first_pair_of_a_key_counts() {
    let twice = Variant::Table(vec![
        Variant::entry("x", Variant::Integer(1)),
        Variant::entry("x", Variant::Integer(2)),
        Variant::entry("y", Variant::Integer(3)),
    ]);
    assert_eq!(Vec2::decode(&twice), Ok(Vec2::new(1, 3)));
}

#[test]
fn arithmetic_on_references() {
    let a = Vec2::new(6, -8);
    let b = Vec2::new(3, 2);
    assert_eq!(&a + &b, Vec2::new(9, -6));
    assert_eq!(&a - &b, Vec2::new(3, -10));
    assert_eq!(&a * &b, Vec2::new(18, -16));
    assert_eq!(&a * 3, Vec2::new(18, -24));
    assert_eq!(&a / &b, Vec2::new(2, -4));
    assert_eq!(&a / 4, Vec2::new(1, -2));
    assert_eq!(-&a, Vec2::new(-6, 8));
}

#[test]
fn arithmetic_in_place() {
    let mut v = Vec2::new(6, -8);
    v += Vec2::new(1, 1);
    assert_eq!(v, Vec2::new(7, -7));
    v -= Vec2::new(2, 3);
    assert_eq!(v, Vec2::new(5, -10));
    v *= Vec2::new(2, -1);
    assert_eq!(v, Vec2::new(10, 10));
    v /= Vec2::new(3, -3);
    assert_eq!(v, Vec2::new(3, -3));
    v *= 5;
    assert_eq!(v, Vec2::new(15, -15));
    v /= 2;
    assert_eq!(v, Vec2::new(7, -7));
}

#[test]
fn the_dot_intrinsic_multiplies_what_the_tables_hold() {
    let a = Vec2::new(3, 4).as_lua();
    let b = Vec2::new(-2, 5).as_lua();
    assert_eq!(dot_values(&a, &b), Some(14));
    let wide = Variant::Table(vec![
        Variant::entry("x", Variant::Integer(1 << 40)),
        Variant::entry("y", Variant::Integer(0)),
    ]);
    assert_eq!(dot_values(&wide, &wide), None);
    let large = Variant::Table(vec![
        Variant::entry("x", Variant::Integer(1 << 31)),
        Variant::entry("y", Variant::Integer(-1)),
    ]);
    assert_eq!(dot_values(&large, &large), Some((1i64 << 62) + 1));
    let least = Variant::Table(vec![
        Variant::entry("x", Variant::Integer(i64::MIN)),
        Variant::entry("y", Variant::Integer(i64::MIN)),
    ]);
    assert_eq!(dot_values(&least, &least), None);
    let cancel = Variant::Table(vec![
        Variant::entry("x", Variant::Integer(i64::MAX)),
        Variant::entry("y", Variant::Integer(-i64::MAX)),
    ]);
    let ones = Variant::Table(vec![
        Variant::entry("x", Variant::Integer(i64::MAX)),
        Variant::entry("y", Variant::Integer(i64::MAX)),
    ]);
    assert_eq!(dot_values(&cancel, &ones), Some(0));
    assert_eq!(dot_values(&a, &Variant::Nil), None);
    assert_eq!(dot_values(&Variant::Integer(1), &b), None);
}
