use scene_core::color::Color;
use scene_core::error::EngineError;
use scene_core::image::Img;
use scene_core::scalar::Scalar;
use scene_core::variant::Variant;
use scene_core::vec2::Vec2;

#[test]
fn new_draws_the_whole_texture_untinted() {
    let img = Img::new("ship.png");
    assert_eq!(img.texture, "ship.png");
    assert_eq!(img.rotation, Scalar::zero());
    assert_eq!(img.src, None);
    assert_eq!(img.tint, Color::from_rgba(255, 255, 255, 255));
    assert!(!img.flip_x);
    assert!(!img.flip_y);
}

#[test]
fn builders_change_one_thing_each() {
    let quarter = Scalar::from_bits(std::f64::consts::FRAC_PI_2.to_bits());
    let img = Img::new("a.png")
        .with_radians(quarter)
        .section(Vec2::new(16, 32))
        .flip(true, false)
        .tint(Color::from_rgb(1, 2, 3));
    assert_eq!(img.texture, "a.png");
    assert_eq!(img.rotation, quarter);
    assert_eq!(img.src, Some(Vec2::new(16, 32)));
    assert!(img.flip_x);
    assert!(!img.flip_y);
    assert_eq!(img.tint, Color::from_rgb(1, 2, 3));
}

#[test]
fn image_round_trip() {
    let img = Img::new("a.png").section(Vec2::new(1, 2)).flip(false, true).tint(Color::new(0x11223344));
    let mut other = Img::new("");
    assert_eq!(other.from_lua(&img.as_lua()), Ok(()));
    assert_eq!(other, img);
}

#[test]
fn image_round_trip_without_section() {
    let img = Img::new("b.png");
    assert_eq!(img.as_lua().part("src"), &Variant::Nil);
    assert_eq!(Img::decode(&img.as_lua()), Ok(img));
}

#[test]
fn a_section_that_is_no_table_means_none() {
    let mut v = match Img::new("c.png").section(Vec2::new(4, 4)).as_lua() {
        Variant::Table(entries) => entries,
        _ => panic!("a snapshot is a table"),
    };
    v[2].1 = Variant::Integer(12);
    let img = Img::decode(&Variant::Table(v)).unwrap();
    assert_eq!(img.src, None);
}

#[test]
fn a_section_that_is_a_bad_table_is_rejected() {
    let mut v = match Img::new("c.png").as_lua() {
        Variant::Table(entries) => entries,
        _ => panic!("a snapshot is a table"),
    };
    v[2].1 = Variant::Table(vec![Variant::entry("x", Variant::Integer(1))]);
    assert_eq!(Img::decode(&Variant::Table(v)), Err(EngineError::Serialization));
}

#[test]
fn from_lua_rejects_a_missing_field() {
    let mut img = Img::new("keep.png");
    let mut v = match Img::new("c.png").as_lua() {
        Variant::Table(entries) => entries,
        _ => panic!("a snapshot is a table"),
    };
    v.remove(4);
    assert_eq!(img.from_lua(&Variant::Table(v)), Err(EngineError::Serialization));
    assert_eq!(img, Img::new("keep.png"));
}
