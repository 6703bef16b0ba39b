use scene_core::color::Color;
use scene_core::error::EngineError;
use scene_core::variant::Variant;

#[test]
fn new_unpacks_alpha_red_green_blue() {
    let c = Color::new(0x80FF4020);
    assert_eq!(c.get_a(), 0x80);
    assert_eq!(c.get_r(), 0xFF);
    assert_eq!(c.get_g(), 0x40);
    assert_eq!(c.get_b(), 0x20);
    assert_eq!(Color::new(0), Color::from_rgba(0, 0, 0, 0));
    assert_eq!(Color::new(0xFFFFFFFF), Color::from_rgba(255, 255, 255, 255));
}

#[test]
fn from_rgb_is_opaque() {
    assert_eq!(Color::from_rgb(1, 2, 3), Color::from_rgba(1, 2, 3, 255));
}

#[test]
fn from_hex_reads_alpha_first() {
    assert_eq!(Color::from_hex("80ff4020"), Color::from_rgba(0xff, 0x40, 0x20, 0x80));
    assert_eq!(Color::from_hex("80FF4020"), Color::from_rgba(0xff, 0x40, 0x20, 0x80));
}

#[test]
fn from_hex_pads_short_text_with_zeros() {
    assert_eq!(Color::from_hex("ff"), Color::from_rgba(0, 0, 0, 0xff));
    assert_eq!(Color::from_hex("ff8"), Color::from_rgba(0x80, 0, 0, 0xff));
    assert_eq!(Color::from_hex(""), Color::from_rgba(0, 0, 0, 0));
}

#[test]
fn from_hex_cuts_long_text() {
    assert_eq!(Color::from_hex("0102030405zz"), Color::from_rgba(2, 3, 4, 1));
}

#[test]
fn a_plus_sign_may_stand_for_the_first_digit() {
    assert_eq!(Color::try_from_hex("+f000000"), Some(Color::from_rgba(0, 0, 0, 15)));
}

#[test]
fn try_from_hex_rejects_other_characters() {
    assert_eq!(Color::try_from_hex("gg000000"), None);
    assert_eq!(Color::try_from_hex("-1000000"), None);
    assert_eq!(Color::try_from_hex("f+000000"), None);
    assert_eq!(Color::try_from_hex("00 00000"), None);
    assert_eq!(Color::try_from_hex("\u{e9}0000000"), None);
}

#[test]
fn color_round_trip() {
    let c = Color::from_rgba(1, 20, 255, 0);
    let mut d = Color::new(0);
    assert_eq!(d.from_lua(&c.as_lua()), Ok(()));
    assert_eq!(d, c);
}

#[test]
fn snapshot_has_four_channels() {
    let v = Color::from_rgba(1, 2, 3, 4).as_lua();
    assert_eq!(v.integer_at("r"), Some(1));
    assert_eq!(v.integer_at("g"), Some(2));
    assert_eq!(v.integer_at("b"), Some(3));
    assert_eq!(v.integer_at("a"), Some(4));
}

#[test]
fn from_lua_rejects_a_channel_out_of_range() {
    let mut c = Color::from_rgba(9, 9, 9, 9);
    let v = Variant::Table(vec![
        Variant::entry("r", Variant::Integer(256)),
        Variant::entry("g", Variant::Integer(0)),
        Variant::entry("b", Variant::Integer(0)),
        Variant::entry("a", Variant::Integer(0)),
    ]);
    assert_eq!(c.from_lua(&v), Err(EngineError::Serialization));
    let negative = Variant::Table(vec![
        Variant::entry("r", Variant::Integer(0)),
        Variant::entry("g", Variant::Integer(-1)),
        Variant::entry("b", Variant::Integer(0)),
        Variant::entry("a", Variant::Integer(0)),
    ]);
    assert_eq!(c.from_lua(&negative), Err(EngineError::Serialization));
    assert_eq!(c, Color::from_rgba(9, 9, 9, 9));
}

#[test]
fn from_lua_rejects_a_missing_channel() {
    let mut c = Color::new(0);
    let v = Variant::Table(vec![
        Variant::entry("r", Variant::Integer(1)),
        Variant::entry("g", Variant::Integer(1)),
        Variant::entry("b", Variant::Integer(1)),
    ]);
    assert_eq!(c.from_lua(&v), Err(EngineError::Serialization));
    assert_eq!(Color::decode(&Variant::Boolean(true)), Err(EngineError::Serialization));
}
