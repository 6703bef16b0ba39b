//! Colours with four 8-bit channels.

use vstd::prelude::*;
use crate::error::EngineError;
use crate::variant::lemma_pairs_view;
use crate::variant::pairs_view;
use crate::variant::Dynamic;
use crate::variant::Variant;

verus! {

/// Red, green, blue and alpha, each from 0 to 255.
#[derive(Debug, Clone, Copy, PartialEq, Eq, Structural)]
pub struct Color {
    pub r: u8,
    pub g: u8,
    pub b: u8,
    pub a: u8,
}

/// The value of a hexadecimal digit, if `c` is one.
pub open spec fn hex_digit(c: char) -> Option<int> {
    if '0' <= c <= '9' {
        Some(c as int - '0' as int)
    } else if 'a' <= c <= 'f' {
        Some(c as int - 'a' as int + 10)
    } else if 'A' <= c <= 'F' {
        Some(c as int - 'A' as int + 10)
    } else {
        None
    }
}

/// The value of a two-character channel: two hexadecimal digits, or a plus sign and one digit.
pub open spec fn channel(hi: char, lo: char) -> Option<int> {
    match (hex_digit(hi), hex_digit(lo)) {
        (Some(h), Some(l)) => Some(16 * h + l),
        (None, Some(l)) => if hi == '+' {
            Some(l)
        } else {
            None
        },
        _ => None,
    }
}

/// The first eight characters of `s`, with `'0'` appended where `s` is shorter.
pub open spec fn eight(s: Seq<char>) -> Seq<char> {
    Seq::new(
        8,
        |i: int|
            if i < s.len() {
                s[i]
            } else {
                '0'
            },
    )
}

/// The colour that a text of hexadecimal channels denotes, in the order alpha, red, green,
/// blue; `None` where a channel is not hexadecimal.
pub open spec fn parse_hex(s: Seq<char>) -> Option<Color> {
    let t = eight(s);
    match (channel(t[0], t[1]), channel(t[2], t[3]), channel(t[4], t[5]), channel(t[6], t[7])) {
        (Some(a), Some(r), Some(g), Some(b)) => Some(
            Color { r: r as u8, g: g as u8, b: b as u8, a: a as u8 },
        ),
        _ => None,
    }
}

fn digit_of(c: char) -> (d: Option<u8>)
    ensures
        match d {
            Some(v) => hex_digit(c) == Some(v as int) && v < 16,
            None => hex_digit(c) is None,
        },
{
    if '0' <= c && c <= '9' {
        Some((c as u32 - '0' as u32) as u8)
    } else if 'a' <= c && c <= 'f' {
        Some((c as u32 - 'a' as u32 + 10) as u8)
    } else if 'A' <= c && c <= 'F' {
        Some((c as u32 - 'A' as u32 + 10) as u8)
    } else {
        None
    }
}

fn channel_of(hi: char, lo: char) -> (v: Option<u8>)
    ensures
        match v {
            Some(x) => channel(hi, lo) == Some(x as int),
            None => channel(hi, lo) is None,
        },
{
    match digit_of(lo) {
        None => None,
        Some(l) => match digit_of(hi) {
            Some(h) => Some(16 * h + l),
            None => if hi == '+' {
                Some(l)
            } else {
                None
            },
        },
    }
}

impl Color {
    /// The colour packed in `hex` as `0xAARRGGBB`.
    pub fn new(hex: u32) -> (c: Color)
        ensures
            hex == c.a * 0x100_0000 + c.r * 0x1_0000 + c.g * 0x100 + c.b,
    {
        let a: u32 = (hex & 0xFF00_0000) >> 24;
        let r: u32 = (hex & 0x00FF_0000) >> 16;
        let g: u32 = (hex & 0x0000_FF00) >> 8;
        let b: u32 = hex & 0x0000_00FF;
        assert(a < 256 && r < 256 && g < 256 && b < 256 && hex == a * 0x100_0000 + r * 0x1_0000 + g
            * 0x100 + b) by (bit_vector)
            requires
                a == (hex & 0xFF00_0000) >> 24,
                r == (hex & 0x00FF_0000) >> 16,
                g == (hex & 0x0000_FF00) >> 8,
                b == hex & 0x0000_00FF,
        ;
        Color { r: r as u8, g: g as u8, b: b as u8, a: a as u8 }
    }

    /// The colour of the four channels.
    pub fn from_rgba(r: u8, g: u8, b: u8, a: u8) -> (c: Color)
        ensures
            c == (Color { r, g, b, a }),
    {
        Color { r, g, b, a }
    }

    /// An opaque colour.
    pub fn from_rgb(r: u8, g: u8, b: u8) -> (c: Color)
        ensures
            c == (Color { r, g, b, a: 255 }),
    {
        Color::from_rgba(r, g, b, 255)
    }

    /// The colour written as `AARRGGBB`, or `None` where that text is not hexadecimal.
    ///
    /// A text longer than eight characters counts up to the eighth; a shorter one counts as
    /// if zeros followed it.
    pub fn try_from_hex(hex: &str) -> (c: Option<Color>)
        ensures
            c == parse_hex(hex@),
    {
        let n = hex.unicode_len();
        let mut chars: [char; 8] = ['0', '0', '0', '0', '0', '0', '0', '0'];
        let mut i: usize = 0;
        while i < 8 && i < n
            invariant
                i <= 8,
                i <= n,
                chars@.len() == 8,
                n == hex@.len(),
                forall|j: int| 0 <= j < i ==> chars@[j] == hex@[j],
                forall|j: int| i <= j < 8 ==> chars@[j] == '0',
            decreases 8 - i,
        {
            chars[i] = hex.get_char(i);
            i += 1;
        }
        assert(chars@ =~= eight(hex@));
        let a = channel_of(chars[0], chars[1]);
        let r = channel_of(chars[2], chars[3]);
        let g = channel_of(chars[4], chars[5]);
        let b = channel_of(chars[6], chars[7]);
        match (a, r, g, b) {
            (Some(a), Some(r), Some(g), Some(b)) => Some(Color { r, g, b, a }),
            _ => None,
        }
    }

    /// The colour written as `AARRGGBB`.
    pub fn from_hex(hex: &str) -> (c: Color)
        requires
            parse_hex(hex@) is Some,
        ensures
            parse_hex(hex@) == Some(c),
    {
        match Color::try_from_hex(hex) {
            Some(c) => c,
            None => Color { r: 0, g: 0, b: 0, a: 0 },
        }
    }

    /// The red channel.
    pub fn get_r(&self) -> (v: u8)
        ensures
            v == self.r,
    {
        self.r
    }

    /// The green channel.
    pub fn get_g(&self) -> (v: u8)
        ensures
            v == self.g,
    {
        self.g
    }

    /// The blue channel.
    pub fn get_b(&self) -> (v: u8)
        ensures
            v == self.b,
    {
        self.b
    }

    /// The alpha channel.
    pub fn get_a(&self) -> (v: u8)
        ensures
            v == self.a,
    {
        self.a
    }
}

/// The channel that a dynamic value is: an integer from 0 to 255.
pub open spec fn channel_value(v: Dynamic) -> Option<u8> {
    match v.as_integer() {
        Some(i) => if 0 <= i <= 255 {
            Some(i as u8)
        } else {
            None
        },
        None => None,
    }
}

fn channel_at(value: &Variant, key: &str) -> (r: Option<u8>)
    ensures
        r == channel_value(value@.field(key@)),
{
    match value.integer_at(key) {
        Some(i) => if 0 <= i && i <= 255 {
            Some(i as u8)
        } else {
            None
        },
        None => None,
    }
}

impl Color {
    /// What scripts see of the colour: its four channels.
    pub open spec fn snapshot(self) -> Dynamic {
        Dynamic::Table(
            seq![
                Dynamic::pair("r"@, Dynamic::Integer(self.r as i64)),
                Dynamic::pair("g"@, Dynamic::Integer(self.g as i64)),
                Dynamic::pair("b"@, Dynamic::Integer(self.b as i64)),
                Dynamic::pair("a"@, Dynamic::Integer(self.a as i64)),
            ],
        )
    }

    /// The colour that a dynamic value describes: a table with a channel under each of `r`,
    /// `g`, `b` and `a`.
    pub open spec fn decoded(v: Dynamic) -> Result<Color, EngineError> {
        if !(v is Table) {
            Err(EngineError::Serialization)
        } else {
            match (
                channel_value(v.field("r"@)),
                channel_value(v.field("g"@)),
                channel_value(v.field("b"@)),
                channel_value(v.field("a"@)),
            ) {
                (Some(r), Some(g), Some(b), Some(a)) => Ok(Color { r, g, b, a }),
                _ => Err(EngineError::Serialization),
            }
        }
    }

    /// The snapshot of the colour.
    pub fn as_lua(&self) -> (v: Variant)
        ensures
            v@ == self.snapshot(),
    {
        let mut entries: Vec<(Variant, Variant)> = Vec::new();
        entries.push(Variant::entry("r", Variant::Integer(self.r as i64)));
        entries.push(Variant::entry("g", Variant::Integer(self.g as i64)));
        entries.push(Variant::entry("b", Variant::Integer(self.b as i64)));
        entries.push(Variant::entry("a", Variant::Integer(self.a as i64)));
        proof {
            lemma_pairs_view(entries@);
            assert(pairs_view(entries@) =~= self.snapshot().entries());
        }
        Variant::table(entries)
    }

    /// What `value` describes.
    pub fn decode(value: &Variant) -> (r: Result<Color, EngineError>)
        ensures
            r == Color::decoded(value@),
    {
        let mut v = Color { r: 0, g: 0, b: 0, a: 0 };
        match v.from_lua(value) {
            Ok(()) => Ok(v),
            Err(e) => Err(e),
        }
    }

    /// Overwrites the colour with what `value` describes, or leaves it as it is where
    /// `value` does not describe a colour.
    pub fn from_lua(&mut self, value: &Variant) -> (r: Result<(), EngineError>)
        ensures
            match Color::decoded(value@) {
                Ok(n) => r == Ok::<(), EngineError>(()) && *final(self) == n,
                Err(e) => r == Err::<(), EngineError>(e) && *final(self) == *old(self),
            },
    {
        if !value.is_table() {
            return Err(EngineError::Serialization);
        }
        match (
            channel_at(value, "r"),
            channel_at(value, "g"),
            channel_at(value, "b"),
            channel_at(value, "a"),
        ) {
            (Some(r), Some(g), Some(b), Some(a)) => {
                self.r = r;
                self.g = g;
                self.b = b;
                self.a = a;
                Ok(())
            },
            _ => Err(EngineError::Serialization),
        }
    }
}

/// A colour is read back from its own snapshot.
pub proof fn lemma_color_round_trip(c: Color)
    ensures
        Color::decoded(c.snapshot()) == Ok::<Color, EngineError>(c),
{
    reveal_strlit("r");
    reveal_strlit("g");
    reveal_strlit("b");
    reveal_strlit("a");
    reveal_with_fuel(Dynamic::find, 5);
    assert("r"@[0] != "g"@[0] && "r"@[0] != "b"@[0] && "r"@[0] != "a"@[0]);
    assert("g"@[0] != "b"@[0] && "g"@[0] != "a"@[0] && "b"@[0] != "a"@[0]);
}

} // verus!
