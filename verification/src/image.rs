//! Image descriptors: which texture to draw and how.

use vstd::prelude::*;
use vstd::string::StringExecFns;
use crate::color::lemma_color_round_trip;
use crate::color::Color;
use crate::error::EngineError;
use crate::scalar::Scalar;
use crate::scalar::ZERO_BITS;
use crate::variant::lemma_pairs_view;
use crate::variant::pairs_view;
use crate::variant::Dynamic;
use crate::variant::Variant;
use crate::vec2::lemma_vec2_round_trip;
use crate::vec2::Vec2;

verus! {

/// How a texture is drawn.
#[derive(Debug, PartialEq)]
pub struct Img {
    /// The path of the texture.
    pub texture: String,
    /// The rotation in radians.
    pub rotation: Scalar,
    /// The corner of the part of the texture that is drawn; the whole texture where absent.
    pub src: Option<Vec2>,
    pub tint: Color,
    pub flip_x: bool,
    pub flip_y: bool,
}

/// The model of an image descriptor.
pub struct ImgView {
    pub texture: Seq<char>,
    pub rotation: Scalar,
    pub src: Option<Vec2>,
    pub tint: Color,
    pub flip_x: bool,
    pub flip_y: bool,
}

impl View for Img {
    type V = ImgView;

    open spec fn view(&self) -> ImgView {
        ImgView {
            texture: self.texture@,
            rotation: self.rotation,
            src: self.src,
            tint: self.tint,
            flip_x: self.flip_x,
            flip_y: self.flip_y,
        }
    }
}

/// The source corner that a dynamic value describes: a vector where it is a table, none
/// for anything else.
pub open spec fn decoded_source(v: Dynamic) -> Result<Option<Vec2>, EngineError> {
    if v is Table {
        match Vec2::decoded(v) {
            Ok(p) => Ok(Some(p)),
            Err(e) => Err(e),
        }
    } else {
        Ok(None)
    }
}

impl ImgView {
    /// What scripts see of the descriptor.  An absent source corner is `Nil`.
    pub open spec fn snapshot(self) -> Dynamic {
        Dynamic::Table(
            seq![
                Dynamic::pair("texture"@, Dynamic::Str(self.texture)),
                Dynamic::pair("rotation"@, Dynamic::Number(self.rotation)),
                Dynamic::pair(
                    "src"@,
                    match self.src {
                        Some(p) => p.snapshot(),
                        None => Dynamic::Nil,
                    },
                ),
                Dynamic::pair("tint"@, self.tint.snapshot()),
                Dynamic::pair("flip_x"@, Dynamic::Boolean(self.flip_x)),
                Dynamic::pair("flip_y"@, Dynamic::Boolean(self.flip_y)),
            ],
        )
    }

    /// The descriptor that a dynamic value describes.
    pub open spec fn decoded(v: Dynamic) -> Result<ImgView, EngineError> {
        if !(v is Table) {
            Err(EngineError::Serialization)
        } else {
            match (
                v.field("texture"@).as_text(),
                v.field("rotation"@).as_number(),
                decoded_source(v.field("src"@)),
                Color::decoded(v.field("tint"@)),
                v.field("flip_x"@).as_boolean(),
                v.field("flip_y"@).as_boolean(),
            ) {
                (Some(texture), Some(rotation), Ok(src), Ok(tint), Some(flip_x), Some(flip_y)) => Ok(
                    ImgView { texture, rotation, src, tint, flip_x, flip_y },
                ),
                _ => Err(EngineError::Serialization),
            }
        }
    }
}

impl Img {
    /// The whole texture at `path`, drawn upright and untinted.
    pub fn new(path: &str) -> (img: Img)
        ensures
            img@ == (ImgView {
                texture: path@,
                rotation: Scalar { bits: ZERO_BITS },
                src: None,
                tint: Color { r: 255, g: 255, b: 255, a: 255 },
                flip_x: false,
                flip_y: false,
            }),
    {
        Img {
            texture: String::from_str(path),
            rotation: Scalar::zero(),
            src: None,
            tint: Color::from_rgba(255, 255, 255, 255),
            flip_x: false,
            flip_y: false,
        }
    }

    /// The same image, rotated by `radians`.
    pub fn with_radians(self, radians: Scalar) -> (img: Img)
        ensures
            img@ == (ImgView { rotation: radians, ..self@ }),
    {
        let mut img = self;
        img.rotation = radians;
        img
    }

    /// The same image, drawing the part of the texture whose corner is `pos`.
    pub fn section(self, pos: Vec2) -> (img: Img)
        ensures
            img@ == (ImgView { src: Some(pos), ..self@ }),
    {
        let mut img = self;
        img.src = Some(pos);
        img
    }

    /// The same image, mirrored as given.
    pub fn flip(self, x: bool, y: bool) -> (img: Img)
        ensures
            img@ == (ImgView { flip_x: x, flip_y: y, ..self@ }),
    {
        let mut img = self;
        img.flip_x = x;
        img.flip_y = y;
        img
    }

    /// The same image, tinted with `col`.
    pub fn tint(self, col: Color) -> (img: Img)
        ensures
            img@ == (ImgView { tint: col, ..self@ }),
    {
        let mut img = self;
        img.tint = col;
        img
    }

    /// The snapshot of the descriptor.
    pub fn as_lua(&self) -> (v: Variant)
        ensures
            v@ == self@.snapshot(),
    {
        let mut entries: Vec<(Variant, Variant)> = Vec::new();
        entries.push(Variant::entry("texture", Variant::text(self.texture.as_str())));
        entries.push(Variant::entry("rotation", Variant::Number(self.rotation)));
        let src = match self.src {
            Some(p) => p.as_lua(),
            None => Variant::Nil,
        };
        entries.push(Variant::entry("src", src));
        entries.push(Variant::entry("tint", self.tint.as_lua()));
        entries.push(Variant::entry("flip_x", Variant::Boolean(self.flip_x)));
        entries.push(Variant::entry("flip_y", Variant::Boolean(self.flip_y)));
        proof {
            lemma_pairs_view(entries@);
            assert(pairs_view(entries@) =~= self@.snapshot().entries());
        }
        Variant::table(entries)
    }

    /// What `value` describes.
    pub fn decode(value: &Variant) -> (r: Result<Img, EngineError>)
        ensures
            match ImgView::decoded(value@) {
                Ok(n) => r is Ok && r->Ok_0@ == n,
                Err(e) => r == Err::<Img, EngineError>(e),
            },
    {
        let mut img = Img::new("");
        match img.from_lua(value) {
            Ok(()) => Ok(img),
            Err(e) => Err(e),
        }
    }

    /// Overwrites the descriptor with what `value` describes, or leaves it as it is where
    /// `value` does not describe one.
    pub fn from_lua(&mut self, value: &Variant) -> (r: Result<(), EngineError>)
        ensures
            match ImgView::decoded(value@) {
                Ok(n) => r == Ok::<(), EngineError>(()) && final(self)@ == n,
                Err(e) => r == Err::<(), EngineError>(e) && *final(self) == *old(self),
            },
    {
        if !value.is_table() {
            return Err(EngineError::Serialization);
        }
        let texture = value.text_at("texture");
        let rotation = value.number_at("rotation");
        let mut corner = Vec2::zero();
        let src: Result<Option<Vec2>, EngineError> = match value.field("src") {
            Some(v) => if v.is_table() {
                match corner.from_lua(v) {
                    Ok(()) => Ok(Some(corner)),
                    Err(e) => Err(e),
                }
            } else {
                Ok(None)
            },
            None => Ok(None),
        };
        let mut tint = self.tint;
        let got_tint = match value.field("tint") {
            Some(v) => tint.from_lua(v).is_ok(),
            None => false,
        };
        let flip_x = value.boolean_at("flip_x");
        let flip_y = value.boolean_at("flip_y");
        match (texture, rotation, src, got_tint, flip_x, flip_y) {
            (Some(texture), Some(rotation), Ok(src), true, Some(flip_x), Some(flip_y)) => {
                self.texture = String::from_str(texture);
                self.rotation = rotation;
                self.src = src;
                self.tint = tint;
                self.flip_x = flip_x;
                self.flip_y = flip_y;
                Ok(())
            },
            _ => Err(EngineError::Serialization),
        }
    }
}

/// An image descriptor is read back from its own snapshot.
pub proof fn lemma_img_round_trip(img: ImgView)
    ensures
        ImgView::decoded(img.snapshot()) == Ok::<ImgView, EngineError>(img),
{
    reveal_strlit("texture");
    reveal_strlit("rotation");
    reveal_strlit("src");
    reveal_strlit("tint");
    reveal_strlit("flip_x");
    reveal_strlit("flip_y");
    reveal_with_fuel(Dynamic::find, 7);
    assert("texture"@.len() == 7 && "rotation"@.len() == 8 && "src"@.len() == 3 && "tint"@.len()
        == 4 && "flip_x"@.len() == 6 && "flip_y"@.len() == 6);
    assert("flip_x"@[5] != "flip_y"@[5]);
    lemma_color_round_trip(img.tint);
    match img.src {
        Some(p) => {
            lemma_vec2_round_trip(p);
        },
        None => {},
    }
}

} // verus!
