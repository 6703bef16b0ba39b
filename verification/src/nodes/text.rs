//! A line of text.

use vstd::prelude::*;
use crate::error::EngineError;
use crate::kind::Kind;
use crate::nodelike::IdCounter;
use crate::nodes::node::Node;
use crate::variant::both;
use crate::variant::decodes;
use crate::variant::lemma_pairs_view;
use crate::variant::pairs_view;
use crate::variant::present;
use crate::variant::Dynamic;
use crate::variant::Intrinsic;
use crate::variant::Variant;
use vstd::string::StringExecFns;
use crate::color::Color;
use crate::scalar::Scalar;
use crate::scalar::ONE_BITS;
use crate::scalar::ZERO_BITS;
use crate::text::same_text;
use crate::vec2::Vec2;

verus! {

/// Text drawn at a place, in a font of the host or in its default font.
pub struct Text {
    pub base: Node,
    pub text: String,
    pub pos: Vec2,
    pub scale: Scalar,
    pub aspect: Scalar,
    pub font_size: u16,
    /// The path of the font file; the host's default font where absent.
    pub font_path: Option<String>,
    /// Whether the font path has changed since the host last loaded the font.
    pub font_stale: bool,
    /// The extent of the text on screen as the host last measured it.  It is no part of
    /// the snapshot.
    pub measured: Vec2,
    pub rotation: Scalar,
    pub color: Color,
}

/// The font size that a dynamic value is: an integer from 0 to 65535.
pub open spec fn font_size_value(v: Dynamic) -> Option<u16> {
    match v.as_integer() {
        Some(i) => if 0 <= i <= 0xffff {
            Some(i as u16)
        } else {
            None
        },
        None => None,
    }
}

fn font_size_at(value: &Variant, key: &str) -> (r: Option<u16>)
    ensures
        r == font_size_value(value@.field(key@)),
{
    match value.integer_at(key) {
        Some(i) => if 0 <= i && i <= 0xffff {
            Some(i as u16)
        } else {
            None
        },
        None => None,
    }
}

impl Text {
    /// The text `text` at `pos` in size `size` and colour `color`, in the default font,
    /// not scaled and not rotated.
    pub fn new(text: &str, pos: Vec2, size: u16, color: Color, ids: &mut IdCounter) -> (t: Text)
        requires
            old(ids).remaining() >= 1,
        ensures
            t.base.is_fresh(old(ids).nth(0)),
            *final(ids) == old(ids).after(1),
            t.text@ == text@,
            t.pos == pos,
            t.scale.bits == ONE_BITS,
            t.aspect.bits == ONE_BITS,
            t.font_size == size,
            t.font_path is None,
            !t.font_stale,
            t.measured == (Vec2 { x: 0, y: 0 }),
            t.rotation.bits == ZERO_BITS,
            t.color == color,
    {
        Text {
            base: Node::new(ids),
            text: String::from_str(text),
            pos,
            scale: Scalar::one(),
            aspect: Scalar::one(),
            font_size: size,
            font_path: None,
            font_stale: false,
            measured: Vec2::zero(),
            rotation: Scalar::zero(),
            color,
        }
    }

    /// The name of the entity's kind.
    pub fn get_kind(&self) -> (name: &'static str)
        ensures
            name@ == Kind::Text.name_spec(),
    {
        Kind::Text.name()
    }

    /// The extent of the text on screen, as the host last measured it.
    #[allow(non_snake_case)]
    pub fn getTextSize(&self) -> (size: Vec2)
        ensures
            size == self.measured,
    {
        self.measured
    }

    /// Records what the host measured.
    pub fn set_measured(&mut self, size: Vec2)
        ensures
            *final(self) == (Text { measured: size, ..*old(self) }),
    {
        self.measured = size;
    }

    /// Records that the host has loaded the font at the present path.
    pub fn font_loaded(&mut self)
        ensures
            *final(self) == (Text { font_stale: false, ..*old(self) }),
    {
        self.font_stale = false;
    }

    /// The font path as scripts see it: empty for the default font.
    pub open spec fn font_text(&self) -> Seq<char> {
        match self.font_path {
            Some(p) => p@,
            None => Seq::empty(),
        }
    }

    /// Whether `after` is the text after a frame's native update.
    pub open spec fn updated(&self, after: &Text) -> bool
        decreases self, 0nat,
    {
        &&& self.base.updated(&after.base)
        &&& *after == (Text { base: after.base, ..*self })
    }

    /// The native part of a frame.
    pub fn update(&mut self, deltatime: Scalar)
        ensures
            old(self).updated(final(self)),
        decreases *old(self),
    {
        self.base.update(deltatime);
    }

    /// Runs the top level of every queued script of the text, see
    /// [`Node::load_scripts`].
    pub fn load_scripts(&mut self, lua: &mlua::Lua) -> (r: Result<(), EngineError>)
        requires
            old(self).base.scripts.within(*lua),
        ensures
            final(self).base.scripts.within(*lua),
            *final(self) == (Text { base: final(self).base, ..*old(self) }),
            final(self).base.id == old(self).base.id,
            final(self).base.children == old(self).base.children,
            final(self).base.scripts.pending() == Seq::<Seq<char>>::empty(),
            old(self).base.scripts.pending().len() == 0 ==> r is Ok,
            match r {
                Ok(()) => final(self).base.scripts.live() == Some(
                    old(self).base.scripts.pending(),
                ),
                Err(e) => (e == EngineError::ScriptCompile || e == EngineError::ScriptRuntime)
                    && final(self).base.scripts.live() == old(self).base.scripts.live(),
            },
    {
        self.base.load_scripts(lua)
    }

    /// What scripts see of the text.
    pub open spec fn snapshot(&self) -> Dynamic
        decreases self, 0nat,
    {
        Dynamic::Table(
            seq![
                Dynamic::pair("base"@, self.base.snapshot()),
                Dynamic::pair("text"@, Dynamic::Str(self.text@)),
                Dynamic::pair("pos"@, self.pos.snapshot()),
                Dynamic::pair("scale"@, Dynamic::Number(self.scale)),
                Dynamic::pair("aspect"@, Dynamic::Number(self.aspect)),
                Dynamic::pair("font_size"@, Dynamic::Integer(self.font_size as i64)),
                Dynamic::pair("rotation"@, Dynamic::Number(self.rotation)),
                Dynamic::pair("color"@, self.color.snapshot()),
                Dynamic::pair("font"@, Dynamic::Str(self.font_text())),
                Dynamic::pair("dimensions"@, Dynamic::Function(Intrinsic::Dimensions)),
                Dynamic::pair("kind"@, Dynamic::Function(Intrinsic::Kind(Kind::Text))),
            ],
        )
    }

    /// Whether the text can be merged with `v`, and if not, why not: the first of what its
    /// base and then its fields, in the order `text`, `pos`, `scale`, `aspect`,
    /// `font_size`, `font`, `rotation`, `color`, object to.
    pub open spec fn accepts(&self, v: Dynamic) -> Result<(), EngineError>
        decreases self, 0nat,
    {
        if !(v is Table) {
            Err(EngineError::Serialization)
        } else {
            both(
                self.base.accepts(v.field("base"@)),
                both(
                    present(v.field("text"@).as_text()),
                    both(
                        decodes(Vec2::decoded(v.field("pos"@))),
                        both(
                            present(v.field("scale"@).as_number()),
                            both(
                                present(v.field("aspect"@).as_number()),
                                both(
                                    present(font_size_value(v.field("font_size"@))),
                                    both(
                                        present(v.field("font"@).as_text()),
                                        both(
                                            present(v.field("rotation"@).as_number()),
                                            decodes(Color::decoded(v.field("color"@))),
                                        ),
                                    ),
                                ),
                            ),
                        ),
                    ),
                ),
            )
        }
    }

    /// Whether `after` is the text merged with `v`.
    ///
    /// An empty `font` stands for the default font.  The font is stale afterwards if it
    /// was stale before or the path has changed.  What the host measured stays.
    pub open spec fn merged(&self, v: Dynamic, after: &Text) -> bool
        decreases self, 0nat,
    {
        &&& self.base.merged(v.field("base"@), &after.base)
        &&& v.field("text"@).as_text() == Some(after.text@)
        &&& Vec2::decoded(v.field("pos"@)) == Ok::<Vec2, EngineError>(after.pos)
        &&& v.field("scale"@).as_number() == Some(after.scale)
        &&& v.field("aspect"@).as_number() == Some(after.aspect)
        &&& font_size_value(v.field("font_size"@)) == Some(after.font_size)
        &&& v.field("font"@).as_text() == Some(after.font_text())
        &&& after.font_path is Some ==> after.font_text().len() > 0
        &&& after.font_stale == (self.font_stale || after.font_text() != self.font_text())
        &&& v.field("rotation"@).as_number() == Some(after.rotation)
        &&& Color::decoded(v.field("color"@)) == Ok::<Color, EngineError>(after.color)
        &&& after.measured == self.measured
    }

    /// The snapshot of the text.
    pub fn as_lua(&self) -> (v: Variant)
        ensures
            v@ == self.snapshot(),
        decreases self,
    {
        let mut entries: Vec<(Variant, Variant)> = Vec::new();
        entries.push(Variant::entry("base", self.base.as_lua()));
        entries.push(Variant::entry("text", Variant::text(self.text.as_str())));
        entries.push(Variant::entry("pos", self.pos.as_lua()));
        entries.push(Variant::entry("scale", Variant::Number(self.scale)));
        entries.push(Variant::entry("aspect", Variant::Number(self.aspect)));
        entries.push(Variant::entry("font_size", Variant::Integer(self.font_size as i64)));
        entries.push(Variant::entry("rotation", Variant::Number(self.rotation)));
        entries.push(Variant::entry("color", self.color.as_lua()));
        let font = match &self.font_path {
            Some(p) => Variant::text(p.as_str()),
            None => Variant::Str(String::new()),
        };
        entries.push(Variant::entry("font", font));
        entries.push(Variant::entry("dimensions", Variant::Function(Intrinsic::Dimensions)));
        entries.push(Variant::entry("kind", Variant::Function(Intrinsic::Kind(Kind::Text))));
        proof {
            lemma_pairs_view(entries@);
            assert(pairs_view(entries@) =~= self.snapshot().entries());
        }
        Variant::table(entries)
    }

    /// Whether the text can be merged with `value`; nothing is changed.
    pub fn check(&self, value: &Variant) -> (r: Result<(), EngineError>)
        ensures
            r == self.accepts(value@),
        decreases self,
    {
        if !value.is_table() {
            return Err(EngineError::Serialization);
        }
        match self.base.check(value.part("base")) {
            Ok(()) => {},
            Err(e) => {
                return Err(e);
            },
        }
        if value.text_at("text").is_none() {
            return Err(EngineError::Serialization);
        }
        match Vec2::decode(value.part("pos")) {
            Ok(_) => {},
            Err(e) => {
                return Err(e);
            },
        }
        if value.number_at("scale").is_none() {
            return Err(EngineError::Serialization);
        }
        if value.number_at("aspect").is_none() {
            return Err(EngineError::Serialization);
        }
        if font_size_at(value, "font_size").is_none() {
            return Err(EngineError::Serialization);
        }
        if value.text_at("font").is_none() {
            return Err(EngineError::Serialization);
        }
        if value.number_at("rotation").is_none() {
            return Err(EngineError::Serialization);
        }
        match Color::decode(value.part("color")) {
            Ok(_) => Ok(()),
            Err(e) => Err(e),
        }
    }

    /// Merges the text with `value`, which it accepts.
    pub fn apply(&mut self, value: &Variant)
        requires
            old(self).accepts(value@) is Ok,
        ensures
            old(self).merged(value@, final(self)),
        decreases *old(self),
    {
        self.base.apply(value.part("base"));
        match value.text_at("text") {
            Some(text) => {
                self.text = String::from_str(text);
            },
            None => {},
        }
        let _ = self.pos.from_lua(value.part("pos"));
        match value.number_at("scale") {
            Some(scale) => {
                self.scale = scale;
            },
            None => {},
        }
        match value.number_at("aspect") {
            Some(aspect) => {
                self.aspect = aspect;
            },
            None => {},
        }
        match font_size_at(value, "font_size") {
            Some(size) => {
                self.font_size = size;
            },
            None => {},
        }
        match value.text_at("font") {
            Some(font) => {
                let same = match &self.font_path {
                    Some(p) => same_text(p.as_str(), font),
                    None => font.unicode_len() == 0,
                };
                if !same {
                    self.font_stale = true;
                }
                if font.unicode_len() == 0 {
                    self.font_path = None;
                } else {
                    self.font_path = Some(String::from_str(font));
                }
                assert(self.font_text() =~= font@);
            },
            None => {},
        }
        match value.number_at("rotation") {
            Some(rotation) => {
                self.rotation = rotation;
            },
            None => {},
        }
        let _ = self.color.from_lua(value.part("color"));
    }

    /// Merges the text with `value`, or leaves it as it is where it does not accept
    /// `value`.
    pub fn from_lua(&mut self, value: &Variant) -> (r: Result<(), EngineError>)
        ensures
            r == old(self).accepts(value@),
            r is Ok ==> old(self).merged(value@, final(self)),
            r is Err ==> *final(self) == *old(self),
    {
        let checked = self.check(value);
        if checked.is_ok() {
            self.apply(value);
        }
        checked
    }
}

} // verus!
