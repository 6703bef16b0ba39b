//! Buttons: a clickable area together with what is shown on it.

use vstd::prelude::*;
use crate::color::Color;
use crate::error::EngineError;
use crate::image::Img;
use crate::kind::Kind;
use crate::nodelike::IdCounter;
use crate::nodes::clickable_area::ClickableArea;
use crate::nodes::node::Node;
use crate::nodes::sprite::Sprite;
use crate::nodes::text::Text;
use crate::scalar::Scalar;
use crate::scalar::ONE_BITS;
use crate::scalar::ZERO_BITS;
use crate::transform::Transform;
use crate::variant::both;
use crate::variant::lemma_pairs_view;
use crate::variant::pairs_view;
use crate::variant::Dynamic;
use crate::variant::Intrinsic;
use crate::variant::Variant;
use crate::vec2::Vec2;

verus! {

/// A text that can be clicked.  The area covers the text as the host last measured it.
pub struct TextButton {
    pub base: Node,
    pub text: Text,
    pub area: ClickableArea,
}

/// An image that can be clicked.
pub struct SpriteButton {
    pub base: Node,
    pub sprite: Sprite,
    pub area: ClickableArea,
}

impl TextButton {
    /// A button showing `text` at `pos`, whose area has the extent `measured` that the
    /// host measured for the text.  The text is made first, then the base, then the area.
    pub fn new(
        text: &str,
        pos: Vec2,
        size: u16,
        color: Color,
        measured: Vec2,
        ids: &mut IdCounter,
    ) -> (button: TextButton)
        requires
            old(ids).remaining() >= 3,
        ensures
            button.text.base.is_fresh(old(ids).nth(0)),
            button.base.is_fresh(old(ids).nth(1)),
            button.area.base.is_fresh(old(ids).nth(2)),
            *final(ids) == old(ids).after(3),
            button.text.text@ == text@,
            button.text.pos == pos,
            button.text.scale.bits == ONE_BITS,
            button.text.aspect.bits == ONE_BITS,
            button.text.font_size == size,
            button.text.font_path is None,
            !button.text.font_stale,
            button.text.rotation.bits == ZERO_BITS,
            button.text.color == color,
            button.text.measured == measured,
            button.area.transform == (Transform {
                pos,
                size: measured,
                scale: Scalar { bits: ONE_BITS },
            }),
    {
        let mut shown = Text::new(text, pos, size, color, ids);
        shown.set_measured(measured);
        let base = Node::new(ids);
        let area = ClickableArea::new(pos, measured, ids);
        TextButton { base, text: shown, area }
    }

    /// The name of the entity's kind.
    pub fn get_kind(&self) -> (name: &'static str)
        ensures
            name@ == Kind::TextButton.name_spec(),
    {
        Kind::TextButton.name()
    }

    /// Whether `after` is the button after a frame's native update: its base, its area and
    /// its text updated, and the area as large as the text was last measured.
    pub open spec fn updated(&self, after: &TextButton) -> bool
        decreases self, 0nat,
    {
        &&& self.base.updated(&after.base)
        &&& self.text.updated(&after.text)
        &&& self.area.base.updated(&after.area.base)
        &&& after.area.transform == (Transform {
            size: self.text.measured,
            ..self.area.transform
        })
    }

    /// The native part of a frame.
    pub fn update(&mut self, deltatime: Scalar)
        ensures
            old(self).updated(final(self)),
        decreases *old(self),
    {
        self.base.update(deltatime);
        self.area.update(deltatime);
        self.text.update(deltatime);
        self.area.transform.size = self.text.getTextSize();
    }

    /// Runs the top level of every queued script of the button's base, then of its area,
    /// then of its text; stops at the first script that fails.
    pub fn load_scripts(&mut self, lua: &mlua::Lua) -> (r: Result<(), EngineError>)
        requires
            old(self).base.scripts.within(*lua),
            old(self).area.base.scripts.within(*lua),
            old(self).text.base.scripts.within(*lua),
        ensures
            final(self).base.scripts.within(*lua),
            final(self).area.base.scripts.within(*lua),
            final(self).text.base.scripts.within(*lua),
            r is Err ==> (r->Err_0 == EngineError::ScriptCompile || r->Err_0
                == EngineError::ScriptRuntime),
            final(self).base.id == old(self).base.id,
            final(self).base.children == old(self).base.children,
            final(self).base.scripts.pending() == Seq::<Seq<char>>::empty(),
            r is Ok ==> {
                &&& final(self).base.scripts.live() == Some(old(self).base.scripts.pending())
                &&& final(self).area.base.scripts.live() == Some(
                    old(self).area.base.scripts.pending(),
                )
                &&& final(self).text.base.scripts.live() == Some(
                    old(self).text.base.scripts.pending(),
                )
            },
            old(self).base.scripts.pending().len() == 0 && old(self).area.base.scripts.pending().len()
                == 0 && old(self).text.base.scripts.pending().len() == 0 ==> r is Ok,
    {
        match self.base.load_scripts(lua) {
            Ok(()) => {},
            Err(e) => {
                return Err(e);
            },
        }
        match self.area.load_scripts(lua) {
            Ok(()) => {},
            Err(e) => {
                return Err(e);
            },
        }
        self.text.load_scripts(lua)
    }

    /// What scripts see of the button.
    pub open spec fn snapshot(&self) -> Dynamic
        decreases self, 0nat,
    {
        Dynamic::Table(
            seq![
                Dynamic::pair("base"@, self.base.snapshot()),
                Dynamic::pair("area"@, self.area.snapshot()),
                Dynamic::pair("text"@, self.text.snapshot()),
                Dynamic::pair("kind"@, Dynamic::Function(Intrinsic::Kind(Kind::TextButton))),
            ],
        )
    }

    /// Whether the button can be merged with `v`, and if not, why not: the first of what
    /// its base, its area and its text object to.
    pub open spec fn accepts(&self, v: Dynamic) -> Result<(), EngineError>
        decreases self, 0nat,
    {
        if !(v is Table) {
            Err(EngineError::Serialization)
        } else {
            both(
                self.base.accepts(v.field("base"@)),
                both(self.area.accepts(v.field("area"@)), self.text.accepts(v.field("text"@))),
            )
        }
    }

    /// Whether `after` is the button merged with `v`.
    pub open spec fn merged(&self, v: Dynamic, after: &TextButton) -> bool
        decreases self, 0nat,
    {
        &&& self.base.merged(v.field("base"@), &after.base)
        &&& self.area.merged(v.field("area"@), &after.area)
        &&& self.text.merged(v.field("text"@), &after.text)
    }

    /// The snapshot of the button.
    pub fn as_lua(&self) -> (v: Variant)
        ensures
            v@ == self.snapshot(),
        decreases self,
    {
        let mut entries: Vec<(Variant, Variant)> = Vec::new();
        entries.push(Variant::entry("base", self.base.as_lua()));
        entries.push(Variant::entry("area", self.area.as_lua()));
        entries.push(Variant::entry("text", self.text.as_lua()));
        entries.push(Variant::entry("kind", Variant::Function(Intrinsic::Kind(Kind::TextButton))));
        proof {
            lemma_pairs_view(entries@);
            assert(pairs_view(entries@) =~= self.snapshot().entries());
        }
        Variant::table(entries)
    }

    /// Whether the button can be merged with `value`; nothing is changed.
    pub fn check(&self, value: &Variant) -> (r: Result<(), EngineError>)
        ensures
            r == self.accepts(value@),
        decreases self,
    {
        if !value.is_table() {
            return Err(EngineError::Serialization);
        }
        match self.base.check(value.part("base")) {
            Ok(()) => {},
            Err(e) => {
                return Err(e);
            },
        }
        match self.area.check(value.part("area")) {
            Ok(()) => {},
            Err(e) => {
                return Err(e);
            },
        }
        self.text.check(value.part("text"))
    }

    /// Merges the button with `value`, which it accepts.
    pub fn apply(&mut self, value: &Variant)
        requires
            old(self).accepts(value@) is Ok,
        ensures
            old(self).merged(value@, final(self)),
        decreases *old(self),
    {
        self.base.apply(value.part("base"));
        self.area.apply(value.part("area"));
        self.text.apply(value.part("text"));
    }

    /// Merges the button with `value`, or leaves it as it is where it does not accept
    /// `value`.
    pub fn from_lua(&mut self, value: &Variant) -> (r: Result<(), EngineError>)
        ensures
            r == old(self).accepts(value@),
            r is Ok ==> old(self).merged(value@, final(self)),
            r is Err ==> *final(self) == *old(self),
    {
        let checked = self.check(value);
        if checked.is_ok() {
            self.apply(value);
        }
        checked
    }
}

impl SpriteButton {
    /// A button showing `img` at `pos` in the extent `size`.  The base is made first,
    /// then the sprite, then the area.
    pub fn new(pos: Vec2, size: Vec2, img: Img, ids: &mut IdCounter) -> (button: SpriteButton)
        requires
            old(ids).remaining() >= 3,
        ensures
            button.base.is_fresh(old(ids).nth(0)),
            button.sprite.base.is_fresh(old(ids).nth(1)),
            button.area.base.is_fresh(old(ids).nth(2)),
            *final(ids) == old(ids).after(3),
            button.sprite.img == img,
            button.sprite.transform == (Transform { pos, size, scale: Scalar { bits: ONE_BITS } }),
            button.area.transform == (Transform { pos, size, scale: Scalar { bits: ONE_BITS } }),
    {
        let base = Node::new(ids);
        let sprite = Sprite::new(pos, size, img, ids);
        let area = ClickableArea::new(pos, size, ids);
        SpriteButton { base, sprite, area }
    }

    /// The name of the entity's kind.
    pub fn get_kind(&self) -> (name: &'static str)
        ensures
            name@ == Kind::SpriteButton.name_spec(),
    {
        Kind::SpriteButton.name()
    }

    /// Whether `after` is the button after a frame's native update: its base, its area and
    /// its sprite updated.
    pub open spec fn updated(&self, after: &SpriteButton) -> bool
        decreases self, 0nat,
    {
        &&& self.base.updated(&after.base)
        &&& self.area.updated(&after.area)
        &&& self.sprite.updated(&after.sprite)
    }

    /// The native part of a frame.
    pub fn update(&mut self, deltatime: Scalar)
        ensures
            old(self).updated(final(self)),
        decreases *old(self),
    {
        self.base.update(deltatime);
        self.area.update(deltatime);
        self.sprite.update(deltatime);
    }

    /// Runs the top level of every queued script of the button's base, then of its area,
    /// then of its sprite; stops at the first script that fails.
    pub fn load_scripts(&mut self, lua: &mlua::Lua) -> (r: Result<(), EngineError>)
        requires
            old(self).base.scripts.within(*lua),
            old(self).area.base.scripts.within(*lua),
            old(self).sprite.base.scripts.within(*lua),
        ensures
            final(self).base.scripts.within(*lua),
            final(self).area.base.scripts.within(*lua),
            final(self).sprite.base.scripts.within(*lua),
            r is Err ==> (r->Err_0 == EngineError::ScriptCompile || r->Err_0
                == EngineError::ScriptRuntime),
            final(self).base.id == old(self).base.id,
            final(self).base.children == old(self).base.children,
            final(self).base.scripts.pending() == Seq::<Seq<char>>::empty(),
            r is Ok ==> {
                &&& final(self).base.scripts.live() == Some(old(self).base.scripts.pending())
                &&& final(self).area.base.scripts.live() == Some(
                    old(self).area.base.scripts.pending(),
                )
                &&& final(self).sprite.base.scripts.live() == Some(
                    old(self).sprite.base.scripts.pending(),
                )
            },
            old(self).base.scripts.pending().len() == 0 && old(self).area.base.scripts.pending().len()
                == 0 && old(self).sprite.base.scripts.pending().len() == 0 ==> r is Ok,
    {
        match self.base.load_scripts(lua) {
            Ok(()) => {},
            Err(e) => {
                return Err(e);
            },
        }
        match self.area.load_scripts(lua) {
            Ok(()) => {},
            Err(e) => {
                return Err(e);
            },
        }
        self.sprite.load_scripts(lua)
    }

    /// What scripts see of the button.
    pub open spec fn snapshot(&self) -> Dynamic
        decreases self, 0nat,
    {
        Dynamic::Table(
            seq![
                Dynamic::pair("base"@, self.base.snapshot()),
                Dynamic::pair("area"@, self.area.snapshot()),
                Dynamic::pair("sprite"@, self.sprite.snapshot()),
                Dynamic::pair("kind"@, Dynamic::Function(Intrinsic::Kind(Kind::SpriteButton))),
            ],
        )
    }

    /// Whether the button can be merged with `v`, and if not, why not: the first of what
    /// its base, its area and its sprite object to.
    pub open spec fn accepts(&self, v: Dynamic) -> Result<(), EngineError>
        decreases self, 0nat,
    {
        if !(v is Table) {
            Err(EngineError::Serialization)
        } else {
            both(
                self.base.accepts(v.field("base"@)),
                both(
                    self.area.accepts(v.field("area"@)),
                    self.sprite.accepts(v.field("sprite"@)),
                ),
            )
        }
    }

    /// Whether `after` is the button merged with `v`.
    pub open spec fn merged(&self, v: Dynamic, after: &SpriteButton) -> bool
        decreases self, 0nat,
    {
        &&& self.base.merged(v.field("base"@), &after.base)
        &&& self.area.merged(v.field("area"@), &after.area)
        &&& self.sprite.merged(v.field("sprite"@), &after.sprite)
    }

    /// The snapshot of the button.
    pub fn as_lua(&self) -> (v: Variant)
        ensures
            v@ == self.snapshot(),
        decreases self,
    {
        let mut entries: Vec<(Variant, Variant)> = Vec::new();
        entries.push(Variant::entry("base", self.base.as_lua()));
        entries.push(Variant::entry("area", self.area.as_lua()));
        entries.push(Variant::entry("sprite", self.sprite.as_lua()));
        entries.push(
            Variant::entry("kind", Variant::Function(Intrinsic::Kind(Kind::SpriteButton))),
        );
        proof {
            lemma_pairs_view(entries@);
            assert(pairs_view(entries@) =~= self.snapshot().entries());
        }
        Variant::table(entries)
    }

    /// Whether the button can be merged with `value`; nothing is changed.
    pub fn check(&self, value: &Variant) -> (r: Result<(), EngineError>)
        ensures
            r == self.accepts(value@),
        decreases self,
    {
        if !value.is_table() {
            return Err(EngineError::Serialization);
        }
        match self.base.check(value.part("base")) {
            Ok(()) => {},
            Err(e) => {
                return Err(e);
            },
        }
        match self.area.check(value.part("area")) {
            Ok(()) => {},
            Err(e) => {
                return Err(e);
            },
        }
        self.sprite.check(value.part("sprite"))
    }

    /// Merges the button with `value`, which it accepts.
    pub fn apply(&mut self, value: &Variant)
        requires
            old(self).accepts(value@) is Ok,
        ensures
            old(self).merged(value@, final(self)),
        decreases *old(self),
    {
        self.base.apply(value.part("base"));
        self.area.apply(value.part("area"));
        self.sprite.apply(value.part("sprite"));
    }

    /// Merges the button with `value`, or leaves it as it is where it does not accept
    /// `value`.
    pub fn from_lua(&mut self, value: &Variant) -> (r: Result<(), EngineError>)
        ensures
            r == old(self).accepts(value@),
            r is Ok ==> old(self).merged(value@, final(self)),
            r is Err ==> *final(self) == *old(self),
    {
        let checked = self.check(value);
        if checked.is_ok() {
            self.apply(value);
        }
        checked
    }
}

} // verus!
