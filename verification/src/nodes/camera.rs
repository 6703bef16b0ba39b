//! The point of view.

use vstd::prelude::*;
use crate::error::EngineError;
use crate::kind::Kind;
use crate::nodelike::IdCounter;
use crate::nodes::node::Node;
use crate::variant::both;
use crate::variant::decodes;
use crate::variant::lemma_pairs_view;
use crate::variant::pairs_view;
use crate::variant::present;
use crate::variant::Dynamic;
use crate::variant::Intrinsic;
use crate::variant::Variant;
use crate::scalar::Scalar;
use crate::scalar::ONE_BITS;
use crate::transform::Transform;
use crate::vec2::Vec2;

verus! {

/// A view onto the scene: where it looks from, what surface it covers, and its focal
/// length.
pub struct Camera {
    pub base: Node,
    pub focal_length: Scalar,
    pub transform: Transform,
}

impl Camera {
    /// A camera at `pos` that covers `surface`, with the given focal length.
    pub fn new(pos: Vec2, surface: Vec2, focal_length: Scalar, ids: &mut IdCounter) -> (camera:
        Camera)
        requires
            old(ids).remaining() >= 1,
        ensures
            camera.base.is_fresh(old(ids).nth(0)),
            *final(ids) == old(ids).after(1),
            camera.transform == (Transform { pos, size: surface, scale: Scalar { bits: ONE_BITS } }),
            camera.focal_length == focal_length,
    {
        Camera { base: Node::new(ids), focal_length, transform: Transform::new(pos, surface) }
    }

    /// The name of the entity's kind.
    pub fn get_kind(&self) -> (name: &'static str)
        ensures
            name@ == Kind::Camera.name_spec(),
    {
        Kind::Camera.name()
    }

    /// Whether `after` is the camera after a frame's native update.
    pub open spec fn updated(&self, after: &Camera) -> bool
        decreases self, 0nat,
    {
        &&& self.base.updated(&after.base)
        &&& *after == (Camera { base: after.base, ..*self })
    }

    /// The native part of a frame.
    pub fn update(&mut self, deltatime: Scalar)
        ensures
            old(self).updated(final(self)),
        decreases *old(self),
    {
        self.base.update(deltatime);
    }

    /// Runs the top level of every queued script of the camera, see
    /// [`Node::load_scripts`].
    pub fn load_scripts(&mut self, lua: &mlua::Lua) -> (r: Result<(), EngineError>)
        requires
            old(self).base.scripts.within(*lua),
        ensures
            final(self).base.scripts.within(*lua),
            *final(self) == (Camera { base: final(self).base, ..*old(self) }),
            final(self).base.id == old(self).base.id,
            final(self).base.children == old(self).base.children,
            final(self).base.scripts.pending() == Seq::<Seq<char>>::empty(),
            old(self).base.scripts.pending().len() == 0 ==> r is Ok,
            match r {
                Ok(()) => final(self).base.scripts.live() == Some(
                    old(self).base.scripts.pending(),
                ),
                Err(e) => (e == EngineError::ScriptCompile || e == EngineError::ScriptRuntime)
                    && final(self).base.scripts.live() == old(self).base.scripts.live(),
            },
    {
        self.base.load_scripts(lua)
    }

    /// What scripts see of the camera.
    pub open spec fn snapshot(&self) -> Dynamic
        decreases self, 0nat,
    {
        Dynamic::Table(
            seq![
                Dynamic::pair("base"@, self.base.snapshot()),
                Dynamic::pair("focal_length"@, Dynamic::Number(self.focal_length)),
                Dynamic::pair("transform"@, self.transform.snapshot()),
                Dynamic::pair("kind"@, Dynamic::Function(Intrinsic::Kind(Kind::Camera))),
            ],
        )
    }

    /// Whether the camera can be merged with `v`, and if not, why not: the first of what
    /// its base, its transform and its focal length object to.
    pub open spec fn accepts(&self, v: Dynamic) -> Result<(), EngineError>
        decreases self, 0nat,
    {
        if !(v is Table) {
            Err(EngineError::Serialization)
        } else {
            both(
                self.base.accepts(v.field("base"@)),
                both(
                    decodes(Transform::decoded(v.field("transform"@))),
                    present(v.field("focal_length"@).as_number()),
                ),
            )
        }
    }

    /// Whether `after` is the camera merged with `v`.
    pub open spec fn merged(&self, v: Dynamic, after: &Camera) -> bool
        decreases self, 0nat,
    {
        &&& self.base.merged(v.field("base"@), &after.base)
        &&& Transform::decoded(v.field("transform"@)) == Ok::<Transform, EngineError>(
            after.transform,
        )
        &&& v.field("focal_length"@).as_number() == Some(after.focal_length)
    }

    /// The snapshot of the camera.
    pub fn as_lua(&self) -> (v: Variant)
        ensures
            v@ == self.snapshot(),
        decreases self,
    {
        let mut entries: Vec<(Variant, Variant)> = Vec::new();
        entries.push(Variant::entry("base", self.base.as_lua()));
        entries.push(Variant::entry("focal_length", Variant::Number(self.focal_length)));
        entries.push(Variant::entry("transform", self.transform.as_lua()));
        entries.push(Variant::entry("kind", Variant::Function(Intrinsic::Kind(Kind::Camera))));
        proof {
            lemma_pairs_view(entries@);
            assert(pairs_view(entries@) =~= self.snapshot().entries());
        }
        Variant::table(entries)
    }

    /// Whether the camera can be merged with `value`; nothing is changed.
    pub fn check(&self, value: &Variant) -> (r: Result<(), EngineError>)
        ensures
            r == self.accepts(value@),
        decreases self,
    {
        if !value.is_table() {
            return Err(EngineError::Serialization);
        }
        match self.base.check(value.part("base")) {
            Ok(()) => {},
            Err(e) => {
                return Err(e);
            },
        }
        match Transform::decode(value.part("transform")) {
            Ok(_) => {},
            Err(e) => {
                return Err(e);
            },
        }
        match value.number_at("focal_length") {
            Some(_) => Ok(()),
            None => Err(EngineError::Serialization),
        }
    }

    /// Merges the camera with `value`, which it accepts.
    pub fn apply(&mut self, value: &Variant)
        requires
            old(self).accepts(value@) is Ok,
        ensures
            old(self).merged(value@, final(self)),
        decreases *old(self),
    {
        self.base.apply(value.part("base"));
        let _ = self.transform.from_lua(value.part("transform"));
        match value.number_at("focal_length") {
            Some(f) => {
                self.focal_length = f;
            },
            None => {},
        }
    }

    /// Merges the camera with `value`, or leaves it as it is where it does not accept
    /// `value`.
    pub fn from_lua(&mut self, value: &Variant) -> (r: Result<(), EngineError>)
        ensures
            r == old(self).accepts(value@),
            r is Ok ==> old(self).merged(value@, final(self)),
            r is Err ==> *final(self) == *old(self),
    {
        let checked = self.check(value);
        if checked.is_ok() {
            self.apply(value);
        }
        checked
    }
}

} // verus!
