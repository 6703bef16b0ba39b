//! An entity that plays a sound.

use vstd::prelude::*;
use crate::scalar::Scalar;
use crate::error::EngineError;
use crate::kind::Kind;
use crate::nodelike::IdCounter;
use crate::nodes::node::Node;
use crate::variant::both;
use crate::variant::lemma_pairs_view;
use crate::variant::pairs_view;
use crate::variant::present;
use crate::variant::Dynamic;
use crate::variant::Intrinsic;
use crate::variant::Variant;
use vstd::string::StringExecFns;

verus! {

/// A reference to a sound, by the path of its file.
pub struct SoundPlayer {
    pub base: Node,
    pub sound: String,
}

impl SoundPlayer {
    /// A player of the sound at the path `sound`.
    pub fn new(sound: &str, ids: &mut IdCounter) -> (player: SoundPlayer)
        requires
            old(ids).remaining() >= 1,
        ensures
            player.base.is_fresh(old(ids).nth(0)),
            *final(ids) == old(ids).after(1),
            player.sound@ == sound@,
    {
        SoundPlayer { base: Node::new(ids), sound: String::from_str(sound) }
    }

    /// A player of no sound.
    pub fn empty(ids: &mut IdCounter) -> (player: SoundPlayer)
        requires
            old(ids).remaining() >= 1,
        ensures
            player.base.is_fresh(old(ids).nth(0)),
            *final(ids) == old(ids).after(1),
            player.sound@ == Seq::<char>::empty(),
    {
        SoundPlayer { base: Node::new(ids), sound: String::new() }
    }

    /// The name of the entity's kind.
    pub fn get_kind(&self) -> (name: &'static str)
        ensures
            name@ == Kind::SoundPlayer.name_spec(),
    {
        Kind::SoundPlayer.name()
    }

    /// Whether `after` is the player after a frame's native update.
    pub open spec fn updated(&self, after: &SoundPlayer) -> bool
        decreases self, 0nat,
    {
        &&& self.base.updated(&after.base)
        &&& *after == (SoundPlayer { base: after.base, ..*self })
    }

    /// The native part of a frame.
    pub fn update(&mut self, deltatime: Scalar)
        ensures
            old(self).updated(final(self)),
        decreases *old(self),
    {
        self.base.update(deltatime);
    }

    /// Runs the top level of every queued script of the player, see
    /// [`Node::load_scripts`].
    pub fn load_scripts(&mut self, lua: &mlua::Lua) -> (r: Result<(), EngineError>)
        requires
            old(self).base.scripts.within(*lua),
        ensures
            final(self).base.scripts.within(*lua),
            *final(self) == (SoundPlayer { base: final(self).base, ..*old(self) }),
            final(self).base.id == old(self).base.id,
            final(self).base.children == old(self).base.children,
            final(self).base.scripts.pending() == Seq::<Seq<char>>::empty(),
            old(self).base.scripts.pending().len() == 0 ==> r is Ok,
            match r {
                Ok(()) => final(self).base.scripts.live() == Some(
                    old(self).base.scripts.pending(),
                ),
                Err(e) => (e == EngineError::ScriptCompile || e == EngineError::ScriptRuntime)
                    && final(self).base.scripts.live() == old(self).base.scripts.live(),
            },
    {
        self.base.load_scripts(lua)
    }

    /// What scripts see of the player.
    pub open spec fn snapshot(&self) -> Dynamic
        decreases self, 0nat,
    {
        Dynamic::Table(
            seq![
                Dynamic::pair("base"@, self.base.snapshot()),
                Dynamic::pair("sound"@, Dynamic::Str(self.sound@)),
                Dynamic::pair("kind"@, Dynamic::Function(Intrinsic::Kind(Kind::SoundPlayer))),
                Dynamic::pair("play"@, Dynamic::Function(Intrinsic::Play)),
            ],
        )
    }

    /// Whether the player can be merged with `v`, and if not, why not: the first of what
    /// its base and its sound object to.
    pub open spec fn accepts(&self, v: Dynamic) -> Result<(), EngineError>
        decreases self, 0nat,
    {
        if !(v is Table) {
            Err(EngineError::Serialization)
        } else {
            both(self.base.accepts(v.field("base"@)), present(v.field("sound"@).as_text()))
        }
    }

    /// Whether `after` is the player merged with `v`.
    pub open spec fn merged(&self, v: Dynamic, after: &SoundPlayer) -> bool
        decreases self, 0nat,
    {
        &&& self.base.merged(v.field("base"@), &after.base)
        &&& v.field("sound"@).as_text() == Some(after.sound@)
    }

    /// The snapshot of the player.
    pub fn as_lua(&self) -> (v: Variant)
        ensures
            v@ == self.snapshot(),
        decreases self,
    {
        let mut entries: Vec<(Variant, Variant)> = Vec::new();
        entries.push(Variant::entry("base", self.base.as_lua()));
        entries.push(Variant::entry("sound", Variant::text(self.sound.as_str())));
        entries.push(
            Variant::entry("kind", Variant::Function(Intrinsic::Kind(Kind::SoundPlayer))),
        );
        entries.push(Variant::entry("play", Variant::Function(Intrinsic::Play)));
        proof {
            lemma_pairs_view(entries@);
            assert(pairs_view(entries@) =~= self.snapshot().entries());
        }
        Variant::table(entries)
    }

    /// Whether the player can be merged with `value`; nothing is changed.
    pub fn check(&self, value: &Variant) -> (r: Result<(), EngineError>)
        ensures
            r == self.accepts(value@),
        decreases self,
    {
        if !value.is_table() {
            return Err(EngineError::Serialization);
        }
        match self.base.check(value.part("base")) {
            Ok(()) => {},
            Err(e) => {
                return Err(e);
            },
        }
        match value.text_at("sound") {
            Some(_) => Ok(()),
            None => Err(EngineError::Serialization),
        }
    }

    /// Merges the player with `value`, which it accepts.
    pub fn apply(&mut self, value: &Variant)
        requires
            old(self).accepts(value@) is Ok,
        ensures
            old(self).merged(value@, final(self)),
        decreases *old(self),
    {
        self.base.apply(value.part("base"));
        match value.text_at("sound") {
            Some(sound) => {
                self.sound = String::from_str(sound);
            },
            None => {},
        }
    }

    /// Merges the player with `value`, or leaves it as it is where it does not accept
    /// `value`.
    pub fn from_lua(&mut self, value: &Variant) -> (r: Result<(), EngineError>)
        ensures
            r == old(self).accepts(value@),
            r is Ok ==> old(self).merged(value@, final(self)),
            r is Err ==> *final(self) == *old(self),
    {
        let checked = self.check(value);
        if checked.is_ok() {
            self.apply(value);
        }
        checked
    }
}

} // verus!
