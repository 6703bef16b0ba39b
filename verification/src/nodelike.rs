//! Entity identities, and what every entity can do.

use vstd::prelude::*;
use crate::entity::Entity;
use crate::error::EngineError;
use crate::kind::Kind;
use crate::nodes::button::SpriteButton;
use crate::nodes::button::TextButton;
use crate::nodes::camera::Camera;
use crate::nodes::clickable_area::ClickableArea;
use crate::nodes::collider::Collider;
use crate::nodes::node::Node;
use crate::nodes::rectmesh::RectMesh;
use crate::nodes::soundplayer::SoundPlayer;
use crate::nodes::sprite::Sprite;
use crate::nodes::text::Text;
use crate::scalar::Scalar;
use crate::script_manager::ScriptManager;

verus! {

/// The source of entity identities: the next identity to hand out.
///
/// A process keeps one counter and makes every entity from it, so that no
/// identity is handed out twice and later entities have larger identities.
#[derive(Debug, Clone, Copy, PartialEq, Eq, Structural)]
pub struct IdCounter {
    pub next: u64,
}

impl IdCounter {
    /// A counter that has handed out nothing yet.
    pub fn new() -> (c: IdCounter)
        ensures
            c.next == 0,
    {
        IdCounter { next: 0 }
    }

    /// How many identities the counter can still hand out.
    pub open spec fn remaining(self) -> nat {
        (u64::MAX - self.next) as nat
    }

    /// Whether the counter can hand out `n` more identities.
    pub fn has(&self, n: u64) -> (b: bool)
        ensures
            b == (self.remaining() >= n),
    {
        u64::MAX - self.next >= n
    }

    /// The `k`-th identity that the counter hands out from now on, counting from 0.
    pub open spec fn nth(self, k: nat) -> int {
        self.next + k
    }

    /// The counter after it has handed out `k` identities.
    pub open spec fn after(self, k: nat) -> IdCounter
        recommends
            self.remaining() >= k,
    {
        IdCounter { next: (self.next + k) as u64 }
    }
}

/// Hands out the next identity.
pub fn generate_id(counter: &mut IdCounter) -> (id: u64)
    requires
        old(counter).remaining() >= 1,
    ensures
        id == old(counter).nth(0),
        *final(counter) == old(counter).after(1),
{
    let id = counter.next;
    counter.next = counter.next + 1;
    id
}

/// Identities handed out by one counter are pairwise distinct and grow in the order in
/// which they are handed out.
pub proof fn lemma_ids_increase(counter: IdCounter, i: nat, j: nat)
    requires
        i < j,
    ensures
        counter.nth(i) < counter.nth(j),
        counter.nth(i) != counter.nth(j),
{
}

/// The identity handed out after `k` others is the `k`-th one.
pub proof fn lemma_ids_follow(counter: IdCounter, k: nat)
    requires
        counter.remaining() >= k,
    ensures
        counter.after(k).nth(0) == counter.nth(k),
{
}

/// What every entity can do.
///
/// Drawing is the host's part and no capability here.
pub trait NodeLike: Sized {
    /// The kind of the entity.
    spec fn node_kind(&self) -> Kind;

    /// The base of the entity.
    spec fn node_base(&self) -> Node;

    /// Whether `after` is the entity after a frame's native update.
    spec fn node_updated(&self, after: &Self) -> bool;

    /// What the entity does natively before its scripts are first run: nothing, for every
    /// kind there is.
    fn setup(&mut self)
        ensures
            *final(self) == *old(self),
    ;

    /// The native part of a frame.
    fn update(&mut self, deltatime: Scalar)
        ensures
            old(self).node_updated(final(self)),
    ;

    /// Whether the scripts of the entity, and of its parts, live in the runtime `lua`.
    spec fn node_scripts_within(&self, lua: mlua::Lua) -> bool;

    /// Runs the top level of every queued script of the entity.  The scripts must live
    /// in `lua`.
    fn load_scripts(&mut self, lua: &mlua::Lua) -> (r: Result<(), EngineError>)
        requires
            old(self).node_scripts_within(*lua),
        ensures
            final(self).node_scripts_within(*lua),
            r is Err ==> (r->Err_0 == EngineError::ScriptCompile || r->Err_0
                == EngineError::ScriptRuntime),
            final(self).node_kind() == old(self).node_kind(),
            final(self).node_base().id == old(self).node_base().id,
            final(self).node_base().children == old(self).node_base().children,
            final(self).node_base().scripts.pending() == Seq::<Seq<char>>::empty(),
            r is Ok ==> final(self).node_base().scripts.live() == Some(
                old(self).node_base().scripts.pending(),
            ),
    ;

    /// The scripts attached to the entity, to attach more or to run them.
    fn get_scripts(&mut self) -> (scripts: &mut ScriptManager)
        ensures
            *scripts == old(self).node_base().scripts,
            final(self).node_base().scripts == *final(scripts),
            final(self).node_kind() == old(self).node_kind(),
            final(self).node_base().id == old(self).node_base().id,
            final(self).node_base().children == old(self).node_base().children,
    ;

    /// The name of the entity's kind.
    fn get_kind(&self) -> (name: &'static str)
        ensures
            name@ == self.node_kind().name_spec(),
    ;
}

impl NodeLike for Node {
    open spec fn node_kind(&self) -> Kind {
        Kind::Node
    }

    open spec fn node_base(&self) -> Node {
        *self
    }

    open spec fn node_updated(&self, after: &Node) -> bool {
        self.updated(after)
    }

    fn setup(&mut self) {
    }

    fn update(&mut self, deltatime: Scalar) {
        Node::update(self, deltatime)
    }

    open spec fn node_scripts_within(&self, lua: mlua::Lua) -> bool {
        self.scripts.within(lua)
    }

    fn load_scripts(&mut self, lua: &mlua::Lua) -> (r: Result<(), EngineError>) {
        Node::load_scripts(self, lua)
    }

    fn get_scripts(&mut self) -> (scripts: &mut ScriptManager) {
        Node::get_scripts(self)
    }

    fn get_kind(&self) -> (name: &'static str) {
        Kind::Node.name()
    }
}

impl NodeLike for RectMesh {
    open spec fn node_kind(&self) -> Kind {
        Kind::RectMesh
    }

    open spec fn node_base(&self) -> Node {
        self.base
    }

    open spec fn node_updated(&self, after: &RectMesh) -> bool {
        self.updated(after)
    }

    fn setup(&mut self) {
    }

    fn update(&mut self, deltatime: Scalar) {
        RectMesh::update(self, deltatime)
    }

    open spec fn node_scripts_within(&self, lua: mlua::Lua) -> bool {
        self.base.scripts.within(lua)
    }

    fn load_scripts(&mut self, lua: &mlua::Lua) -> (r: Result<(), EngineError>) {
        RectMesh::load_scripts(self, lua)
    }

    fn get_scripts(&mut self) -> (scripts: &mut ScriptManager) {
        self.base.get_scripts()
    }

    fn get_kind(&self) -> (name: &'static str) {
        RectMesh::get_kind(self)
    }
}

impl NodeLike for Sprite {
    open spec fn node_kind(&self) -> Kind {
        Kind::Sprite
    }

    open spec fn node_base(&self) -> Node {
        self.base
    }

    open spec fn node_updated(&self, after: &Sprite) -> bool {
        self.updated(after)
    }

    fn setup(&mut self) {
    }

    fn update(&mut self, deltatime: Scalar) {
        Sprite::update(self, deltatime)
    }

    open spec fn node_scripts_within(&self, lua: mlua::Lua) -> bool {
        self.base.scripts.within(lua)
    }

    fn load_scripts(&mut self, lua: &mlua::Lua) -> (r: Result<(), EngineError>) {
        Sprite::load_scripts(self, lua)
    }

    fn get_scripts(&mut self) -> (scripts: &mut ScriptManager) {
        self.base.get_scripts()
    }

    fn get_kind(&self) -> (name: &'static str) {
        Sprite::get_kind(self)
    }
}

impl NodeLike for Text {
    open spec fn node_kind(&self) -> Kind {
        Kind::Text
    }

    open spec fn node_base(&self) -> Node {
        self.base
    }

    open spec fn node_updated(&self, after: &Text) -> bool {
        self.updated(after)
    }

    fn setup(&mut self) {
    }

    fn update(&mut self, deltatime: Scalar) {
        Text::update(self, deltatime)
    }

    open spec fn node_scripts_within(&self, lua: mlua::Lua) -> bool {
        self.base.scripts.within(lua)
    }

    fn load_scripts(&mut self, lua: &mlua::Lua) -> (r: Result<(), EngineError>) {
        Text::load_scripts(self, lua)
    }

    fn get_scripts(&mut self) -> (scripts: &mut ScriptManager) {
        self.base.get_scripts()
    }

    fn get_kind(&self) -> (name: &'static str) {
        Text::get_kind(self)
    }
}

impl NodeLike for Camera {
    open spec fn node_kind(&self) -> Kind {
        Kind::Camera
    }

    open spec fn node_base(&self) -> Node {
        self.base
    }

    open spec fn node_updated(&self, after: &Camera) -> bool {
        self.updated(after)
    }

    fn setup(&mut self) {
    }

    fn update(&mut self, deltatime: Scalar) {
        Camera::update(self, deltatime)
    }

    open spec fn node_scripts_within(&self, lua: mlua::Lua) -> bool {
        self.base.scripts.within(lua)
    }

    fn load_scripts(&mut self, lua: &mlua::Lua) -> (r: Result<(), EngineError>) {
        Camera::load_scripts(self, lua)
    }

    fn get_scripts(&mut self) -> (scripts: &mut ScriptManager) {
        self.base.get_scripts()
    }

    fn get_kind(&self) -> (name: &'static str) {
        Camera::get_kind(self)
    }
}

impl NodeLike for ClickableArea {
    open spec fn node_kind(&self) -> Kind {
        Kind::ClickableArea
    }

    open spec fn node_base(&self) -> Node {
        self.base
    }

    open spec fn node_updated(&self, after: &ClickableArea) -> bool {
        self.updated(after)
    }

    fn setup(&mut self) {
    }

    fn update(&mut self, deltatime: Scalar) {
        ClickableArea::update(self, deltatime)
    }

    open spec fn node_scripts_within(&self, lua: mlua::Lua) -> bool {
        self.base.scripts.within(lua)
    }

    fn load_scripts(&mut self, lua: &mlua::Lua) -> (r: Result<(), EngineError>) {
        ClickableArea::load_scripts(self, lua)
    }

    fn get_scripts(&mut self) -> (scripts: &mut ScriptManager) {
        self.base.get_scripts()
    }

    fn get_kind(&self) -> (name: &'static str) {
        ClickableArea::get_kind(self)
    }
}

impl NodeLike for Collider {
    open spec fn node_kind(&self) -> Kind {
        Kind::Collider
    }

    open spec fn node_base(&self) -> Node {
        self.base
    }

    open spec fn node_updated(&self, after: &Collider) -> bool {
        self.updated(after)
    }

    fn setup(&mut self) {
    }

    fn update(&mut self, deltatime: Scalar) {
        Collider::update(self, deltatime)
    }

    open spec fn node_scripts_within(&self, lua: mlua::Lua) -> bool {
        self.base.scripts.within(lua)
    }

    fn load_scripts(&mut self, lua: &mlua::Lua) -> (r: Result<(), EngineError>) {
        Collider::load_scripts(self, lua)
    }

    fn get_scripts(&mut self) -> (scripts: &mut ScriptManager) {
        self.base.get_scripts()
    }

    fn get_kind(&self) -> (name: &'static str) {
        Collider::get_kind(self)
    }
}

impl NodeLike for SoundPlayer {
    open spec fn node_kind(&self) -> Kind {
        Kind::SoundPlayer
    }

    open spec fn node_base(&self) -> Node {
        self.base
    }

    open spec fn node_updated(&self, after: &SoundPlayer) -> bool {
        self.updated(after)
    }

    fn setup(&mut self) {
    }

    fn update(&mut self, deltatime: Scalar) {
        SoundPlayer::update(self, deltatime)
    }

    open spec fn node_scripts_within(&self, lua: mlua::Lua) -> bool {
        self.base.scripts.within(lua)
    }

    fn load_scripts(&mut self, lua: &mlua::Lua) -> (r: Result<(), EngineError>) {
        SoundPlayer::load_scripts(self, lua)
    }

    fn get_scripts(&mut self) -> (scripts: &mut ScriptManager) {
        self.base.get_scripts()
    }

    fn get_kind(&self) -> (name: &'static str) {
        SoundPlayer::get_kind(self)
    }
}

impl NodeLike for TextButton {
    open spec fn node_kind(&self) -> Kind {
        Kind::TextButton
    }

    open spec fn node_base(&self) -> Node {
        self.base
    }

    open spec fn node_updated(&self, after: &TextButton) -> bool {
        self.updated(after)
    }

    fn setup(&mut self) {
    }

    fn update(&mut self, deltatime: Scalar) {
        TextButton::update(self, deltatime)
    }

    open spec fn node_scripts_within(&self, lua: mlua::Lua) -> bool {
        self.base.scripts.within(lua) && self.area.base.scripts.within(lua)
            && self.text.base.scripts.within(lua)
    }

    fn load_scripts(&mut self, lua: &mlua::Lua) -> (r: Result<(), EngineError>) {
        TextButton::load_scripts(self, lua)
    }

    fn get_scripts(&mut self) -> (scripts: &mut ScriptManager) {
        self.base.get_scripts()
    }

    fn get_kind(&self) -> (name: &'static str) {
        TextButton::get_kind(self)
    }
}

impl NodeLike for SpriteButton {
    open spec fn node_kind(&self) -> Kind {
        Kind::SpriteButton
    }

    open spec fn node_base(&self) -> Node {
        self.base
    }

    open spec fn node_updated(&self, after: &SpriteButton) -> bool {
        self.updated(after)
    }

    fn setup(&mut self) {
    }

    fn update(&mut self, deltatime: Scalar) {
        SpriteButton::update(self, deltatime)
    }

    open spec fn node_scripts_within(&self, lua: mlua::Lua) -> bool {
        self.base.scripts.within(lua) && self.area.base.scripts.within(lua)
            && self.sprite.base.scripts.within(lua)
    }

    fn load_scripts(&mut self, lua: &mlua::Lua) -> (r: Result<(), EngineError>) {
        SpriteButton::load_scripts(self, lua)
    }

    fn get_scripts(&mut self) -> (scripts: &mut ScriptManager) {
        self.base.get_scripts()
    }

    fn get_kind(&self) -> (name: &'static str) {
        SpriteButton::get_kind(self)
    }
}

impl NodeLike for Entity {
    open spec fn node_kind(&self) -> Kind {
        self.kind_spec()
    }

    open spec fn node_base(&self) -> Node {
        self.base_spec()
    }

    open spec fn node_updated(&self, after: &Entity) -> bool {
        self.updated(*after)
    }

    fn setup(&mut self) {
    }

    fn update(&mut self, deltatime: Scalar) {
        Entity::update(self, deltatime)
    }

    open spec fn node_scripts_within(&self, lua: mlua::Lua) -> bool {
        self.scripts_within(lua)
    }

    fn load_scripts(&mut self, lua: &mlua::Lua) -> (r: Result<(), EngineError>) {
        Entity::load_scripts(self, lua)
    }

    fn get_scripts(&mut self) -> (scripts: &mut ScriptManager) {
        Entity::get_scripts(self)
    }

    fn get_kind(&self) -> (name: &'static str) {
        Entity::get_kind(self)
    }
}

} // verus!
