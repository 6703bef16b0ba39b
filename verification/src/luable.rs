//! The bridge between native values and what scripts see.

use vstd::prelude::*;
use crate::color::Color;
use crate::entity::Entity;
use crate::error::EngineError;
use crate::image::Img;
use crate::image::ImgView;
use crate::nodes::button::SpriteButton;
use crate::nodes::button::TextButton;
use crate::nodes::camera::Camera;
use crate::nodes::clickable_area::ClickableArea;
use crate::nodes::collider::Collider;
use crate::nodes::node::Node;
use crate::nodes::rectmesh::RectMesh;
use crate::nodes::soundplayer::SoundPlayer;
use crate::nodes::sprite::Sprite;
use crate::nodes::text::Text;
use crate::transform::Transform;
use crate::variant::Dynamic;
use crate::variant::Variant;
use crate::variant::decodes;
use crate::vec2::Vec2;

verus! {

/// A native value that scripts can see and change.
///
/// The snapshot is what scripts see.  Merging takes a dynamic value that a script left
/// behind and overwrites the native value with what it describes, or rejects it and
/// changes nothing.
pub trait Luable: Sized {
    /// What scripts see of the value.
    spec fn lua_snapshot(&self) -> Dynamic;

    /// Whether the value can be merged with `v`, and if not, why not.
    spec fn lua_accepts(&self, v: Dynamic) -> Result<(), EngineError>;

    /// Whether `after` is the value merged with `v`.
    spec fn lua_merged(&self, v: Dynamic, after: &Self) -> bool;

    /// The snapshot of the value.
    fn as_lua(&self) -> (v: Variant)
        ensures
            v@ == self.lua_snapshot(),
    ;

    /// Merges the value with `value`, or leaves it as it is where it does not accept
    /// `value`.
    fn from_lua(&mut self, value: &Variant) -> (r: Result<(), EngineError>)
        ensures
            r == old(self).lua_accepts(value@),
            r is Ok ==> old(self).lua_merged(value@, final(self)),
            r is Err ==> *final(self) == *old(self),
    ;
}

impl Luable for Vec2 {
    open spec fn lua_snapshot(&self) -> Dynamic {
        self.snapshot()
    }

    open spec fn lua_accepts(&self, v: Dynamic) -> Result<(), EngineError> {
        decodes(Vec2::decoded(v))
    }

    open spec fn lua_merged(&self, v: Dynamic, after: &Vec2) -> bool {
        Vec2::decoded(v) == Ok::<Vec2, EngineError>(*after)
    }

    fn as_lua(&self) -> (v: Variant) {
        Vec2::as_lua(self)
    }

    fn from_lua(&mut self, value: &Variant) -> (r: Result<(), EngineError>) {
        Vec2::from_lua(self, value)
    }
}

impl Luable for Color {
    open spec fn lua_snapshot(&self) -> Dynamic {
        self.snapshot()
    }

    open spec fn lua_accepts(&self, v: Dynamic) -> Result<(), EngineError> {
        decodes(Color::decoded(v))
    }

    open spec fn lua_merged(&self, v: Dynamic, after: &Color) -> bool {
        Color::decoded(v) == Ok::<Color, EngineError>(*after)
    }

    fn as_lua(&self) -> (v: Variant) {
        Color::as_lua(self)
    }

    fn from_lua(&mut self, value: &Variant) -> (r: Result<(), EngineError>) {
        Color::from_lua(self, value)
    }
}

impl Luable for Transform {
    open spec fn lua_snapshot(&self) -> Dynamic {
        self.snapshot()
    }

    open spec fn lua_accepts(&self, v: Dynamic) -> Result<(), EngineError> {
        decodes(Transform::decoded(v))
    }

    open spec fn lua_merged(&self, v: Dynamic, after: &Transform) -> bool {
        Transform::decoded(v) == Ok::<Transform, EngineError>(*after)
    }

    fn as_lua(&self) -> (v: Variant) {
        Transform::as_lua(self)
    }

    fn from_lua(&mut self, value: &Variant) -> (r: Result<(), EngineError>) {
        Transform::from_lua(self, value)
    }
}

impl Luable for Img {
    open spec fn lua_snapshot(&self) -> Dynamic {
        self@.snapshot()
    }

    open spec fn lua_accepts(&self, v: Dynamic) -> Result<(), EngineError> {
        decodes(ImgView::decoded(v))
    }

    open spec fn lua_merged(&self, v: Dynamic, after: &Img) -> bool {
        ImgView::decoded(v) == Ok::<ImgView, EngineError>(after@)
    }

    fn as_lua(&self) -> (v: Variant) {
        Img::as_lua(self)
    }

    fn from_lua(&mut self, value: &Variant) -> (r: Result<(), EngineError>) {
        Img::from_lua(self, value)
    }
}

impl Luable for Node {
    open spec fn lua_snapshot(&self) -> Dynamic {
        self.snapshot()
    }

    open spec fn lua_accepts(&self, v: Dynamic) -> Result<(), EngineError> {
        self.accepts(v)
    }

    open spec fn lua_merged(&self, v: Dynamic, after: &Node) -> bool {
        self.merged(v, after)
    }

    fn as_lua(&self) -> (v: Variant) {
        Node::as_lua(self)
    }

    fn from_lua(&mut self, value: &Variant) -> (r: Result<(), EngineError>) {
        Node::from_lua(self, value)
    }
}

impl Luable for RectMesh {
    open spec fn lua_snapshot(&self) -> Dynamic {
        self.snapshot()
    }

    open spec fn lua_accepts(&self, v: Dynamic) -> Result<(), EngineError> {
        self.accepts(v)
    }

    open spec fn lua_merged(&self, v: Dynamic, after: &RectMesh) -> bool {
        self.merged(v, after)
    }

    fn as_lua(&self) -> (v: Variant) {
        RectMesh::as_lua(self)
    }

    fn from_lua(&mut self, value: &Variant) -> (r: Result<(), EngineError>) {
        RectMesh::from_lua(self, value)
    }
}

impl Luable for Sprite {
    open spec fn lua_snapshot(&self) -> Dynamic {
        self.snapshot()
    }

    open spec fn lua_accepts(&self, v: Dynamic) -> Result<(), EngineError> {
        self.accepts(v)
    }

    open spec fn lua_merged(&self, v: Dynamic, after: &Sprite) -> bool {
        self.merged(v, after)
    }

    fn as_lua(&self) -> (v: Variant) {
        Sprite::as_lua(self)
    }

    fn from_lua(&mut self, value: &Variant) -> (r: Result<(), EngineError>) {
        Sprite::from_lua(self, value)
    }
}

impl Luable for Text {
    open spec fn lua_snapshot(&self) -> Dynamic {
        self.snapshot()
    }

    open spec fn lua_accepts(&self, v: Dynamic) -> Result<(), EngineError> {
        self.accepts(v)
    }

    open spec fn lua_merged(&self, v: Dynamic, after: &Text) -> bool {
        self.merged(v, after)
    }

    fn as_lua(&self) -> (v: Variant) {
        Text::as_lua(self)
    }

    fn from_lua(&mut self, value: &Variant) -> (r: Result<(), EngineError>) {
        Text::from_lua(self, value)
    }
}

impl Luable for Camera {
    open spec fn lua_snapshot(&self) -> Dynamic {
        self.snapshot()
    }

    open spec fn lua_accepts(&self, v: Dynamic) -> Result<(), EngineError> {
        self.accepts(v)
    }

    open spec fn lua_merged(&self, v: Dynamic, after: &Camera) -> bool {
        self.merged(v, after)
    }

    fn as_lua(&self) -> (v: Variant) {
        Camera::as_lua(self)
    }

    fn from_lua(&mut self, value: &Variant) -> (r: Result<(), EngineError>) {
        Camera::from_lua(self, value)
    }
}

impl Luable for ClickableArea {
    open spec fn lua_snapshot(&self) -> Dynamic {
        self.snapshot()
    }

    open spec fn lua_accepts(&self, v: Dynamic) -> Result<(), EngineError> {
        self.accepts(v)
    }

    open spec fn lua_merged(&self, v: Dynamic, after: &ClickableArea) -> bool {
        self.merged(v, after)
    }

    fn as_lua(&self) -> (v: Variant) {
        ClickableArea::as_lua(self)
    }

    fn from_lua(&mut self, value: &Variant) -> (r: Result<(), EngineError>) {
        ClickableArea::from_lua(self, value)
    }
}

impl Luable for Collider {
    open spec fn lua_snapshot(&self) -> Dynamic {
        self.snapshot()
    }

    open spec fn lua_accepts(&self, v: Dynamic) -> Result<(), EngineError> {
        self.accepts(v)
    }

    open spec fn lua_merged(&self, v: Dynamic, after: &Collider) -> bool {
        self.merged(v, after)
    }

    fn as_lua(&self) -> (v: Variant) {
        Collider::as_lua(self)
    }

    fn from_lua(&mut self, value: &Variant) -> (r: Result<(), EngineError>) {
        Collider::from_lua(self, value)
    }
}

impl Luable for SoundPlayer {
    open spec fn lua_snapshot(&self) -> Dynamic {
        self.snapshot()
    }

    open spec fn lua_accepts(&self, v: Dynamic) -> Result<(), EngineError> {
        self.accepts(v)
    }

    open spec fn lua_merged(&self, v: Dynamic, after: &SoundPlayer) -> bool {
        self.merged(v, after)
    }

    fn as_lua(&self) -> (v: Variant) {
        SoundPlayer::as_lua(self)
    }

    fn from_lua(&mut self, value: &Variant) -> (r: Result<(), EngineError>) {
        SoundPlayer::from_lua(self, value)
    }
}

impl Luable for TextButton {
    open spec fn lua_snapshot(&self) -> Dynamic {
        self.snapshot()
    }

    open spec fn lua_accepts(&self, v: Dynamic) -> Result<(), EngineError> {
        self.accepts(v)
    }

    open spec fn lua_merged(&self, v: Dynamic, after: &TextButton) -> bool {
        self.merged(v, after)
    }

    fn as_lua(&self) -> (v: Variant) {
        TextButton::as_lua(self)
    }

    fn from_lua(&mut self, value: &Variant) -> (r: Result<(), EngineError>) {
        TextButton::from_lua(self, value)
    }
}

impl Luable for SpriteButton {
    open spec fn lua_snapshot(&self) -> Dynamic {
        self.snapshot()
    }

    open spec fn lua_accepts(&self, v: Dynamic) -> Result<(), EngineError> {
        self.accepts(v)
    }

    open spec fn lua_merged(&self, v: Dynamic, after: &SpriteButton) -> bool {
        self.merged(v, after)
    }

    fn as_lua(&self) -> (v: Variant) {
        SpriteButton::as_lua(self)
    }

    fn from_lua(&mut self, value: &Variant) -> (r: Result<(), EngineError>) {
        SpriteButton::from_lua(self, value)
    }
}

impl Luable for Entity {
    open spec fn lua_snapshot(&self) -> Dynamic {
        self.snapshot()
    }

    open spec fn lua_accepts(&self, v: Dynamic) -> Result<(), EngineError> {
        self.accepts(v)
    }

    open spec fn lua_merged(&self, v: Dynamic, after: &Entity) -> bool {
        self.merged(v, *after)
    }

    fn as_lua(&self) -> (v: Variant) {
        Entity::as_lua(self)
    }

    fn from_lua(&mut self, value: &Variant) -> (r: Result<(), EngineError>) {
        Entity::from_lua(self, value)
    }
}

} // verus!
