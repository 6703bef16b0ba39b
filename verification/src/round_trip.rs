//! Every entity reads its own snapshot back.
//!
//! A snapshot that no script has touched is accepted by the entity it was
//! taken of, and merging it leaves the entity as it is.  This holds of an
//! entity whose children have distinct names at every level; a collection
//! filled through its own operations is of that form.

use vstd::prelude::*;
use crate::children_container::distinct;
use crate::children_container::held;
use crate::children_container::lemma_place;
use crate::color::lemma_color_round_trip;
use crate::entity::Entity;
use crate::image::lemma_img_round_trip;
use crate::nodes::button::SpriteButton;
use crate::nodes::button::TextButton;
use crate::nodes::camera::Camera;
use crate::nodes::clickable_area::ClickableArea;
use crate::nodes::collider::Collider;
use crate::nodes::node::children_accept;
use crate::nodes::node::children_merged;
use crate::nodes::node::children_snapshot;
use crate::nodes::node::lemma_children_accept;
use crate::nodes::node::names_known;
use crate::nodes::node::Node;
use crate::nodes::rectmesh::RectMesh;
use crate::nodes::soundplayer::SoundPlayer;
use crate::nodes::sprite::Sprite;
use crate::nodes::text::Text;
use crate::transform::lemma_transform_round_trip;
use crate::variant::Dynamic;
use crate::vec2::lemma_vec2_round_trip;

verus! {

/// Whether the names of `children` are distinct and every child is sound.
pub open spec fn children_sound(children: Seq<(String, Entity)>) -> bool
    decreases children, 0nat,
{
    &&& distinct(children)
    &&& forall|i: int| 0 <= i < children.len() ==> (#[trigger] children[i]).1.sound()
}

/// Whether the children of a text are sound and the text names no font by an empty path.
pub open spec fn text_sound(text: Text) -> bool
    decreases text, 0nat,
{
    &&& children_sound(text.base.children.children@)
    &&& text.font_path is Some ==> text.font_text().len() > 0
}

impl Entity {
    /// Whether the children of the entity, of its parts and of every entity below have
    /// distinct names, and no text names a font by an empty path.
    pub open spec fn sound(&self) -> bool
        decreases self, 1nat,
    {
        match self {
            Entity::Node(n) => children_sound(n.children.children@),
            Entity::RectMesh(e) => children_sound(e.base.children.children@),
            Entity::Sprite(e) => children_sound(e.base.children.children@),
            Entity::Text(e) => text_sound(*e),
            Entity::Camera(e) => children_sound(e.base.children.children@),
            Entity::ClickableArea(e) => children_sound(e.base.children.children@),
            Entity::Collider(e) => children_sound(e.base.children.children@),
            Entity::SoundPlayer(e) => children_sound(e.base.children.children@),
            Entity::TextButton(e) => children_sound(e.base.children.children@) && children_sound(
                e.area.base.children.children@,
            ) && text_sound(e.text),
            Entity::SpriteButton(e) => children_sound(e.base.children.children@)
                && children_sound(e.area.base.children.children@) && children_sound(
                e.sprite.base.children.children@,
            ),
        }
    }
}

/// The first pair at or after `from` that is keyed by the text `key` is the pair at `at`.
pub proof fn lemma_find_at(entries: Seq<(Dynamic, Dynamic)>, key: Seq<char>, from: int, at: int)
    requires
        0 <= from <= at < entries.len(),
        entries[at].0 == Dynamic::Str(key),
        forall|j: int| from <= j < at ==> (#[trigger] entries[j]).0 != Dynamic::Str(key),
    ensures
        Dynamic::find(entries, key, from) == entries[at].1,
    decreases at - from,
{
    if from < at {
        lemma_find_at(entries, key, from + 1, at);
    }
}

/// The snapshots of children are as many as the children, and each is keyed by the name
/// of its child.
pub proof fn lemma_children_snapshot(children: Seq<(String, Entity)>)
    ensures
        children_snapshot(children).len() == children.len(),
        forall|i: int|
            0 <= i < children.len() ==> #[trigger] children_snapshot(children)[i] == Dynamic::pair(
                children[i].0@,
                children[i].1.snapshot(),
            ),
    decreases children.len(),
{
    if children.len() > 0 {
        let init = children.drop_last();
        lemma_children_snapshot(init);
        assert(children_snapshot(children) == children_snapshot(init).push(
            Dynamic::pair(children.last().0@, children.last().1.snapshot()),
        ));
        assert forall|i: int| 0 <= i < children.len() implies #[trigger] children_snapshot(
            children,
        )[i] == Dynamic::pair(children[i].0@, children[i].1.snapshot()) by {
            if i < init.len() {
                assert(init[i] == children[i]);
                assert(children_snapshot(children)[i] == children_snapshot(init)[i]);
            }
        }
    }
}

/// Every snapshot among the snapshots of children is keyed by the name of a child.
pub proof fn lemma_own_names_known(children: Seq<(String, Entity)>, from: int)
    requires
        0 <= from,
    ensures
        names_known(children_snapshot(children), children, from),
    decreases children.len() - from,
{
    lemma_children_snapshot(children);
    if from < children.len() {
        lemma_place(children, children[from].0@, 0);
        assert(held(children, children[from].0@) is Some);
        lemma_own_names_known(children, from + 1);
    }
}

/// Sound children accept their own snapshots, each found under its name, and are merges
/// of themselves with them.
pub proof fn lemma_children_round_trip(children: Seq<(String, Entity)>)
    requires
        children_sound(children),
    ensures
        children_accept(children, Dynamic::Table(children_snapshot(children)), 0) is Ok,
        children_merged(children, Dynamic::Table(children_snapshot(children)), children),
    decreases children, 0nat,
{
    let patch = Dynamic::Table(children_snapshot(children));
    lemma_children_snapshot(children);
    assert forall|i: int| 0 <= i < children.len() implies {
        &&& patch.field((#[trigger] children[i]).0@) == children[i].1.snapshot()
        &&& children[i].1.accepts(children[i].1.snapshot()) is Ok
        &&& children[i].1.merged(children[i].1.snapshot(), children[i].1)
        &&& !(children[i].1.snapshot() is Nil)
    } by {
        let entries = children_snapshot(children);
        assert forall|j: int| 0 <= j < i implies (#[trigger] entries[j]).0 != Dynamic::Str(
            children[i].0@,
        ) by {
            assert(children[j].0@ != children[i].0@);
        }
        lemma_find_at(entries, children[i].0@, 0, i);
        assert(children[i].1.sound());
        lemma_entity_round_trip(children[i].1);
    }
    lemma_children_accept(children, patch, 0);
}

/// A sound base accepts its own snapshot and is a merge of itself with it.
pub proof fn lemma_node_round_trip(node: Node)
    requires
        children_sound(node.children.children@),
    ensures
        node.snapshot() is Table,
        node.accepts(node.snapshot()) is Ok,
        node.merged(node.snapshot(), &node),
        node.snapshot().field("children"@) == Dynamic::Table(
            children_snapshot(node.children.children@),
        ),
    decreases node, 0nat,
{
    let v = node.snapshot();
    let children = node.children.children@;
    reveal_strlit("children");
    reveal_strlit("id");
    assert("children"@.len() != "id"@.len());
    lemma_find_at(v.entries(), "children"@, 0, 0);
    lemma_children_snapshot(children);
    lemma_own_names_known(children, 0);
    lemma_children_round_trip(children);
}

/// A sound rectangle accepts its own snapshot and is a merge of itself with it.
pub proof fn lemma_rectmesh_round_trip(mesh: RectMesh)
    requires
        children_sound(mesh.base.children.children@),
    ensures
        mesh.snapshot() is Table,
        mesh.accepts(mesh.snapshot()) is Ok,
        mesh.merged(mesh.snapshot(), &mesh),
        mesh.snapshot().field("base"@) == mesh.base.snapshot(),
    decreases mesh, 0nat,
{
    let v = mesh.snapshot();
    reveal_strlit("base");
    reveal_strlit("transform");
    reveal_strlit("color");
    reveal_strlit("kind");
    assert("base"@.len() == 4 && "transform"@.len() == 9 && "color"@.len() == 5 && "kind"@.len()
        == 4);
    assert("base"@[0] != "kind"@[0]);
    lemma_find_at(v.entries(), "base"@, 0, 0);
    lemma_find_at(v.entries(), "transform"@, 0, 1);
    lemma_find_at(v.entries(), "color"@, 0, 2);
    lemma_node_round_trip(mesh.base);
    lemma_transform_round_trip(mesh.transform);
    lemma_color_round_trip(mesh.color);
}

/// A sound sprite accepts its own snapshot and is a merge of itself with it.
pub proof fn lemma_sprite_round_trip(sprite: Sprite)
    requires
        children_sound(sprite.base.children.children@),
    ensures
        sprite.snapshot() is Table,
        sprite.accepts(sprite.snapshot()) is Ok,
        sprite.merged(sprite.snapshot(), &sprite),
        sprite.snapshot().field("base"@) == sprite.base.snapshot(),
    decreases sprite, 0nat,
{
    let v = sprite.snapshot();
    reveal_strlit("base");
    reveal_strlit("transform");
    reveal_strlit("img");
    reveal_strlit("kind");
    assert("base"@.len() == 4 && "transform"@.len() == 9 && "img"@.len() == 3 && "kind"@.len()
        == 4);
    assert("base"@[0] != "kind"@[0]);
    lemma_find_at(v.entries(), "base"@, 0, 0);
    lemma_find_at(v.entries(), "transform"@, 0, 1);
    lemma_find_at(v.entries(), "img"@, 0, 2);
    lemma_node_round_trip(sprite.base);
    lemma_transform_round_trip(sprite.transform);
    lemma_img_round_trip(sprite.img@);
}

/// A sound camera accepts its own snapshot and is a merge of itself with it.
pub proof fn lemma_camera_round_trip(camera: Camera)
    requires
        children_sound(camera.base.children.children@),
    ensures
        camera.snapshot() is Table,
        camera.accepts(camera.snapshot()) is Ok,
        camera.merged(camera.snapshot(), &camera),
        camera.snapshot().field("base"@) == camera.base.snapshot(),
    decreases camera, 0nat,
{
    let v = camera.snapshot();
    reveal_strlit("base");
    reveal_strlit("focal_length");
    reveal_strlit("transform");
    reveal_strlit("kind");
    assert("base"@.len() == 4 && "focal_length"@.len() == 12 && "transform"@.len() == 9
        && "kind"@.len() == 4);
    assert("base"@[0] != "kind"@[0]);
    lemma_find_at(v.entries(), "base"@, 0, 0);
    lemma_find_at(v.entries(), "focal_length"@, 0, 1);
    lemma_find_at(v.entries(), "transform"@, 0, 2);
    lemma_node_round_trip(camera.base);
    lemma_transform_round_trip(camera.transform);
}

/// A sound clickable area accepts its own snapshot and is a merge of itself with it.
pub proof fn lemma_area_round_trip(area: ClickableArea)
    requires
        children_sound(area.base.children.children@),
    ensures
        area.snapshot() is Table,
        area.accepts(area.snapshot()) is Ok,
        area.merged(area.snapshot(), &area),
        area.snapshot().field("base"@) == area.base.snapshot(),
    decreases area, 0nat,
{
    let v = area.snapshot();
    reveal_strlit("base");
    reveal_strlit("transform");
    reveal_strlit("clicked");
    reveal_strlit("kind");
    assert("base"@.len() == 4 && "transform"@.len() == 9 && "clicked"@.len() == 7 && "kind"@.len()
        == 4);
    assert("base"@[0] != "kind"@[0]);
    lemma_find_at(v.entries(), "base"@, 0, 0);
    lemma_find_at(v.entries(), "transform"@, 0, 1);
    lemma_node_round_trip(area.base);
    lemma_transform_round_trip(area.transform);
}

/// A sound collider accepts its own snapshot and is a merge of itself with it.
pub proof fn lemma_collider_round_trip(collider: Collider)
    requires
        children_sound(collider.base.children.children@),
    ensures
        collider.snapshot() is Table,
        collider.accepts(collider.snapshot()) is Ok,
        collider.merged(collider.snapshot(), &collider),
        collider.snapshot().field("base"@) == collider.base.snapshot(),
    decreases collider, 0nat,
{
    let v = collider.snapshot();
    reveal_strlit("base");
    reveal_strlit("transform");
    reveal_strlit("layer");
    reveal_strlit("collides");
    reveal_strlit("kind");
    assert("base"@.len() == 4 && "transform"@.len() == 9 && "layer"@.len() == 5
        && "collides"@.len() == 8 && "kind"@.len() == 4);
    assert("base"@[0] != "kind"@[0]);
    lemma_find_at(v.entries(), "base"@, 0, 0);
    lemma_find_at(v.entries(), "transform"@, 0, 1);
    lemma_find_at(v.entries(), "layer"@, 0, 2);
    lemma_node_round_trip(collider.base);
    lemma_transform_round_trip(collider.transform);
}

/// A sound sound player accepts its own snapshot and is a merge of itself with it.
pub proof fn lemma_player_round_trip(player: SoundPlayer)
    requires
        children_sound(player.base.children.children@),
    ensures
        player.snapshot() is Table,
        player.accepts(player.snapshot()) is Ok,
        player.merged(player.snapshot(), &player),
        player.snapshot().field("base"@) == player.base.snapshot(),
    decreases player, 0nat,
{
    let v = player.snapshot();
    reveal_strlit("base");
    reveal_strlit("sound");
    reveal_strlit("kind");
    reveal_strlit("play");
    assert("base"@.len() == 4 && "sound"@.len() == 5 && "kind"@.len() == 4 && "play"@.len() == 4);
    assert("base"@[0] != "kind"@[0] && "base"@[0] != "play"@[0] && "kind"@[0] != "play"@[0]);
    lemma_find_at(v.entries(), "base"@, 0, 0);
    lemma_find_at(v.entries(), "sound"@, 0, 1);
    lemma_node_round_trip(player.base);
}

/// A sound text accepts its own snapshot and is a merge of itself with it.
pub proof fn lemma_text_round_trip(text: Text)
    requires
        text_sound(text),
    ensures
        text.snapshot() is Table,
        text.accepts(text.snapshot()) is Ok,
        text.merged(text.snapshot(), &text),
        text.snapshot().field("base"@) == text.base.snapshot(),
    decreases text, 1nat,
{
    let v = text.snapshot();
    reveal_strlit("base");
    reveal_strlit("text");
    reveal_strlit("pos");
    reveal_strlit("scale");
    reveal_strlit("aspect");
    reveal_strlit("font_size");
    reveal_strlit("rotation");
    reveal_strlit("color");
    reveal_strlit("font");
    reveal_strlit("dimensions");
    reveal_strlit("kind");
    assert("base"@.len() == 4 && "text"@.len() == 4 && "pos"@.len() == 3 && "scale"@.len() == 5
        && "aspect"@.len() == 6 && "font_size"@.len() == 9 && "rotation"@.len() == 8
        && "color"@.len() == 5 && "font"@.len() == 4 && "dimensions"@.len() == 10 && "kind"@.len()
        == 4);
    assert("base"@[0] == 'b' && "text"@[0] == 't' && "font"@[0] == 'f' && "kind"@[0] == 'k');
    assert("scale"@[0] != "color"@[0]);
    lemma_find_at(v.entries(), "base"@, 0, 0);
    lemma_find_at(v.entries(), "text"@, 0, 1);
    lemma_find_at(v.entries(), "pos"@, 0, 2);
    lemma_find_at(v.entries(), "scale"@, 0, 3);
    lemma_find_at(v.entries(), "aspect"@, 0, 4);
    lemma_find_at(v.entries(), "font_size"@, 0, 5);
    lemma_find_at(v.entries(), "rotation"@, 0, 6);
    lemma_find_at(v.entries(), "color"@, 0, 7);
    lemma_find_at(v.entries(), "font"@, 0, 8);
    lemma_node_round_trip(text.base);
    lemma_vec2_round_trip(text.pos);
    lemma_color_round_trip(text.color);
}

/// A sound text button accepts its own snapshot and is a merge of itself with it.
pub proof fn lemma_text_button_round_trip(button: TextButton)
    requires
        children_sound(button.base.children.children@),
        children_sound(button.area.base.children.children@),
        text_sound(button.text),
    ensures
        button.snapshot() is Table,
        button.accepts(button.snapshot()) is Ok,
        button.merged(button.snapshot(), &button),
        button.snapshot().field("base"@) == button.base.snapshot(),
        button.snapshot().field("area"@) == button.area.snapshot(),
        button.snapshot().field("text"@) == button.text.snapshot(),
    decreases button, 0nat,
{
    let v = button.snapshot();
    reveal_strlit("base");
    reveal_strlit("area");
    reveal_strlit("text");
    reveal_strlit("kind");
    assert("base"@[0] == 'b' && "area"@[0] == 'a' && "text"@[0] == 't' && "kind"@[0] == 'k');
    lemma_find_at(v.entries(), "base"@, 0, 0);
    lemma_find_at(v.entries(), "area"@, 0, 1);
    lemma_find_at(v.entries(), "text"@, 0, 2);
    lemma_node_round_trip(button.base);
    lemma_area_round_trip(button.area);
    lemma_text_round_trip(button.text);
}

/// A sound sprite button accepts its own snapshot and is a merge of itself with it.
pub proof fn lemma_sprite_button_round_trip(button: SpriteButton)
    requires
        children_sound(button.base.children.children@),
        children_sound(button.area.base.children.children@),
        children_sound(button.sprite.base.children.children@),
    ensures
        button.snapshot() is Table,
        button.accepts(button.snapshot()) is Ok,
        button.merged(button.snapshot(), &button),
        button.snapshot().field("base"@) == button.base.snapshot(),
        button.snapshot().field("area"@) == button.area.snapshot(),
        button.snapshot().field("sprite"@) == button.sprite.snapshot(),
    decreases button, 0nat,
{
    let v = button.snapshot();
    reveal_strlit("base");
    reveal_strlit("area");
    reveal_strlit("sprite");
    reveal_strlit("kind");
    assert("base"@[0] == 'b' && "area"@[0] == 'a' && "kind"@[0] == 'k' && "sprite"@.len() == 6
        && "base"@.len() == 4 && "area"@.len() == 4 && "kind"@.len() == 4);
    lemma_find_at(v.entries(), "base"@, 0, 0);
    lemma_find_at(v.entries(), "area"@, 0, 1);
    lemma_find_at(v.entries(), "sprite"@, 0, 2);
    lemma_node_round_trip(button.base);
    lemma_area_round_trip(button.area);
    lemma_sprite_round_trip(button.sprite);
}

/// A sound entity accepts its own snapshot and is a merge of itself with it: nothing
/// that a script did not touch is changed by merging.
pub proof fn lemma_entity_round_trip(e: Entity)
    requires
        e.sound(),
    ensures
        e.snapshot() is Table,
        e.accepts(e.snapshot()) is Ok,
        e.merged(e.snapshot(), e),
        e is Node ==> e.snapshot().field("children"@) == Dynamic::Table(
            children_snapshot(e.base_spec().children.children@),
        ),
        !(e is Node) ==> e.snapshot().field("base"@) == e.base_spec().snapshot(),
    decreases e, 1nat,
{
    match e {
        Entity::Node(n) => {
            lemma_node_round_trip(n);
            let plain = n.snapshot();
            let v = e.snapshot();
            reveal_strlit("children");
            reveal_strlit("id");
            reveal_strlit("kind");
            assert("children"@.len() != "id"@.len() && "children"@.len() != "kind"@.len());
            lemma_find_at(plain.entries(), "children"@, 0, 0);
            lemma_find_at(v.entries(), "children"@, 0, 0);
        },
        Entity::RectMesh(m) => lemma_rectmesh_round_trip(m),
        Entity::Sprite(s) => lemma_sprite_round_trip(s),
        Entity::Text(t) => lemma_text_round_trip(t),
        Entity::Camera(c) => lemma_camera_round_trip(c),
        Entity::ClickableArea(a) => lemma_area_round_trip(a),
        Entity::Collider(c) => lemma_collider_round_trip(c),
        Entity::SoundPlayer(p) => lemma_player_round_trip(p),
        Entity::TextButton(b) => lemma_text_button_round_trip(b),
        Entity::SpriteButton(b) => lemma_sprite_button_round_trip(b),
    }
}

} // verus!
