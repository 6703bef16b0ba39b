//! What a merge has written is read back.
//!
//! An entity that was merged with a value shows in its snapshot what the merge
//! wrote: merging the entity as it was with the snapshot of the entity as it
//! now is gives the same entity again, and the entity as it now is reads its
//! own snapshot back unchanged.  So a field that a script has set, and that the
//! merge has accepted, is what every later snapshot shows until it is set
//! again.  This holds of every kind, and of an entity whose children have
//! distinct names at every level.

use vstd::prelude::*;
use crate::entity::Entity;
use crate::nodes::node::children_merged;
use crate::nodes::node::children_snapshot;
use crate::nodes::button::SpriteButton;
use crate::nodes::button::TextButton;
use crate::nodes::camera::Camera;
use crate::nodes::clickable_area::ClickableArea;
use crate::nodes::collider::Collider;
use crate::nodes::node::Node;
use crate::nodes::rectmesh::RectMesh;
use crate::nodes::soundplayer::SoundPlayer;
use crate::nodes::sprite::Sprite;
use crate::nodes::text::Text;
use crate::round_trip::children_sound;
use crate::round_trip::lemma_area_round_trip;
use crate::round_trip::lemma_camera_round_trip;
use crate::round_trip::lemma_children_snapshot;
use crate::round_trip::lemma_collider_round_trip;
use crate::round_trip::lemma_entity_round_trip;
use crate::round_trip::lemma_find_at;
use crate::round_trip::lemma_node_round_trip;
use crate::round_trip::lemma_player_round_trip;
use crate::round_trip::lemma_rectmesh_round_trip;
use crate::round_trip::lemma_sprite_button_round_trip;
use crate::round_trip::lemma_sprite_round_trip;
use crate::round_trip::lemma_text_button_round_trip;
use crate::round_trip::lemma_text_round_trip;
use crate::round_trip::text_sound;
use crate::variant::Dynamic;

verus! {

/// Sound children that are merged stay sound.
pub proof fn lemma_children_stay_sound(
    children: Seq<(String, Entity)>,
    patch: Dynamic,
    after: Seq<(String, Entity)>,
)
    requires
        children_sound(children),
        children_merged(children, patch, after),
    ensures
        children_sound(after),
    decreases children, 0nat,
{
    assert forall|i: int| 0 <= i < after.len() implies (#[trigger] after[i]).1.sound() by {
        assert(children[i].1.sound());
        if !(patch.field(children[i].0@) is Nil) {
            lemma_stays_sound(children[i].1, patch.field(children[i].0@), after[i].1);
        }
    }
    assert forall|i: int, j: int| 0 <= i < j < after.len() implies (#[trigger] after[i]).0@ != (
    #[trigger] after[j]).0@ by {
        assert(children[i].0@ != children[j].0@);
    }
}

/// A sound entity that is merged stays sound.
pub proof fn lemma_stays_sound(before: Entity, v: Dynamic, after: Entity)
    requires
        before.sound(),
        before.merged(v, after),
    ensures
        after.sound(),
    decreases before, 1nat,
{
    match (before, after) {
        (Entity::Node(n), Entity::Node(m)) => {
            lemma_children_stay_sound(
                n.children.children@,
                v.field("children"@),
                m.children.children@,
            );
        },
        (Entity::RectMesh(e), Entity::RectMesh(f)) => {
            lemma_children_stay_sound(
                e.base.children.children@,
                v.field("base"@).field("children"@),
                f.base.children.children@,
            );
        },
        (Entity::Sprite(e), Entity::Sprite(f)) => {
            lemma_children_stay_sound(
                e.base.children.children@,
                v.field("base"@).field("children"@),
                f.base.children.children@,
            );
        },
        (Entity::Text(e), Entity::Text(f)) => {
            lemma_children_stay_sound(
                e.base.children.children@,
                v.field("base"@).field("children"@),
                f.base.children.children@,
            );
        },
        (Entity::Camera(e), Entity::Camera(f)) => {
            lemma_children_stay_sound(
                e.base.children.children@,
                v.field("base"@).field("children"@),
                f.base.children.children@,
            );
        },
        (Entity::ClickableArea(e), Entity::ClickableArea(f)) => {
            lemma_children_stay_sound(
                e.base.children.children@,
                v.field("base"@).field("children"@),
                f.base.children.children@,
            );
        },
        (Entity::Collider(e), Entity::Collider(f)) => {
            lemma_children_stay_sound(
                e.base.children.children@,
                v.field("base"@).field("children"@),
                f.base.children.children@,
            );
        },
        (Entity::SoundPlayer(e), Entity::SoundPlayer(f)) => {
            lemma_children_stay_sound(
                e.base.children.children@,
                v.field("base"@).field("children"@),
                f.base.children.children@,
            );
        },
        (Entity::TextButton(e), Entity::TextButton(f)) => {
            assert(e.area.merged(v.field("area"@), &f.area));
            assert(e.text.merged(v.field("text"@), &f.text));
            lemma_children_stay_sound(
                e.base.children.children@,
                v.field("base"@).field("children"@),
                f.base.children.children@,
            );
            lemma_children_stay_sound(
                e.area.base.children.children@,
                v.field("area"@).field("base"@).field("children"@),
                f.area.base.children.children@,
            );
            lemma_children_stay_sound(
                e.text.base.children.children@,
                v.field("text"@).field("base"@).field("children"@),
                f.text.base.children.children@,
            );
        },
        (Entity::SpriteButton(e), Entity::SpriteButton(f)) => {
            assert(e.area.merged(v.field("area"@), &f.area));
            assert(e.sprite.merged(v.field("sprite"@), &f.sprite));
            lemma_children_stay_sound(
                e.base.children.children@,
                v.field("base"@).field("children"@),
                f.base.children.children@,
            );
            lemma_children_stay_sound(
                e.area.base.children.children@,
                v.field("area"@).field("base"@).field("children"@),
                f.area.base.children.children@,
            );
            lemma_children_stay_sound(
                e.sprite.base.children.children@,
                v.field("sprite"@).field("base"@).field("children"@),
                f.sprite.base.children.children@,
            );
        },
        _ => {},
    }
}

/// Children that were merged are a merge of what they were with their own snapshot.
pub proof fn lemma_children_read_back(
    children: Seq<(String, Entity)>,
    patch: Dynamic,
    after: Seq<(String, Entity)>,
)
    requires
        children_sound(children),
        children_merged(children, patch, after),
    ensures
        children_sound(after),
        children_merged(children, Dynamic::Table(children_snapshot(after)), after),
    decreases children, 0nat,
{
    lemma_children_stay_sound(children, patch, after);
    let read = Dynamic::Table(children_snapshot(after));
    let entries = children_snapshot(after);
    lemma_children_snapshot(after);
    assert forall|i: int| 0 <= i < children.len() implies {
        &&& (#[trigger] after[i]).0 == children[i].0
        &&& !(read.field(children[i].0@) is Nil)
        &&& children[i].1.merged(read.field(children[i].0@), after[i].1)
    } by {
        assert forall|j: int| 0 <= j < i implies (#[trigger] entries[j]).0 != Dynamic::Str(
            after[i].0@,
        ) by {
            assert(after[j].0@ != after[i].0@);
        }
        lemma_find_at(entries, after[i].0@, 0, i);
        assert(read.field(after[i].0@) == after[i].1.snapshot());
        assert(after[i].1.sound());
        lemma_entity_round_trip(after[i].1);
        if !(patch.field(children[i].0@) is Nil) {
            assert(children[i].1.sound());
            lemma_read_back(children[i].1, patch.field(children[i].0@), after[i].1);
        }
    }
}

/// A base that was merged is a merge of what it was with its own snapshot.
pub proof fn lemma_node_read_back(before: Node, v: Dynamic, after: Node)
    requires
        children_sound(before.children.children@),
        before.merged(v, &after),
    ensures
        children_sound(after.children.children@),
        before.merged(after.snapshot(), &after),
    decreases before, 0nat,
{
    lemma_children_read_back(
        before.children.children@,
        v.field("children"@),
        after.children.children@,
    );
    lemma_node_round_trip(after);
}

/// A rectangle that was merged is a merge of what it was with its own snapshot.
#[verifier::spinoff_prover]
pub proof fn lemma_rectmesh_read_back(before: RectMesh, v: Dynamic, after: RectMesh)
    requires
        children_sound(before.base.children.children@),
        before.merged(v, &after),
    ensures
        children_sound(after.base.children.children@),
        before.merged(after.snapshot(), &after),
    decreases before, 0nat,
{
    lemma_node_read_back(before.base, v.field("base"@), after.base);
    lemma_rectmesh_round_trip(after);
}

/// A sprite that was merged is a merge of what it was with its own snapshot.
#[verifier::spinoff_prover]
pub proof fn lemma_sprite_read_back(before: Sprite, v: Dynamic, after: Sprite)
    requires
        children_sound(before.base.children.children@),
        before.merged(v, &after),
    ensures
        children_sound(after.base.children.children@),
        before.merged(after.snapshot(), &after),
    decreases before, 0nat,
{
    lemma_node_read_back(before.base, v.field("base"@), after.base);
    lemma_sprite_round_trip(after);
}

/// A text that was merged is a merge of what it was with its own snapshot.
#[verifier::spinoff_prover]
pub proof fn lemma_text_read_back(before: Text, v: Dynamic, after: Text)
    requires
        text_sound(before),
        before.merged(v, &after),
    ensures
        text_sound(after),
        before.merged(after.snapshot(), &after),
    decreases before, 0nat,
{
    lemma_node_read_back(before.base, v.field("base"@), after.base);
    lemma_text_round_trip(after);
}

/// A camera that was merged is a merge of what it was with its own snapshot.
#[verifier::spinoff_prover]
pub proof fn lemma_camera_read_back(before: Camera, v: Dynamic, after: Camera)
    requires
        children_sound(before.base.children.children@),
        before.merged(v, &after),
    ensures
        children_sound(after.base.children.children@),
        before.merged(after.snapshot(), &after),
    decreases before, 0nat,
{
    lemma_node_read_back(before.base, v.field("base"@), after.base);
    lemma_camera_round_trip(after);
}

/// A clickable area that was merged is a merge of what it was with its own snapshot.
#[verifier::spinoff_prover]
pub proof fn lemma_area_read_back(before: ClickableArea, v: Dynamic, after: ClickableArea)
    requires
        children_sound(before.base.children.children@),
        before.merged(v, &after),
    ensures
        children_sound(after.base.children.children@),
        before.merged(after.snapshot(), &after),
    decreases before, 0nat,
{
    lemma_node_read_back(before.base, v.field("base"@), after.base);
    lemma_area_round_trip(after);
}

/// A collider that was merged is a merge of what it was with its own snapshot.
#[verifier::spinoff_prover]
pub proof fn lemma_collider_read_back(before: Collider, v: Dynamic, after: Collider)
    requires
        children_sound(before.base.children.children@),
        before.merged(v, &after),
    ensures
        children_sound(after.base.children.children@),
        before.merged(after.snapshot(), &after),
    decreases before, 0nat,
{
    lemma_node_read_back(before.base, v.field("base"@), after.base);
    lemma_collider_round_trip(after);
}

/// A sound player that was merged is a merge of what it was with its own snapshot.
#[verifier::spinoff_prover]
pub proof fn lemma_player_read_back(before: SoundPlayer, v: Dynamic, after: SoundPlayer)
    requires
        children_sound(before.base.children.children@),
        before.merged(v, &after),
    ensures
        children_sound(after.base.children.children@),
        before.merged(after.snapshot(), &after),
    decreases before, 0nat,
{
    lemma_node_read_back(before.base, v.field("base"@), after.base);
    lemma_player_round_trip(after);
}

/// A text button that was merged is a merge of what it was with its own snapshot.
#[verifier::spinoff_prover]
pub proof fn lemma_text_button_read_back(before: TextButton, v: Dynamic, after: TextButton)
    requires
        children_sound(before.base.children.children@),
        children_sound(before.area.base.children.children@),
        text_sound(before.text),
        before.merged(v, &after),
    ensures
        children_sound(after.base.children.children@),
        children_sound(after.area.base.children.children@),
        text_sound(after.text),
        before.merged(after.snapshot(), &after),
    decreases before, 0nat,
{
    lemma_node_read_back(before.base, v.field("base"@), after.base);
    lemma_area_read_back(before.area, v.field("area"@), after.area);
    lemma_text_read_back(before.text, v.field("text"@), after.text);
    lemma_text_button_round_trip(after);
}

/// A sprite button that was merged is a merge of what it was with its own snapshot.
#[verifier::spinoff_prover]
pub proof fn lemma_sprite_button_read_back(before: SpriteButton, v: Dynamic, after: SpriteButton)
    requires
        children_sound(before.base.children.children@),
        children_sound(before.area.base.children.children@),
        children_sound(before.sprite.base.children.children@),
        before.merged(v, &after),
    ensures
        children_sound(after.base.children.children@),
        children_sound(after.area.base.children.children@),
        children_sound(after.sprite.base.children.children@),
        before.merged(after.snapshot(), &after),
    decreases before, 0nat,
{
    lemma_node_read_back(before.base, v.field("base"@), after.base);
    lemma_area_read_back(before.area, v.field("area"@), after.area);
    lemma_sprite_read_back(before.sprite, v.field("sprite"@), after.sprite);
    lemma_sprite_button_round_trip(after);
}

/// What a merge has written is read back: an entity that was merged is a merge of what
/// it was with its own snapshot, in place of the value it was merged with, and it reads
/// its own snapshot back unchanged.
pub proof fn lemma_read_back(before: Entity, v: Dynamic, after: Entity)
    requires
        before.sound(),
        before.merged(v, after),
    ensures
        after.sound(),
        after.accepts(after.snapshot()) is Ok,
        after.merged(after.snapshot(), after),
        before.merged(after.snapshot(), after),
    decreases before, 1nat,
{
    match (before, after) {
        (Entity::Node(n), Entity::Node(m)) => {
            lemma_node_read_back(n, v, m);
        },
        (Entity::RectMesh(e), Entity::RectMesh(f)) => lemma_rectmesh_read_back(e, v, f),
        (Entity::Sprite(e), Entity::Sprite(f)) => lemma_sprite_read_back(e, v, f),
        (Entity::Text(e), Entity::Text(f)) => lemma_text_read_back(e, v, f),
        (Entity::Camera(e), Entity::Camera(f)) => lemma_camera_read_back(e, v, f),
        (Entity::ClickableArea(e), Entity::ClickableArea(f)) => lemma_area_read_back(e, v, f),
        (Entity::Collider(e), Entity::Collider(f)) => lemma_collider_read_back(e, v, f),
        (Entity::SoundPlayer(e), Entity::SoundPlayer(f)) => lemma_player_read_back(e, v, f),
        (Entity::TextButton(e), Entity::TextButton(f)) => lemma_text_button_read_back(e, v, f),
        (Entity::SpriteButton(e), Entity::SpriteButton(f)) => lemma_sprite_button_read_back(
            e,
            v,
            f,
        ),
        _ => {},
    }
    lemma_entity_round_trip(after);
}

} // verus!
