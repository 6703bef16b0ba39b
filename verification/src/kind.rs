//! The closed set of entity kinds and their names.

use vstd::prelude::*;
use crate::text::same_text;

verus! {

/// Which concrete entity an entity is.
#[derive(Debug, Clone, Copy, PartialEq, Eq, Structural)]
pub enum Kind {
    Node,
    RectMesh,
    Sprite,
    Text,
    Camera,
    ClickableArea,
    Collider,
    SoundPlayer,
    TextButton,
    SpriteButton,
}

impl Kind {
    /// The name that descriptions and snapshots carry for the kind.
    pub open spec fn name_spec(self) -> Seq<char> {
        match self {
            Kind::Node => "Node"@,
            Kind::RectMesh => "RectMesh"@,
            Kind::Sprite => "Sprite"@,
            Kind::Text => "Text"@,
            Kind::Camera => "Camera"@,
            Kind::ClickableArea => "ClickableArea"@,
            Kind::Collider => "Collider"@,
            Kind::SoundPlayer => "SoundPlayer"@,
            Kind::TextButton => "TextButton"@,
            Kind::SpriteButton => "SpriteButton"@,
        }
    }

    /// The kind with the given name, if there is one.
    pub open spec fn named(name: Seq<char>) -> Option<Kind> {
        if name == "Node"@ {
            Some(Kind::Node)
        } else if name == "RectMesh"@ {
            Some(Kind::RectMesh)
        } else if name == "Sprite"@ {
            Some(Kind::Sprite)
        } else if name == "Text"@ {
            Some(Kind::Text)
        } else if name == "Camera"@ {
            Some(Kind::Camera)
        } else if name == "ClickableArea"@ {
            Some(Kind::ClickableArea)
        } else if name == "Collider"@ {
            Some(Kind::Collider)
        } else if name == "SoundPlayer"@ {
            Some(Kind::SoundPlayer)
        } else if name == "TextButton"@ {
            Some(Kind::TextButton)
        } else if name == "SpriteButton"@ {
            Some(Kind::SpriteButton)
        } else {
            None
        }
    }

    /// The name of the kind.
    pub fn name(&self) -> (s: &'static str)
        ensures
            s@ == self.name_spec(),
    {
        match self {
            Kind::Node => "Node",
            Kind::RectMesh => "RectMesh",
            Kind::Sprite => "Sprite",
            Kind::Text => "Text",
            Kind::Camera => "Camera",
            Kind::ClickableArea => "ClickableArea",
            Kind::Collider => "Collider",
            Kind::SoundPlayer => "SoundPlayer",
            Kind::TextButton => "TextButton",
            Kind::SpriteButton => "SpriteButton",
        }
    }

    /// The kind that `name` names; `None` for any other text.
    pub fn from_name(name: &str) -> (k: Option<Kind>)
        ensures
            k == Kind::named(name@),
    {
        if same_text(name, "Node") {
            Some(Kind::Node)
        } else if same_text(name, "RectMesh") {
            Some(Kind::RectMesh)
        } else if same_text(name, "Sprite") {
            Some(Kind::Sprite)
        } else if same_text(name, "Text") {
            Some(Kind::Text)
        } else if same_text(name, "Camera") {
            Some(Kind::Camera)
        } else if same_text(name, "ClickableArea") {
            Some(Kind::ClickableArea)
        } else if same_text(name, "Collider") {
            Some(Kind::Collider)
        } else if same_text(name, "SoundPlayer") {
            Some(Kind::SoundPlayer)
        } else if same_text(name, "TextButton") {
            Some(Kind::TextButton)
        } else if same_text(name, "SpriteButton") {
            Some(Kind::SpriteButton)
        } else {
            None
        }
    }
}

/// Every kind is found again by its name.
pub proof fn lemma_kind_named(k: Kind)
    ensures
        Kind::named(k.name_spec()) == Some(k),
{
    reveal_strlit("Node");
    reveal_strlit("RectMesh");
    reveal_strlit("Sprite");
    reveal_strlit("Text");
    reveal_strlit("Camera");
    reveal_strlit("ClickableArea");
    reveal_strlit("Collider");
    reveal_strlit("SoundPlayer");
    reveal_strlit("TextButton");
    reveal_strlit("SpriteButton");
    assert("Node"@.len() == 4 && "Text"@.len() == 4 && "Node"@[0] != "Text"@[0]);
    assert("Sprite"@.len() == 6 && "Camera"@.len() == 6 && "Sprite"@[0] != "Camera"@[0]);
    assert("RectMesh"@.len() == 8 && "Collider"@.len() == 8 && "RectMesh"@[0] != "Collider"@[0]);
    assert("ClickableArea"@.len() == 13);
    assert("SoundPlayer"@.len() == 11);
    assert("TextButton"@.len() == 10);
    assert("SpriteButton"@.len() == 12);
}

} // verus!
