//! The entity: one of the kinds, behind one set of capabilities.

use vstd::prelude::*;
use crate::error::EngineError;
use crate::children_container::same_names;
use crate::color::Color;
use crate::image::Img;
use crate::image::ImgView;
use crate::kind::Kind;
use crate::nodelike::IdCounter;
use crate::nodes::button::SpriteButton;
use crate::nodes::button::TextButton;
use crate::nodes::camera::Camera;
use crate::nodes::clickable_area::ClickableArea;
use crate::nodes::collider::with_record;
use crate::nodes::collider::Collider;
use crate::nodes::collider::ColliderRegistry;
use crate::nodes::collider::RecordView;
use crate::nodes::node::Node;
use crate::nodes::rectmesh::RectMesh;
use crate::nodes::soundplayer::SoundPlayer;
use crate::nodes::sprite::Sprite;
use crate::nodes::text::Text;
use crate::scalar::Scalar;
use crate::scalar::ONE_BITS;
use crate::scalar::ZERO_BITS;
use crate::script_manager::ScriptManager;
use crate::variant::lemma_pairs_view;
use crate::variant::pairs_view;
use crate::variant::Dynamic;
use crate::variant::Intrinsic;
use crate::transform::Transform;
use crate::variant::Variant;
use crate::vec2::Vec2;

verus! {

/// An entity of the scene tree.
pub enum Entity {
    Node(Node),
    RectMesh(RectMesh),
    Sprite(Sprite),
    Text(Text),
    Camera(Camera),
    ClickableArea(ClickableArea),
    Collider(Collider),
    SoundPlayer(SoundPlayer),
    TextButton(TextButton),
    SpriteButton(SpriteButton),
}

/// A snapshot with the tag of a kind added at its end.
pub open spec fn tagged(v: Dynamic, kind: Kind) -> Dynamic {
    Dynamic::Table(v.entries().push(Dynamic::pair("kind"@, Dynamic::Function(Intrinsic::Kind(kind)))))
}

/// How many identities an entity of a kind takes: three for a button, which has an
/// identity for itself and one for each of its two parts, and one for any other kind.
pub open spec fn ids_needed(kind: Kind) -> nat {
    match kind {
        Kind::TextButton => 3,
        Kind::SpriteButton => 3,
        _ => 1,
    }
}

/// How many identities an entity of `kind` takes.
pub fn needed_ids(kind: Kind) -> (n: u64)
    ensures
        n == ids_needed(kind),
{
    match kind {
        Kind::TextButton => 3,
        Kind::SpriteButton => 3,
        _ => 1,
    }
}

/// The transform of a blank entity: at the origin, of no extent, not scaled.
pub open spec fn blank_transform() -> Transform {
    Transform {
        pos: Vec2 { x: 0, y: 0 },
        size: Vec2 { x: 0, y: 0 },
        scale: Scalar { bits: ONE_BITS },
    }
}

/// A blank text with the identity `id`.
pub open spec fn blank_text(t: Text, id: int) -> bool {
    &&& t.base.is_fresh(id)
    &&& t.text@.len() == 0
    &&& t.pos == (Vec2 { x: 0, y: 0 })
    &&& t.scale.bits == ONE_BITS
    &&& t.aspect.bits == ONE_BITS
    &&& t.font_size == 0
    &&& t.font_path is None
    &&& !t.font_stale
    &&& t.measured == (Vec2 { x: 0, y: 0 })
    &&& t.rotation.bits == ZERO_BITS
    &&& t.color == (Color { r: 0, g: 0, b: 0, a: 0 })
}

/// A blank sprite with the identity `id`.
pub open spec fn blank_sprite(s: Sprite, id: int) -> bool {
    &&& s.base.is_fresh(id)
    &&& s.transform == blank_transform()
    &&& s.img@ == (ImgView {
        texture: Seq::empty(),
        rotation: Scalar { bits: ZERO_BITS },
        src: None,
        tint: Color { r: 255, g: 255, b: 255, a: 255 },
        flip_x: false,
        flip_y: false,
    })
}

/// A blank clickable area with the identity `id`.
pub open spec fn blank_area(a: ClickableArea, id: int) -> bool {
    a.base.is_fresh(id) && a.transform == blank_transform()
}

/// `records` after every collider among `children` at or after `from`, and among their
/// children, has been recorded, in order.
pub open spec fn children_recorded(
    children: Seq<(String, Entity)>,
    records: Seq<RecordView>,
    from: int,
) -> Seq<RecordView>
    decreases children, children.len() - from,
{
    if from < 0 || from >= children.len() {
        records
    } else {
        children_recorded(children, children[from].1.recorded(records), from + 1)
    }
}

impl Entity {
    /// `records` after the entity, if it is a collider, and then every collider among its
    /// children and their children has been recorded.
    pub open spec fn recorded(&self, records: Seq<RecordView>) -> Seq<RecordView>
        decreases self, 0nat,
    {
        match self {
            Entity::Node(n) => children_recorded(n.children.children@, records, 0),
            Entity::Collider(c) => children_recorded(
                c.base.children.children@,
                with_record(records, c.record_view()),
                0,
            ),
            Entity::RectMesh(e) => children_recorded(e.base.children.children@, records, 0),
            Entity::Sprite(e) => children_recorded(e.base.children.children@, records, 0),
            Entity::Text(e) => children_recorded(e.base.children.children@, records, 0),
            Entity::Camera(e) => children_recorded(e.base.children.children@, records, 0),
            Entity::ClickableArea(e) => children_recorded(e.base.children.children@, records, 0),
            Entity::SoundPlayer(e) => children_recorded(e.base.children.children@, records, 0),
            Entity::TextButton(e) => children_recorded(e.base.children.children@, records, 0),
            Entity::SpriteButton(e) => children_recorded(e.base.children.children@, records, 0),
        }
    }

    /// Makes every collider of the entity's tree known to `registry` as it lies now.
    pub fn record_colliders(&self, registry: &mut ColliderRegistry)
        ensures
            final(registry)@ == self.recorded(old(registry)@),
        decreases self,
    {
        match self {
            Entity::Collider(c) => {
                c.register(registry);
            },
            _ => {},
        }
        let base = self.base();
        let n = base.children.children.len();
        let ghost all = base.children.children@;
        let mut i: usize = 0;
        while i < n
            invariant
                i <= n,
                n == all.len(),
                all == base.children.children@,
                *base == self.base_spec(),
                self.recorded(old(registry)@) == children_recorded(all, registry@, i as int),
            decreases n - i,
        {
            proof {
                vstd::std_specs::vec::axiom_vec_index_decreases(base.children.children, i as int);
            }
            base.children.children[i].1.record_colliders(registry);
            i += 1;
        }
    }

    /// Whether the entity is the blank entity of `kind` made from `ids`: set at the
    /// origin with no extent, transparent black, without text, texture, layer or sound,
    /// without children and scripts.
    pub open spec fn is_blank(&self, kind: Kind, ids: IdCounter) -> bool {
        match *self {
            Entity::Node(n) => kind == Kind::Node && n.is_fresh(ids.nth(0)),
            Entity::RectMesh(e) => kind == Kind::RectMesh && e.base.is_fresh(ids.nth(0))
                && e.transform == blank_transform() && e.color == (Color {
                r: 0,
                g: 0,
                b: 0,
                a: 0,
            }),
            Entity::Sprite(e) => kind == Kind::Sprite && blank_sprite(e, ids.nth(0)),
            Entity::Text(e) => kind == Kind::Text && blank_text(e, ids.nth(0)),
            Entity::Camera(e) => kind == Kind::Camera && e.base.is_fresh(ids.nth(0))
                && e.transform == blank_transform() && e.focal_length.bits == ONE_BITS,
            Entity::ClickableArea(e) => kind == Kind::ClickableArea && blank_area(e, ids.nth(0)),
            Entity::Collider(e) => kind == Kind::Collider && e.base.is_fresh(ids.nth(0))
                && e.transform == blank_transform() && e.layer@.len() == 0,
            Entity::SoundPlayer(e) => kind == Kind::SoundPlayer && e.base.is_fresh(ids.nth(0))
                && e.sound@.len() == 0,
            Entity::TextButton(e) => kind == Kind::TextButton && blank_text(e.text, ids.nth(0))
                && e.base.is_fresh(ids.nth(1)) && blank_area(e.area, ids.nth(2)),
            Entity::SpriteButton(e) => kind == Kind::SpriteButton && e.base.is_fresh(ids.nth(0))
                && blank_sprite(e.sprite, ids.nth(1)) && blank_area(e.area, ids.nth(2)),
        }
    }

    /// The blank entity of `kind`.
    pub fn blank(kind: Kind, ids: &mut IdCounter) -> (e: Entity)
        requires
            old(ids).remaining() >= ids_needed(kind),
        ensures
            e.is_blank(kind, *old(ids)),
            e.kind_spec() == kind,
            *final(ids) == old(ids).after(ids_needed(kind)),
    {
        proof {
            reveal_strlit("");
        }
        let origin = Vec2::zero();
        let black = Color::from_rgba(0, 0, 0, 0);
        let e = match kind {
            Kind::Node => Entity::Node(Node::new(ids)),
            Kind::RectMesh => Entity::RectMesh(RectMesh::new(origin, origin, black, ids)),
            Kind::Sprite => Entity::Sprite(Sprite::new(origin, origin, Img::new(""), ids)),
            Kind::Text => Entity::Text(Text::new("", origin, 0, black, ids)),
            Kind::Camera => Entity::Camera(Camera::new(origin, origin, Scalar::one(), ids)),
            Kind::ClickableArea => Entity::ClickableArea(ClickableArea::new(origin, origin, ids)),
            Kind::Collider => Entity::Collider(Collider::empty(ids)),
            Kind::SoundPlayer => Entity::SoundPlayer(SoundPlayer::empty(ids)),
            Kind::TextButton => Entity::TextButton(
                TextButton::new("", origin, 0, black, origin, ids),
            ),
            Kind::SpriteButton => Entity::SpriteButton(
                SpriteButton::new(origin, origin, Img::new(""), ids),
            ),
        };
        proof {
            assert(""@ =~= Seq::<char>::empty());
        }
        e
    }

    /// The entity that a description describes: the blank entity of the kind named
    /// `kind_name`, merged with `description`.
    ///
    /// Fails with [`EngineError::UnknownKind`] where no kind has that name, and with what
    /// the blank entity objects to where it does not accept the description.  There must
    /// be as many identities left as an entity of the kind takes.
    pub fn construct(kind_name: &str, description: &Variant, ids: &mut IdCounter) -> (r: Result<
        Entity,
        EngineError,
    >)
        requires
            Kind::named(kind_name@) is Some ==> old(ids).remaining() >= ids_needed(
                Kind::named(kind_name@)->0,
            ),
        ensures
            match Kind::named(kind_name@) {
                None => r == Err::<Entity, EngineError>(EngineError::UnknownKind) && *final(ids)
                    == *old(ids),
                Some(kind) => {
                    &&& *final(ids) == old(ids).after(ids_needed(kind))
                    &&& exists|b: Entity|
                        {
                            &&& #[trigger] b.is_blank(kind, *old(ids))
                            &&& match b.accepts(description@) {
                                Ok(()) => r is Ok && b.merged(description@, r->Ok_0),
                                Err(e) => r == Err::<Entity, EngineError>(e),
                            }
                        }
                },
            },
    {
        let kind = match Kind::from_name(kind_name) {
            Some(k) => k,
            None => {
                return Err(EngineError::UnknownKind);
            },
        };
        let mut entity = Entity::blank(kind, ids);
        let ghost b = entity;
        match entity.from_lua(description) {
            Ok(()) => {
                assert(b.is_blank(kind, *old(ids)));
                Ok(entity)
            },
            Err(e) => {
                assert(b.is_blank(kind, *old(ids)));
                Err(e)
            },
        }
    }

    /// The kind of the entity.
    pub open spec fn kind_spec(&self) -> Kind {
        match self {
            Entity::Node(_) => Kind::Node,
            Entity::RectMesh(_) => Kind::RectMesh,
            Entity::Sprite(_) => Kind::Sprite,
            Entity::Text(_) => Kind::Text,
            Entity::Camera(_) => Kind::Camera,
            Entity::ClickableArea(_) => Kind::ClickableArea,
            Entity::Collider(_) => Kind::Collider,
            Entity::SoundPlayer(_) => Kind::SoundPlayer,
            Entity::TextButton(_) => Kind::TextButton,
            Entity::SpriteButton(_) => Kind::SpriteButton,
        }
    }

    /// The base of the entity.
    pub open spec fn base_spec(&self) -> Node {
        match *self {
            Entity::Node(n) => n,
            Entity::RectMesh(e) => e.base,
            Entity::Sprite(e) => e.base,
            Entity::Text(e) => e.base,
            Entity::Camera(e) => e.base,
            Entity::ClickableArea(e) => e.base,
            Entity::Collider(e) => e.base,
            Entity::SoundPlayer(e) => e.base,
            Entity::TextButton(e) => e.base,
            Entity::SpriteButton(e) => e.base,
        }
    }

    /// The entity with `base` for its base.
    pub open spec fn with_base(self, base: Node) -> Entity {
        match self {
            Entity::Node(_) => Entity::Node(base),
            Entity::RectMesh(e) => Entity::RectMesh(RectMesh { base, ..e }),
            Entity::Sprite(e) => Entity::Sprite(Sprite { base, ..e }),
            Entity::Text(e) => Entity::Text(Text { base, ..e }),
            Entity::Camera(e) => Entity::Camera(Camera { base, ..e }),
            Entity::ClickableArea(e) => Entity::ClickableArea(ClickableArea { base, ..e }),
            Entity::Collider(e) => Entity::Collider(Collider { base, ..e }),
            Entity::SoundPlayer(e) => Entity::SoundPlayer(SoundPlayer { base, ..e }),
            Entity::TextButton(e) => Entity::TextButton(TextButton { base, ..e }),
            Entity::SpriteButton(e) => Entity::SpriteButton(SpriteButton { base, ..e }),
        }
    }

    /// The kind of the entity.
    pub fn kind(&self) -> (k: Kind)
        ensures
            k == self.kind_spec(),
    {
        match self {
            Entity::Node(_) => Kind::Node,
            Entity::RectMesh(_) => Kind::RectMesh,
            Entity::Sprite(_) => Kind::Sprite,
            Entity::Text(_) => Kind::Text,
            Entity::Camera(_) => Kind::Camera,
            Entity::ClickableArea(_) => Kind::ClickableArea,
            Entity::Collider(_) => Kind::Collider,
            Entity::SoundPlayer(_) => Kind::SoundPlayer,
            Entity::TextButton(_) => Kind::TextButton,
            Entity::SpriteButton(_) => Kind::SpriteButton,
        }
    }

    /// The name of the entity's kind.
    pub fn get_kind(&self) -> (name: &'static str)
        ensures
            name@ == self.kind_spec().name_spec(),
    {
        self.kind().name()
    }

    /// The base of the entity.
    pub fn base(&self) -> (b: &Node)
        ensures
            *b == self.base_spec(),
    {
        match self {
            Entity::Node(n) => n,
            Entity::RectMesh(e) => &e.base,
            Entity::Sprite(e) => &e.base,
            Entity::Text(e) => &e.base,
            Entity::Camera(e) => &e.base,
            Entity::ClickableArea(e) => &e.base,
            Entity::Collider(e) => &e.base,
            Entity::SoundPlayer(e) => &e.base,
            Entity::TextButton(e) => &e.base,
            Entity::SpriteButton(e) => &e.base,
        }
    }

    /// The base of the entity, to be changed.
    pub fn base_mut(&mut self) -> (b: &mut Node)
        ensures
            *b == old(self).base_spec(),
            *final(self) == old(self).with_base(*final(b)),
    {
        match self {
            Entity::Node(n) => n,
            Entity::RectMesh(e) => &mut e.base,
            Entity::Sprite(e) => &mut e.base,
            Entity::Text(e) => &mut e.base,
            Entity::Camera(e) => &mut e.base,
            Entity::ClickableArea(e) => &mut e.base,
            Entity::Collider(e) => &mut e.base,
            Entity::SoundPlayer(e) => &mut e.base,
            Entity::TextButton(e) => &mut e.base,
            Entity::SpriteButton(e) => &mut e.base,
        }
    }

    /// The identity of the entity.
    pub fn id(&self) -> (id: u64)
        ensures
            id == self.base_spec().id,
    {
        self.base().id
    }

    /// The scripts attached to the entity, to attach more or to run them.
    pub fn get_scripts(&mut self) -> (scripts: &mut ScriptManager)
        ensures
            *scripts == old(self).base_spec().scripts,
            *final(self) == old(self).with_base(
                Node { scripts: *final(scripts), ..old(self).base_spec() },
            ),
    {
        match self {
            Entity::Node(n) => n.get_scripts(),
            Entity::RectMesh(e) => e.base.get_scripts(),
            Entity::Sprite(e) => e.base.get_scripts(),
            Entity::Text(e) => e.base.get_scripts(),
            Entity::Camera(e) => e.base.get_scripts(),
            Entity::ClickableArea(e) => e.base.get_scripts(),
            Entity::Collider(e) => e.base.get_scripts(),
            Entity::SoundPlayer(e) => e.base.get_scripts(),
            Entity::TextButton(e) => e.base.get_scripts(),
            Entity::SpriteButton(e) => e.base.get_scripts(),
        }
    }

    /// Whether `after` is the entity after a frame's native update.
    ///
    /// The update changes nothing but the area of a text button, which takes the extent
    /// that the host last measured for the button's text; it reaches every child.
    pub open spec fn updated(&self, after: Entity) -> bool
        decreases self, 1nat,
    {
        match (self, after) {
            (Entity::Node(n), Entity::Node(m)) => n.updated(&m),
            (Entity::RectMesh(e), Entity::RectMesh(f)) => e.updated(&f),
            (Entity::Sprite(e), Entity::Sprite(f)) => e.updated(&f),
            (Entity::Text(e), Entity::Text(f)) => e.updated(&f),
            (Entity::Camera(e), Entity::Camera(f)) => e.updated(&f),
            (Entity::ClickableArea(e), Entity::ClickableArea(f)) => e.updated(&f),
            (Entity::Collider(e), Entity::Collider(f)) => e.updated(&f),
            (Entity::SoundPlayer(e), Entity::SoundPlayer(f)) => e.updated(&f),
            (Entity::TextButton(e), Entity::TextButton(f)) => e.updated(&f),
            (Entity::SpriteButton(e), Entity::SpriteButton(f)) => e.updated(&f),
            _ => false,
        }
    }

    /// What the entity does natively before its scripts are first run: nothing, for every
    /// kind there is.
    pub fn setup(&mut self)
        ensures
            *final(self) == *old(self),
    {
    }

    /// The native part of a frame.
    pub fn update(&mut self, deltatime: Scalar)
        ensures
            old(self).updated(*final(self)),
        decreases *old(self),
    {
        match self {
            Entity::Node(n) => n.update(deltatime),
            Entity::RectMesh(e) => e.update(deltatime),
            Entity::Sprite(e) => e.update(deltatime),
            Entity::Text(e) => e.update(deltatime),
            Entity::Camera(e) => e.update(deltatime),
            Entity::ClickableArea(e) => e.update(deltatime),
            Entity::Collider(e) => e.update(deltatime),
            Entity::SoundPlayer(e) => e.update(deltatime),
            Entity::TextButton(e) => e.update(deltatime),
            Entity::SpriteButton(e) => e.update(deltatime),
        }
    }

    /// Whether the scripts of the entity, and of the parts of a button, live in the
    /// runtime `lua`.
    pub open spec fn scripts_within(&self, lua: mlua::Lua) -> bool {
        &&& self.base_spec().scripts.within(lua)
        &&& match *self {
            Entity::TextButton(e) => e.area.base.scripts.within(lua)
                && e.text.base.scripts.within(lua),
            Entity::SpriteButton(e) => e.area.base.scripts.within(lua)
                && e.sprite.base.scripts.within(lua),
            _ => true,
        }
    }

    /// Whether the scripts of the entity and of the entities below it, `depth` levels
    /// down, live in the runtime `lua`.
    pub open spec fn tree_within(&self, lua: mlua::Lua, depth: nat) -> bool
        decreases depth,
    {
        &&& self.scripts_within(lua)
        &&& depth > 0 ==> forall|i: int|
            0 <= i < self.base_spec().children.children@.len() ==> (
            #[trigger] self.base_spec().children.children@[i]).1.tree_within(
                lua,
                (depth - 1) as nat,
            )
    }

    /// Whether the scripts of the entity and of every entity below it live in the runtime
    /// `lua`.
    pub open spec fn lives_in(&self, lua: mlua::Lua) -> bool {
        forall|depth: nat| #[trigger] self.tree_within(lua, depth)
    }

    /// Whether no script is queued for the entity, nor for a part of a button.
    pub open spec fn nothing_queued(&self) -> bool {
        &&& self.base_spec().scripts.pending().len() == 0
        &&& match *self {
            Entity::TextButton(e) => e.area.base.scripts.pending().len() == 0
                && e.text.base.scripts.pending().len() == 0,
            Entity::SpriteButton(e) => e.area.base.scripts.pending().len() == 0
                && e.sprite.base.scripts.pending().len() == 0,
            _ => true,
        }
    }

    /// Runs the top level of every queued script of the entity, and of the parts of a
    /// button.  Children are not reached.  With nothing queued the load succeeds.
    pub fn load_scripts(&mut self, lua: &mlua::Lua) -> (r: Result<(), EngineError>)
        requires
            old(self).scripts_within(*lua),
        ensures
            final(self).scripts_within(*lua),
            old(self).nothing_queued() ==> r is Ok,
            r is Err ==> (r->Err_0 == EngineError::ScriptCompile || r->Err_0
                == EngineError::ScriptRuntime),
            final(self).kind_spec() == old(self).kind_spec(),
            final(self).base_spec().id == old(self).base_spec().id,
            final(self).base_spec().children == old(self).base_spec().children,
            final(self).base_spec().scripts.pending() == Seq::<Seq<char>>::empty(),
            r is Ok ==> final(self).base_spec().scripts.live() == Some(
                old(self).base_spec().scripts.pending(),
            ),
    {
        match self {
            Entity::Node(n) => n.load_scripts(lua),
            Entity::RectMesh(e) => e.load_scripts(lua),
            Entity::Sprite(e) => e.load_scripts(lua),
            Entity::Text(e) => e.load_scripts(lua),
            Entity::Camera(e) => e.load_scripts(lua),
            Entity::ClickableArea(e) => e.load_scripts(lua),
            Entity::Collider(e) => e.load_scripts(lua),
            Entity::SoundPlayer(e) => e.load_scripts(lua),
            Entity::TextButton(e) => e.load_scripts(lua),
            Entity::SpriteButton(e) => e.load_scripts(lua),
        }
    }

    /// What scripts see of the entity.
    pub open spec fn snapshot(&self) -> Dynamic
        decreases self, 1nat,
    {
        match self {
            Entity::Node(n) => tagged(n.snapshot(), Kind::Node),
            Entity::RectMesh(e) => e.snapshot(),
            Entity::Sprite(e) => e.snapshot(),
            Entity::Text(e) => e.snapshot(),
            Entity::Camera(e) => e.snapshot(),
            Entity::ClickableArea(e) => e.snapshot(),
            Entity::Collider(e) => e.snapshot(),
            Entity::SoundPlayer(e) => e.snapshot(),
            Entity::TextButton(e) => e.snapshot(),
            Entity::SpriteButton(e) => e.snapshot(),
        }
    }

    /// Whether the entity can be merged with `v`, and if not, why not.
    pub open spec fn accepts(&self, v: Dynamic) -> Result<(), EngineError>
        decreases self, 1nat,
    {
        match self {
            Entity::Node(n) => n.accepts(v),
            Entity::RectMesh(e) => e.accepts(v),
            Entity::Sprite(e) => e.accepts(v),
            Entity::Text(e) => e.accepts(v),
            Entity::Camera(e) => e.accepts(v),
            Entity::ClickableArea(e) => e.accepts(v),
            Entity::Collider(e) => e.accepts(v),
            Entity::SoundPlayer(e) => e.accepts(v),
            Entity::TextButton(e) => e.accepts(v),
            Entity::SpriteButton(e) => e.accepts(v),
        }
    }

    /// Whether `after` is the entity merged with `v`.
    pub open spec fn merged(&self, v: Dynamic, after: Entity) -> bool
        decreases self, 1nat,
    {
        match (self, after) {
            (Entity::Node(n), Entity::Node(m)) => n.merged(v, &m),
            (Entity::RectMesh(e), Entity::RectMesh(f)) => e.merged(v, &f),
            (Entity::Sprite(e), Entity::Sprite(f)) => e.merged(v, &f),
            (Entity::Text(e), Entity::Text(f)) => e.merged(v, &f),
            (Entity::Camera(e), Entity::Camera(f)) => e.merged(v, &f),
            (Entity::ClickableArea(e), Entity::ClickableArea(f)) => e.merged(v, &f),
            (Entity::Collider(e), Entity::Collider(f)) => e.merged(v, &f),
            (Entity::SoundPlayer(e), Entity::SoundPlayer(f)) => e.merged(v, &f),
            (Entity::TextButton(e), Entity::TextButton(f)) => e.merged(v, &f),
            (Entity::SpriteButton(e), Entity::SpriteButton(f)) => e.merged(v, &f),
            _ => false,
        }
    }

    /// The snapshot of the entity.
    pub fn as_lua(&self) -> (v: Variant)
        ensures
            v@ == self.snapshot(),
        decreases self,
    {
        match self {
            Entity::Node(n) => {
                let base = n.as_lua();
                match base {
                    Variant::Table(entries) => {
                        let mut entries = entries;
                        let ghost before = entries@;
                        entries.push(
                            Variant::entry("kind", Variant::Function(Intrinsic::Kind(Kind::Node))),
                        );
                        proof {
                            lemma_pairs_view(before);
                            lemma_pairs_view(entries@);
                            assert(pairs_view(entries@) =~= self.snapshot().entries());
                        }
                        Variant::table(entries)
                    },
                    _ => Variant::Nil,
                }
            },
            Entity::RectMesh(e) => e.as_lua(),
            Entity::Sprite(e) => e.as_lua(),
            Entity::Text(e) => e.as_lua(),
            Entity::Camera(e) => e.as_lua(),
            Entity::ClickableArea(e) => e.as_lua(),
            Entity::Collider(e) => e.as_lua(),
            Entity::SoundPlayer(e) => e.as_lua(),
            Entity::TextButton(e) => e.as_lua(),
            Entity::SpriteButton(e) => e.as_lua(),
        }
    }

    /// Whether the entity can be merged with `value`; nothing is changed.
    pub fn check(&self, value: &Variant) -> (r: Result<(), EngineError>)
        ensures
            r == self.accepts(value@),
        decreases self,
    {
        match self {
            Entity::Node(n) => n.check(value),
            Entity::RectMesh(e) => e.check(value),
            Entity::Sprite(e) => e.check(value),
            Entity::Text(e) => e.check(value),
            Entity::Camera(e) => e.check(value),
            Entity::ClickableArea(e) => e.check(value),
            Entity::Collider(e) => e.check(value),
            Entity::SoundPlayer(e) => e.check(value),
            Entity::TextButton(e) => e.check(value),
            Entity::SpriteButton(e) => e.check(value),
        }
    }

    /// Merges the entity with `value`, which it accepts.
    pub fn apply(&mut self, value: &Variant)
        requires
            old(self).accepts(value@) is Ok,
        ensures
            old(self).merged(value@, *final(self)),
        decreases *old(self),
    {
        match self {
            Entity::Node(n) => n.apply(value),
            Entity::RectMesh(e) => e.apply(value),
            Entity::Sprite(e) => e.apply(value),
            Entity::Text(e) => e.apply(value),
            Entity::Camera(e) => e.apply(value),
            Entity::ClickableArea(e) => e.apply(value),
            Entity::Collider(e) => e.apply(value),
            Entity::SoundPlayer(e) => e.apply(value),
            Entity::TextButton(e) => e.apply(value),
            Entity::SpriteButton(e) => e.apply(value),
        }
    }

    /// Merges the entity with `value`, or leaves it as it is where it does not accept
    /// `value`.
    pub fn from_lua(&mut self, value: &Variant) -> (r: Result<(), EngineError>)
        ensures
            r == old(self).accepts(value@),
            r is Ok ==> old(self).merged(value@, *final(self)),
            r is Err ==> *final(self) == *old(self),
    {
        let checked = self.check(value);
        if checked.is_ok() {
            self.apply(value);
        }
        checked
    }
}

/// Merging leaves an entity its kind, its identity and its scripts, and every child under
/// its name.
pub proof fn lemma_merged_keeps_identity(before: Entity, v: Dynamic, after: Entity)
    requires
        before.merged(v, after),
    ensures
        after.kind_spec() == before.kind_spec(),
        after.base_spec().id == before.base_spec().id,
        after.base_spec().scripts == before.base_spec().scripts,
        after.base_spec().children.children@.len() == before.base_spec().children.children@.len(),
        same_names(before.base_spec().children.children@, after.base_spec().children.children@),
{
    let patch = if before is Node {
        v.field("children"@)
    } else {
        v.field("base"@).field("children"@)
    };
    assert(crate::nodes::node::children_merged(
        before.base_spec().children.children@,
        patch,
        after.base_spec().children.children@,
    ));
}

/// A frame's native update leaves an entity its kind, its identity and its scripts, and
/// every child under its name.
pub proof fn lemma_updated_keeps_identity(before: Entity, after: Entity)
    requires
        before.updated(after),
    ensures
        after.kind_spec() == before.kind_spec(),
        after.base_spec().id == before.base_spec().id,
        after.base_spec().scripts == before.base_spec().scripts,
        after.base_spec().children.children@.len() == before.base_spec().children.children@.len(),
        same_names(before.base_spec().children.children@, after.base_spec().children.children@),
{
    assert(crate::nodes::node::children_updated(
        before.base_spec().children.children@,
        after.base_spec().children.children@,
    ));
}

/// Merging leaves the scripts of an entity, and of the parts of a button, as they are.
#[verifier::spinoff_prover]
pub proof fn lemma_merged_scripts(before: Entity, v: Dynamic, after: Entity, lua: mlua::Lua)
    requires
        before.merged(v, after),
        before.scripts_within(lua),
    ensures
        after.scripts_within(lua),
{
    lemma_merged_keeps_identity(before, v, after);
    match (before, after) {
        (Entity::TextButton(e), Entity::TextButton(f)) => {
            assert(e.area.merged(v.field("area"@), &f.area));
            assert(e.area.base.merged(v.field("area"@).field("base"@), &f.area.base));
            assert(e.text.merged(v.field("text"@), &f.text));
            assert(e.text.base.merged(v.field("text"@).field("base"@), &f.text.base));
        },
        (Entity::SpriteButton(e), Entity::SpriteButton(f)) => {
            assert(e.area.merged(v.field("area"@), &f.area));
            assert(e.area.base.merged(v.field("area"@).field("base"@), &f.area.base));
            assert(e.sprite.merged(v.field("sprite"@), &f.sprite));
            assert(e.sprite.base.merged(v.field("sprite"@).field("base"@), &f.sprite.base));
        },
        _ => {},
    }
}

/// A frame's native update leaves the scripts of an entity, and of the parts of a
/// button, as they are.
#[verifier::spinoff_prover]
pub proof fn lemma_updated_scripts(before: Entity, after: Entity, lua: mlua::Lua)
    requires
        before.updated(after),
        before.scripts_within(lua),
    ensures
        after.scripts_within(lua),
{
    lemma_updated_keeps_identity(before, after);
    match (before, after) {
        (Entity::TextButton(e), Entity::TextButton(f)) => {
            assert(e.area.base.updated(&f.area.base));
            assert(e.text.updated(&f.text));
            assert(e.text.base.updated(&f.text.base));
        },
        (Entity::SpriteButton(e), Entity::SpriteButton(f)) => {
            assert(e.area.updated(&f.area));
            assert(e.area.base.updated(&f.area.base));
            assert(e.sprite.updated(&f.sprite));
            assert(e.sprite.base.updated(&f.sprite.base));
        },
        _ => {},
    }
}

/// Merging leaves the scripts of an entity tree in the runtime they live in.
#[verifier::spinoff_prover]
pub proof fn lemma_merged_within(
    before: Entity,
    v: Dynamic,
    after: Entity,
    lua: mlua::Lua,
    depth: nat,
)
    requires
        before.merged(v, after),
        before.tree_within(lua, depth),
    ensures
        after.tree_within(lua, depth),
    decreases depth,
{
    lemma_merged_keeps_identity(before, v, after);
    lemma_merged_scripts(before, v, after, lua);
    let patch = if before is Node {
        v.field("children"@)
    } else {
        v.field("base"@).field("children"@)
    };
    let was = before.base_spec().children.children@;
    let is = after.base_spec().children.children@;
    assert(crate::nodes::node::children_merged(was, patch, is));
    if depth > 0 {
        assert forall|i: int| 0 <= i < is.len() implies (#[trigger] is[i]).1.tree_within(
            lua,
            (depth - 1) as nat,
        ) by {
            assert(was[i].1.tree_within(lua, (depth - 1) as nat));
            if !(patch.field(was[i].0@) is Nil) {
                lemma_merged_within(
                    was[i].1,
                    patch.field(was[i].0@),
                    is[i].1,
                    lua,
                    (depth - 1) as nat,
                );
            }
        }
    }
}

/// A frame's native update leaves the scripts of an entity tree in the runtime they
/// live in.
pub proof fn lemma_updated_within(before: Entity, after: Entity, lua: mlua::Lua, depth: nat)
    requires
        before.updated(after),
        before.tree_within(lua, depth),
    ensures
        after.tree_within(lua, depth),
    decreases depth,
{
    lemma_updated_keeps_identity(before, after);
    lemma_updated_scripts(before, after, lua);
    let was = before.base_spec().children.children@;
    let is = after.base_spec().children.children@;
    assert(crate::nodes::node::children_updated(was, is));
    if depth > 0 {
        assert forall|i: int| 0 <= i < is.len() implies (#[trigger] is[i]).1.tree_within(
            lua,
            (depth - 1) as nat,
        ) by {
            assert(was[i].1.tree_within(lua, (depth - 1) as nat));
            lemma_updated_within(was[i].1, is[i].1, lua, (depth - 1) as nat);
        }
    }
}

/// Merging leaves the scripts of an entity and of every entity below it in the runtime
/// they live in.
pub proof fn lemma_merged_lives_in(before: Entity, v: Dynamic, after: Entity, lua: mlua::Lua)
    requires
        before.merged(v, after),
        before.lives_in(lua),
    ensures
        after.lives_in(lua),
{
    assert forall|depth: nat| #[trigger] after.tree_within(lua, depth) by {
        assert(before.tree_within(lua, depth));
        lemma_merged_within(before, v, after, lua, depth);
    }
}

/// A frame's native update leaves the scripts of an entity and of every entity below it
/// in the runtime they live in.
pub proof fn lemma_updated_lives_in(before: Entity, after: Entity, lua: mlua::Lua)
    requires
        before.updated(after),
        before.lives_in(lua),
    ensures
        after.lives_in(lua),
{
    assert forall|depth: nat| #[trigger] after.tree_within(lua, depth) by {
        assert(before.tree_within(lua, depth));
        lemma_updated_within(before, after, lua, depth);
    }
}

/// The scripts of a child of an entity live where those of the entity's tree live.
pub proof fn lemma_child_lives_in(entity: Entity, lua: mlua::Lua, i: int)
    requires
        entity.lives_in(lua),
        0 <= i < entity.base_spec().children.children@.len(),
    ensures
        entity.scripts_within(lua),
        entity.base_spec().children.children@[i].1.lives_in(lua),
{
    assert(entity.tree_within(lua, 0));
    let child = entity.base_spec().children.children@[i].1;
    assert forall|depth: nat| #[trigger] child.tree_within(lua, depth) by {
        assert(entity.tree_within(lua, depth + 1));
    }
}

/// The scripts of a tree live in a runtime where those of its root and of the tree of
/// every child do.
pub proof fn lemma_lives_in(entity: Entity, lua: mlua::Lua)
    requires
        entity.scripts_within(lua),
        children_live_in(entity.base_spec().children.children@, lua),
    ensures
        entity.lives_in(lua),
{
    let kids = entity.base_spec().children.children@;
    assert forall|depth: nat| #[trigger] entity.tree_within(lua, depth) by {
        if depth > 0 {
            assert forall|i: int| 0 <= i < kids.len() implies (#[trigger] kids[i]).1.tree_within(
                lua,
                (depth - 1) as nat,
            ) by {
                assert(kids[i].1.lives_in(lua));
            }
        }
    }
}

/// The scripts of a blank entity live in every runtime: it has none.
pub proof fn lemma_blank_lives_in(entity: Entity, kind: Kind, ids: IdCounter, lua: mlua::Lua)
    requires
        entity.is_blank(kind, ids),
    ensures
        entity.lives_in(lua),
{
    entity.base_spec().scripts.lemma_empty_within(lua);
    match entity {
        Entity::TextButton(e) => {
            e.area.base.scripts.lemma_empty_within(lua);
            e.text.base.scripts.lemma_empty_within(lua);
        },
        Entity::SpriteButton(e) => {
            e.area.base.scripts.lemma_empty_within(lua);
            e.sprite.base.scripts.lemma_empty_within(lua);
        },
        _ => {},
    }
    lemma_lives_in(entity, lua);
}

/// Whether the scripts of every entity of `children`, and of every entity below them,
/// live in the runtime `lua`.
pub open spec fn children_live_in(children: Seq<(String, Entity)>, lua: mlua::Lua) -> bool {
    forall|i: int| 0 <= i < children.len() ==> (#[trigger] children[i]).1.lives_in(lua)
}

/// A kind that an entity can be taken for.
///
/// Each concrete kind implements this, so that an entity whose kind is known can be used
/// as that kind and an entity of another kind cannot.
pub trait Downcastable: Sized {
    /// Whether `e` is of this kind.
    spec fn holds(e: Entity) -> bool;

    /// What an entity of this kind holds.
    spec fn held_by(e: Entity) -> Self;

    /// The entity that holds `value`.
    spec fn entity_of(value: Self) -> Entity;

    /// `e` as this kind, if it is of this kind.
    fn downcast(e: &Entity) -> (r: Option<&Self>)
        ensures
            match r {
                Some(v) => Self::holds(*e) && *v == Self::held_by(*e),
                None => !Self::holds(*e),
            },
    ;

    /// `e` as this kind, to be changed, if it is of this kind.
    fn downcast_mut(e: &mut Entity) -> (r: Option<&mut Self>)
        ensures
            match r {
                Some(v) => Self::holds(*old(e)) && *v == Self::held_by(*old(e)) && *final(e)
                    == Self::entity_of(*final(v)),
                None => !Self::holds(*old(e)) && *final(e) == *old(e),
            },
    ;
}

impl Downcastable for Node {
    open spec fn holds(e: Entity) -> bool {
        e is Node
    }

    open spec fn held_by(e: Entity) -> Node {
        e->Node_0
    }

    open spec fn entity_of(value: Node) -> Entity {
        Entity::Node(value)
    }

    fn downcast(e: &Entity) -> (r: Option<&Node>) {
        match e {
            Entity::Node(v) => Some(v),
            _ => None,
        }
    }

    fn downcast_mut(e: &mut Entity) -> (r: Option<&mut Node>) {
        match e {
            Entity::Node(v) => Some(v),
            _ => None,
        }
    }
}

impl Downcastable for RectMesh {
    open spec fn holds(e: Entity) -> bool {
        e is RectMesh
    }

    open spec fn held_by(e: Entity) -> RectMesh {
        e->RectMesh_0
    }

    open spec fn entity_of(value: RectMesh) -> Entity {
        Entity::RectMesh(value)
    }

    fn downcast(e: &Entity) -> (r: Option<&RectMesh>) {
        match e {
            Entity::RectMesh(v) => Some(v),
            _ => None,
        }
    }

    fn downcast_mut(e: &mut Entity) -> (r: Option<&mut RectMesh>) {
        match e {
            Entity::RectMesh(v) => Some(v),
            _ => None,
        }
    }
}

impl Downcastable for Sprite {
    open spec fn holds(e: Entity) -> bool {
        e is Sprite
    }

    open spec fn held_by(e: Entity) -> Sprite {
        e->Sprite_0
    }

    open spec fn entity_of(value: Sprite) -> Entity {
        Entity::Sprite(value)
    }

    fn downcast(e: &Entity) -> (r: Option<&Sprite>) {
        match e {
            Entity::Sprite(v) => Some(v),
            _ => None,
        }
    }

    fn downcast_mut(e: &mut Entity) -> (r: Option<&mut Sprite>) {
        match e {
            Entity::Sprite(v) => Some(v),
            _ => None,
        }
    }
}

impl Downcastable for Text {
    open spec fn holds(e: Entity) -> bool {
        e is Text
    }

    open spec fn held_by(e: Entity) -> Text {
        e->Text_0
    }

    open spec fn entity_of(value: Text) -> Entity {
        Entity::Text(value)
    }

    fn downcast(e: &Entity) -> (r: Option<&Text>) {
        match e {
            Entity::Text(v) => Some(v),
            _ => None,
        }
    }

    fn downcast_mut(e: &mut Entity) -> (r: Option<&mut Text>) {
        match e {
            Entity::Text(v) => Some(v),
            _ => None,
        }
    }
}

impl Downcastable for Camera {
    open spec fn holds(e: Entity) -> bool {
        e is Camera
    }

    open spec fn held_by(e: Entity) -> Camera {
        e->Camera_0
    }

    open spec fn entity_of(value: Camera) -> Entity {
        Entity::Camera(value)
    }

    fn downcast(e: &Entity) -> (r: Option<&Camera>) {
        match e {
            Entity::Camera(v) => Some(v),
            _ => None,
        }
    }

    fn downcast_mut(e: &mut Entity) -> (r: Option<&mut Camera>) {
        match e {
            Entity::Camera(v) => Some(v),
            _ => None,
        }
    }
}

impl Downcastable for ClickableArea {
    open spec fn holds(e: Entity) -> bool {
        e is ClickableArea
    }

    open spec fn held_by(e: Entity) -> ClickableArea {
        e->ClickableArea_0
    }

    open spec fn entity_of(value: ClickableArea) -> Entity {
        Entity::ClickableArea(value)
    }

    fn downcast(e: &Entity) -> (r: Option<&ClickableArea>) {
        match e {
            Entity::ClickableArea(v) => Some(v),
            _ => None,
        }
    }

    fn downcast_mut(e: &mut Entity) -> (r: Option<&mut ClickableArea>) {
        match e {
            Entity::ClickableArea(v) => Some(v),
            _ => None,
        }
    }
}

impl Downcastable for Collider {
    open spec fn holds(e: Entity) -> bool {
        e is Collider
    }

    open spec fn held_by(e: Entity) -> Collider {
        e->Collider_0
    }

    open spec fn entity_of(value: Collider) -> Entity {
        Entity::Collider(value)
    }

    fn downcast(e: &Entity) -> (r: Option<&Collider>) {
        match e {
            Entity::Collider(v) => Some(v),
            _ => None,
        }
    }

    fn downcast_mut(e: &mut Entity) -> (r: Option<&mut Collider>) {
        match e {
            Entity::Collider(v) => Some(v),
            _ => None,
        }
    }
}

impl Downcastable for SoundPlayer {
    open spec fn holds(e: Entity) -> bool {
        e is SoundPlayer
    }

    open spec fn held_by(e: Entity) -> SoundPlayer {
        e->SoundPlayer_0
    }

    open spec fn entity_of(value: SoundPlayer) -> Entity {
        Entity::SoundPlayer(value)
    }

    fn downcast(e: &Entity) -> (r: Option<&SoundPlayer>) {
        match e {
            Entity::SoundPlayer(v) => Some(v),
            _ => None,
        }
    }

    fn downcast_mut(e: &mut Entity) -> (r: Option<&mut SoundPlayer>) {
        match e {
            Entity::SoundPlayer(v) => Some(v),
            _ => None,
        }
    }
}

impl Downcastable for TextButton {
    open spec fn holds(e: Entity) -> bool {
        e is TextButton
    }

    open spec fn held_by(e: Entity) -> TextButton {
        e->TextButton_0
    }

    open spec fn entity_of(value: TextButton) -> Entity {
        Entity::TextButton(value)
    }

    fn downcast(e: &Entity) -> (r: Option<&TextButton>) {
        match e {
            Entity::TextButton(v) => Some(v),
            _ => None,
        }
    }

    fn downcast_mut(e: &mut Entity) -> (r: Option<&mut TextButton>) {
        match e {
            Entity::TextButton(v) => Some(v),
            _ => None,
        }
    }
}

impl Downcastable for SpriteButton {
    open spec fn holds(e: Entity) -> bool {
        e is SpriteButton
    }

    open spec fn held_by(e: Entity) -> SpriteButton {
        e->SpriteButton_0
    }

    open spec fn entity_of(value: SpriteButton) -> Entity {
        Entity::SpriteButton(value)
    }

    fn downcast(e: &Entity) -> (r: Option<&SpriteButton>) {
        match e {
            Entity::SpriteButton(v) => Some(v),
            _ => None,
        }
    }

    fn downcast_mut(e: &mut Entity) -> (r: Option<&mut SpriteButton>) {
        match e {
            Entity::SpriteButton(v) => Some(v),
            _ => None,
        }
    }
}

} // verus!
