//! What scripts ask of the entity tree while a hook runs.
//!
//! A script cannot reach the tree while its hook runs.  What it asks for, to
//! add or remove a child or to attach another script, is a command that the
//! host queues and the engine carries out when the hooks have returned.

use vstd::prelude::*;
use crate::children_container::held;
use crate::children_container::without_child;
use crate::engine::place_entity;
use crate::engine::placed;
use crate::engine::lemma_placed_lives_in;
use crate::entity::children_live_in;
use crate::entity::ids_needed;
use crate::entity::lemma_child_lives_in;
use crate::entity::lemma_lives_in;
use crate::entity::needed_ids;
use crate::entity::Entity;
use crate::error::EngineError;
use crate::kind::Kind;
use crate::marshal::Bindings;
use crate::nodelike::IdCounter;
use crate::script_manager::FrameGlobals;
use crate::variant::Variant;

verus! {

/// What is asked of one entity.
#[derive(Debug, PartialEq)]
pub enum Request {
    /// Put the entity that `description` describes under `name` among the children.
    Add { name: String, kind_name: String, description: Variant },
    /// Take away the child under `name`.
    Remove { name: String },
    /// Take away every child.
    Clear,
    /// Attach the script `source`, read from the file `filename`, and run it at once.
    Embed { filename: String, source: String },
}

/// A request to the entity with the identity `target`.
#[derive(Debug, PartialEq)]
pub struct Command {
    pub target: u64,
    pub request: Request,
}

/// Whether one of `children` at or after `from`, or an entity below it, has the identity
/// `id`.
pub open spec fn children_hold(children: Seq<(String, Entity)>, id: u64) -> bool
    decreases children, 0nat,
{
    exists|i: int| 0 <= i < children.len() && (#[trigger] children[i]).1.holds(id)
}

/// How many identities carrying out `request` can take: what a new entity of the kind
/// takes for adding, none for anything else.
pub open spec fn request_needs(request: Request) -> nat {
    match request {
        Request::Add { name, kind_name, description } => match Kind::named(kind_name@) {
            Some(kind) => ids_needed(kind),
            None => 0,
        },
        _ => 0,
    }
}

impl Request {
    /// How many identities carrying out the request can take.
    pub fn needs(&self) -> (n: u64)
        ensures
            n == request_needs(*self),
    {
        match self {
            Request::Add { name, kind_name, description } => match Kind::from_name(
                kind_name.as_str(),
            ) {
                Some(kind) => needed_ids(kind),
                None => 0,
            },
            _ => 0,
        }
    }
}

/// Whether `after`, `ids_after` and `r` are what carrying out `request` on `before` with
/// the identities `ids` gives.
///
/// Adding follows [`placed`]; removing takes away the child under the name; clearing
/// leaves no child; embedding leaves the children and the queue and, on success, makes
/// the script the last live one.  Nothing else of the entity changes.
pub open spec fn fulfilled(
    before: Entity,
    request: Request,
    ids: IdCounter,
    after: Entity,
    ids_after: IdCounter,
    r: Result<(), EngineError>,
) -> bool {
    let was = before.base_spec();
    let is = after.base_spec();
    &&& after == before.with_base(is)
    &&& is.id == was.id
    &&& match request {
        Request::Add { name, kind_name, description } => match Kind::named(kind_name@) {
            None => r == Err::<(), EngineError>(EngineError::UnknownKind) && after == before
                && ids_after == ids,
            Some(kind) => {
                &&& is.scripts == was.scripts
                &&& placed(
                    was.children.children@,
                    name,
                    kind,
                    description@,
                    ids,
                    is.children.children@,
                    r,
                )
                &&& ids_after == if held(was.children.children@, name@) is Some && held(
                    was.children.children@,
                    name@,
                )->0.kind_spec() == kind {
                    ids
                } else {
                    ids.after(ids_needed(kind))
                }
            },
        },
        Request::Remove { name } => {
            &&& r is Ok
            &&& ids_after == ids
            &&& is.scripts == was.scripts
            &&& is.children.children@ == without_child(was.children.children@, name@)
        },
        Request::Clear => {
            &&& r is Ok
            &&& ids_after == ids
            &&& is.scripts == was.scripts
            &&& is.children.children@.len() == 0
        },
        Request::Embed { filename, source } => {
            &&& ids_after == ids
            &&& is.children == was.children
            &&& is.scripts.pending() == was.scripts.pending()
            &&& match r {
                Ok(()) => is.scripts.live() == Some(
                    match was.scripts.live() {
                        Some(names) => names.push(filename@),
                        None => seq![filename@],
                    },
                ),
                Err(e) => (e == EngineError::ScriptCompile || e == EngineError::ScriptRuntime)
                    && is.scripts.live() == was.scripts.live(),
            }
        },
    }
}

/// What the result of carrying out a request is as the result of delivering a command:
/// the entity was found, or the error.
pub open spec fn found(done: Result<(), EngineError>) -> Result<bool, EngineError> {
    match done {
        Ok(()) => Ok(true),
        Err(e) => Err(e),
    }
}

/// Whether `is`, `ids_after` and `r` are what delivering `command` to the entities `was`
/// and the entities below them gives: the first of them that holds the target is
/// delivered to, and every other one is untouched; where none holds it, nothing changes
/// and the result says so.
pub open spec fn children_delivered(
    was: Seq<(String, Entity)>,
    command: Command,
    ids: IdCounter,
    is: Seq<(String, Entity)>,
    ids_after: IdCounter,
    r: Result<bool, EngineError>,
) -> bool
    decreases was, 0nat,
{
    if children_hold(was, command.target) {
        exists|i: int|
            {
                &&& 0 <= i < was.len()
                &&& (#[trigger] was[i]).1.holds(command.target)
                &&& forall|j: int| 0 <= j < i ==> !(#[trigger] was[j]).1.holds(command.target)
                &&& is.len() == was.len()
                &&& forall|j: int| 0 <= j < was.len() && j != i ==> #[trigger] is[j] == was[j]
                &&& is[i].0 == was[i].0
                &&& was[i].1.delivered(command, ids, is[i].1, ids_after, r)
            }
    } else {
        r == Ok::<bool, EngineError>(false) && is == was && ids_after == ids
    }
}

impl Entity {
    /// Whether the entity or an entity below it has the identity `id`.
    pub open spec fn holds(&self, id: u64) -> bool
        decreases self, 1nat,
    {
        match self {
            Entity::Node(n) => n.id == id || children_hold(n.children.children@, id),
            Entity::RectMesh(e) => e.base.id == id || children_hold(e.base.children.children@, id),
            Entity::Sprite(e) => e.base.id == id || children_hold(e.base.children.children@, id),
            Entity::Text(e) => e.base.id == id || children_hold(e.base.children.children@, id),
            Entity::Camera(e) => e.base.id == id || children_hold(e.base.children.children@, id),
            Entity::ClickableArea(e) => e.base.id == id || children_hold(e.base.children.children@, id),
            Entity::Collider(e) => e.base.id == id || children_hold(e.base.children.children@, id),
            Entity::SoundPlayer(e) => e.base.id == id || children_hold(e.base.children.children@, id),
            Entity::TextButton(e) => e.base.id == id || children_hold(e.base.children.children@, id),
            Entity::SpriteButton(e) => e.base.id == id || children_hold(e.base.children.children@, id),
        }
    }

    /// Whether `after`, `ids_after` and `r` are what delivering `command` to the entity
    /// with the identities `ids` gives.
    ///
    /// Where the entity has the target's identity, they are what carrying out the
    /// request on it gives, see [`fulfilled`], and the result says that the entity was
    /// found, or is the error.  Otherwise the command is delivered to its children, see
    /// [`children_delivered`], and nothing else of the entity changes.
    pub open spec fn delivered(
        &self,
        command: Command,
        ids: IdCounter,
        after: Entity,
        ids_after: IdCounter,
        r: Result<bool, EngineError>,
    ) -> bool
        decreases self, 1nat,
    {
        if self.base_spec().id == command.target {
            exists|done: Result<(), EngineError>| #[trigger]
                fulfilled(*self, command.request, ids, after, ids_after, done) && r == found(done)
        } else {
            &&& after == self.with_base(after.base_spec())
            &&& after.base_spec().id == self.base_spec().id
            &&& after.base_spec().scripts == self.base_spec().scripts
            &&& match self {
                Entity::Node(n) => children_delivered(
                    n.children.children@,
                    command,
                    ids,
                    after.base_spec().children.children@,
                    ids_after,
                    r,
                ),
                Entity::RectMesh(e) => children_delivered(
                    e.base.children.children@,
                    command,
                    ids,
                    after.base_spec().children.children@,
                    ids_after,
                    r,
                ),
                Entity::Sprite(e) => children_delivered(
                    e.base.children.children@,
                    command,
                    ids,
                    after.base_spec().children.children@,
                    ids_after,
                    r,
                ),
                Entity::Text(e) => children_delivered(
                    e.base.children.children@,
                    command,
                    ids,
                    after.base_spec().children.children@,
                    ids_after,
                    r,
                ),
                Entity::Camera(e) => children_delivered(
                    e.base.children.children@,
                    command,
                    ids,
                    after.base_spec().children.children@,
                    ids_after,
                    r,
                ),
                Entity::ClickableArea(e) => children_delivered(
                    e.base.children.children@,
                    command,
                    ids,
                    after.base_spec().children.children@,
                    ids_after,
                    r,
                ),
                Entity::Collider(e) => children_delivered(
                    e.base.children.children@,
                    command,
                    ids,
                    after.base_spec().children.children@,
                    ids_after,
                    r,
                ),
                Entity::SoundPlayer(e) => children_delivered(
                    e.base.children.children@,
                    command,
                    ids,
                    after.base_spec().children.children@,
                    ids_after,
                    r,
                ),
                Entity::TextButton(e) => children_delivered(
                    e.base.children.children@,
                    command,
                    ids,
                    after.base_spec().children.children@,
                    ids_after,
                    r,
                ),
                Entity::SpriteButton(e) => children_delivered(
                    e.base.children.children@,
                    command,
                    ids,
                    after.base_spec().children.children@,
                    ids_after,
                    r,
                ),
            }
        }
    }

    /// Carries out `request` on the entity, see [`fulfilled`].
    ///
    /// Adding follows [`place_entity`]; removing and clearing change the children as
    /// [`crate::children_container::ChildrenContainer`] says; embedding follows
    /// [`crate::script_manager::ScriptManager::embed`] with a snapshot of the entity as
    /// `this`.  Nothing else of the entity changes.  There must be as many identities
    /// left as the request can take, and the bindings and the scripts of the entity must
    /// live in `lua`.
    #[verifier::spinoff_prover]
    pub fn fulfil(
        &mut self,
        request: &Request,
        lua: &mlua::Lua,
        bindings: &Bindings,
        globals: &FrameGlobals,
        ids: &mut IdCounter,
    ) -> (r: Result<(), EngineError>)
        requires
            old(ids).remaining() >= request_needs(*request),
            bindings.within(*lua),
            old(self).scripts_within(*lua),
        ensures
            fulfilled(*old(self), *request, *old(ids), *final(self), *final(ids), r),
            final(self).kind_spec() == old(self).kind_spec(),
            final(self).scripts_within(*lua),
            children_live_in(old(self).base_spec().children.children@, *lua) ==> children_live_in(
                final(self).base_spec().children.children@,
                *lua,
            ),
    {
        match request {
            Request::Add { name, kind_name, description } => {
                let base = self.base_mut();
                let r = place_entity(
                    &mut base.children,
                    name.clone(),
                    kind_name.as_str(),
                    description,
                    ids,
                );
                proof {
                    match Kind::named(kind_name@) {
                        Some(kind) => {
                            if children_live_in(old(self).base_spec().children.children@, *lua) {
                                lemma_placed_lives_in(
                                    old(self).base_spec().children.children@,
                                    *name,
                                    kind,
                                    description@,
                                    *old(ids),
                                    base.children.children@,
                                    r,
                                    *lua,
                                );
                            }
                        },
                        None => {},
                    }
                }
                r
            },
            Request::Remove { name } => {
                let base = self.base_mut();
                let ghost before = base.children.children@;
                base.children.remove_child(name.as_str());
                proof {
                    let at = crate::children_container::place(before, name@, 0);
                    crate::children_container::lemma_place(before, name@, 0);
                    if children_live_in(before, *lua) {
                        assert forall|i: int|
                            0 <= i < base.children.children@.len() implies (
                        #[trigger] base.children.children@[i]).1.lives_in(*lua) by {
                            if at < before.len() {
                                if i < at {
                                    assert(base.children.children@[i] == before[i]);
                                } else {
                                    assert(base.children.children@[i] == before[i + 1]);
                                }
                            }
                        }
                    }
                }
                Ok(())
            },
            Request::Clear => {
                let base = self.base_mut();
                base.children.clear_children();
                Ok(())
            },
            Request::Embed { filename, source } => {
                let this = self.as_lua();
                let scripts = self.get_scripts();
                scripts.embed(filename.clone(), source.clone(), lua, bindings, &this, globals)
            },
        }
    }

    /// Whether the entity or an entity below it has the identity `id`.
    pub fn has_id(&self, id: u64) -> (b: bool)
        ensures
            b == self.holds(id),
        decreases self,
    {
        if self.id() == id {
            return true;
        }
        match self.holder(id) {
            Some(_) => true,
            None => false,
        }
    }

    /// The place of the first child that has the identity `id` or has an entity with it
    /// below it.
    fn holder(&self, id: u64) -> (place: Option<usize>)
        ensures
            match place {
                Some(i) => i < self.base_spec().children.children@.len()
                    && self.base_spec().children.children@[i as int].1.holds(id)
                    && forall|j: int|
                    0 <= j < i ==> !(#[trigger] self.base_spec().children.children@[j]).1.holds(id),
                None => !children_hold(self.base_spec().children.children@, id),
            },
            self.holds(id) == (self.base_spec().id == id || children_hold(
                self.base_spec().children.children@,
                id,
            )),
        decreases self, 0nat,
    {
        let base = self.base();
        let n = base.children.children.len();
        let mut i: usize = 0;
        while i < n
            invariant
                i <= n,
                n == base.children.children@.len(),
                *base == self.base_spec(),
                forall|j: int|
                    0 <= j < i ==> !(#[trigger] base.children.children@[j]).1.holds(id),
            decreases n - i,
        {
            proof {
                vstd::std_specs::vec::axiom_vec_index_decreases(base.children.children, i as int);
            }
            if base.children.children[i].1.has_id(id) {
                return Some(i);
            }
            i += 1;
        }
        None
    }

    /// Carries out `command` on the entity it is for, if that is this entity or one below
    /// it, and tells whether it was found, see [`Entity::delivered`].  The first entity
    /// with the identity counts, an entity before its children and the children in their
    /// order.
    ///
    /// Where the entity is not found nothing changes.  There must be as many identities
    /// left as the request can take, and the bindings and the scripts of the tree must
    /// live in `lua`.
    pub fn deliver(
        &mut self,
        command: &Command,
        lua: &mlua::Lua,
        bindings: &Bindings,
        globals: &FrameGlobals,
        ids: &mut IdCounter,
    ) -> (r: Result<bool, EngineError>)
        requires
            old(ids).remaining() >= request_needs(command.request),
            bindings.within(*lua),
            old(self).lives_in(*lua),
        ensures
            old(self).delivered(*command, *old(ids), *final(self), *final(ids), r),
            final(self).lives_in(*lua),
            final(self).kind_spec() == old(self).kind_spec(),
            final(self).base_spec().id == old(self).base_spec().id,
            old(self).holds(command.target) <==> r != Ok::<bool, EngineError>(false),
            r == Ok::<bool, EngineError>(false) ==> *final(self) == *old(self) && *final(ids)
                == *old(ids),
        decreases *old(self),
    {
        proof {
            assert(old(self).tree_within(*lua, 0));
            assert forall|j: int|
                0 <= j < old(self).base_spec().children.children@.len() implies (
            #[trigger] old(self).base_spec().children.children@[j]).1.lives_in(*lua) by {
                lemma_child_lives_in(*old(self), *lua, j);
            }
        }
        if self.id() == command.target {
            let done = self.fulfil(&command.request, lua, bindings, globals, ids);
            proof {
                lemma_lives_in(*self, *lua);
                assert(fulfilled(*old(self), command.request, *old(ids), *self, *ids, done));
            }
            return match done {
                Ok(()) => Ok(true),
                Err(e) => Err(e),
            };
        }
        let i = match self.holder(command.target) {
            Some(i) => i,
            None => {
                proof {
                    lemma_not_held(*old(self), command.target);
                }
                return Ok(false);
            },
        };
        let ghost before = self.base_spec().children.children;
        proof {
            vstd::std_specs::vec::axiom_vec_index_decreases(before, i as int);
        }
        let base = self.base_mut();
        let child = &mut base.children.children[i];
        let r = child.1.deliver(command, lua, bindings, globals, ids);
        proof {
            let was = before@;
            let is = base.children.children@;
            assert(is[i as int].0 == was[i as int].0);
            assert forall|j: int| 0 <= j < was.len() && j != i implies #[trigger] is[j]
                == was[j] by {}
            assert(children_hold(was, command.target));
            assert(children_delivered(was, *command, *old(ids), is, *ids, r));
            lemma_children_of(*old(self));
            assert forall|j: int| 0 <= j < is.len() implies (#[trigger] is[j]).1.lives_in(*lua) by {
                if j != i {
                    assert(is[j] == was[j]);
                }
            }
            lemma_lives_in(old(self).with_base(*base), *lua);
        }
        r
    }
}

/// The children that [`Entity::delivered`] and [`Entity::holds`] speak of are those of
/// the entity's base.
pub proof fn lemma_children_of(entity: Entity)
    ensures
        match entity {
            Entity::Node(n) => n.children.children@,
            Entity::RectMesh(e) => e.base.children.children@,
            Entity::Sprite(e) => e.base.children.children@,
            Entity::Text(e) => e.base.children.children@,
            Entity::Camera(e) => e.base.children.children@,
            Entity::ClickableArea(e) => e.base.children.children@,
            Entity::Collider(e) => e.base.children.children@,
            Entity::SoundPlayer(e) => e.base.children.children@,
            Entity::TextButton(e) => e.base.children.children@,
            Entity::SpriteButton(e) => e.base.children.children@,
        } == entity.base_spec().children.children@,
{
}

/// An entity that does not hold an identity is left as it is by a command for it.
pub proof fn lemma_not_held(entity: Entity, id: u64)
    requires
        !entity.holds(id),
    ensures
        entity.base_spec().id != id,
        !children_hold(entity.base_spec().children.children@, id),
        entity == entity.with_base(entity.base_spec()),
{
    lemma_children_of(entity);
}

} // verus!
