//! The frame scheduler.
//!
//! The engine owns the scripting runtime, the global environment of the entry
//! script, and the root entities.  It runs the setup phase once and the update
//! phase every frame; each phase refreshes the frame's globals, calls the
//! global hook, runs the hook of every entity that has scripts and merges what
//! the scripts left in `this` back into the entity, and then brings the root
//! entities in line with the entry script's description of them.  Drawing and
//! waiting for the next frame are the host's part.
//!
//! Everything the engine holds lives in one runtime, see [`Engine::sound`].  After
//! every merge the colliders of the merged entity are recorded where they then
//! lie, and a phase ends with a registry that knows exactly the colliders among
//! the entities.

use vstd::prelude::*;
use vstd::string::StringExecFns;
use crate::children_container::held;
use crate::children_container::lemma_add_keeps_others;
use crate::children_container::lemma_add_then_get;
use crate::children_container::lemma_place;
use crate::children_container::lemma_same_names;
use crate::children_container::lemma_same_names_distinct;
use crate::children_container::same_names;
use crate::children_container::with_child;
use crate::children_container::ChildrenContainer;
use crate::color::Color;
use crate::command::children_delivered;
use crate::command::children_hold;
use crate::command::request_needs;
use crate::command::Command;
use crate::entity::children_live_in;
use crate::entity::ids_needed;
use crate::entity::lemma_blank_lives_in;
use crate::entity::lemma_child_lives_in;
use crate::entity::lemma_lives_in;
use crate::entity::lemma_merged_lives_in;
use crate::entity::lemma_updated_lives_in;
use crate::entity::needed_ids;
use crate::entity::lemma_merged_keeps_identity;
use crate::entity::lemma_updated_keeps_identity;
use crate::entity::Entity;
use crate::error::EngineError;
use crate::kind::Kind;
use crate::lua;
use crate::lua::all_fit;
use crate::lua::fits;
use crate::lua::runtime_id;
use crate::lua::table_home;
use crate::luable::Luable;
use crate::marshal::beyond_runtime;
use crate::marshal::function_of;
use crate::marshal::materialize;
use crate::marshal::runtime_error;
use crate::marshal::snapshot;
use crate::marshal::table_of;
use crate::marshal::text_of;
use crate::marshal::Bindings;
use crate::marshal::SNAPSHOT_DEPTH;
use crate::nodelike::IdCounter;
use crate::nodelike::NodeLike;
use crate::nodes::collider::ColliderRegistry;
use crate::scalar::Scalar;
use crate::script_manager::load_error;
use crate::script_manager::load_persistent;
use crate::script_manager::unpassable;
use crate::script_manager::FrameGlobals;
use crate::script_manager::HookReport;
use crate::variant::Dynamic;
use crate::variant::Variant;

verus! {

/// How deep below a root entity the hooks of entities are run: as deep as the machine
/// can count, which is deeper than a tree that the machine holds can be, so that the
/// hooks of every entity are run.
pub const TREE_DEPTH: usize = usize::MAX;

/// Something the host should tell the user: a hook that could not be run to its end, a
/// merge that was rejected, or, with no error, a mere warning.
#[derive(Debug, PartialEq)]
pub struct Notice {
    /// The identity of the entity concerned; none for the engine itself.
    pub id: Option<u64>,
    /// The kind of the entity concerned; none for the engine itself.
    pub kind: Option<Kind>,
    /// The file name of the script, where one script is concerned.
    pub script: String,
    /// The name of the hook.
    pub hook: String,
    pub error: Option<EngineError>,
    pub message: String,
}

/// The step at which a phase ended before its end.  The hook of an entity is no such
/// step: what goes wrong in one is noted and the phase goes on.
#[derive(Debug, Clone, Copy, PartialEq, Eq, Structural)]
pub enum Stage {
    /// Writing the frame's globals into the entry script's environment.
    Globals,
    /// Calling the global hook of the entry script.
    GlobalHook,
    /// Loading the queued scripts of an entity, in the setup phase.
    Loading,
    /// Bringing the root entities in line with the root description.
    Root,
}

/// A phase that ended before its end: why, at which step, and what was noted until
/// then.
#[derive(Debug, PartialEq)]
pub struct PhaseFailure {
    pub error: EngineError,
    pub stage: Stage,
    pub notices: Vec<Notice>,
}

/// Whether `error` is one that ends a phase at the step `stage`.
pub open spec fn ends_at(error: EngineError, stage: Stage) -> bool {
    match stage {
        Stage::Globals => error == EngineError::ScriptRuntime,
        Stage::GlobalHook => error == EngineError::ScriptRuntime,
        Stage::Loading => error == EngineError::ScriptCompile || error
            == EngineError::ScriptRuntime,
        Stage::Root => error == EngineError::UnknownKind || error
            == EngineError::IdentitiesExhausted,
    }
}

/// The notices of a phase, whether it came to its end or not.
pub open spec fn notices_of(r: Result<Vec<Notice>, PhaseFailure>) -> Seq<Notice> {
    match r {
        Ok(notices) => notices@,
        Err(failure) => failure.notices@,
    }
}

/// Whether the hooks of the entities were run in a phase with the result `r`: it came
/// to its end, or ended only at the root description.
pub open spec fn hooks_done(r: Result<Vec<Notice>, PhaseFailure>) -> bool {
    r is Ok || r->Err_0.stage == Stage::Root
}

/// The scheduler's state.
pub struct Engine {
    /// What the frame is cleared to before the entities are drawn.
    pub bg_color: Color,
    /// The root entities.
    pub children: ChildrenContainer,
    /// The environment of the entry script.
    pub environment: mlua::Table,
    /// The scripting runtime.
    pub lua: mlua::Lua,
    /// What the host bound into the runtime.
    pub bindings: Bindings,
}

/// The background colour that the entry script's `color` describes: that colour, or
/// transparent black where it describes none.
pub open spec fn background_of(v: Dynamic) -> Color {
    match Color::decoded(v) {
        Ok(c) => c,
        Err(_) => Color { r: 0, g: 0, b: 0, a: 0 },
    }
}

/// The background colour that the entry script's `color` describes.
pub fn background(description: &Variant) -> (c: Color)
    ensures
        c == background_of(description@),
{
    match Color::decode(description) {
        Ok(c) => c,
        Err(_) => Color::new(0),
    }
}

/// Whether `after` is `before` once the entity `from` has been merged with `description`
/// and put under `name`, with the result `r`; a rejected description changes nothing.
pub open spec fn put_merged(
    before: Seq<(String, Entity)>,
    name: String,
    from: Entity,
    description: Dynamic,
    after: Seq<(String, Entity)>,
    r: Result<(), EngineError>,
) -> bool {
    &&& r == from.accepts(description)
    &&& match r {
        Ok(()) => {
            &&& held(after, name@) is Some
            &&& from.merged(description, held(after, name@)->0)
            &&& after == with_child(before, name, held(after, name@)->0)
        },
        Err(_) => after == before,
    }
}

/// What bringing one root entity in line with its description does to the root entities.
///
/// An entity of the described kind that is held under the name is merged with the
/// description.  Otherwise the blank entity of that kind, merged with the description,
/// is put under the name.
pub open spec fn placed(
    before: Seq<(String, Entity)>,
    name: String,
    kind: Kind,
    description: Dynamic,
    ids: IdCounter,
    after: Seq<(String, Entity)>,
    r: Result<(), EngineError>,
) -> bool {
    if held(before, name@) is Some && held(before, name@)->0.kind_spec() == kind {
        put_merged(before, name, held(before, name@)->0, description, after, r)
    } else {
        exists|from: Entity| #[trigger]
            from.is_blank(kind, ids) && put_merged(before, name, from, description, after, r)
    }
}

/// How many identities it takes to bring the entity `name` among `children` in line with
/// a description of the kind named `kind_name`: none where there is no such kind or an
/// entity of the kind is held under the name, else what a new entity of the kind needs.
pub open spec fn placing_needs(
    children: Seq<(String, Entity)>,
    name: Seq<char>,
    kind_name: Seq<char>,
) -> nat {
    match Kind::named(kind_name) {
        None => 0,
        Some(kind) => if held(children, name) is Some && held(children, name)->0.kind_spec()
            == kind {
            0
        } else {
            ids_needed(kind)
        },
    }
}

/// How many identities it takes to place an entity, see [`placing_needs`].
pub fn placing_cost(children: &ChildrenContainer, name: &str, kind_name: &str) -> (n: u64)
    ensures
        n == placing_needs(children.children@, name@, kind_name@),
{
    let kind = match Kind::from_name(kind_name) {
        Some(k) => k,
        None => {
            return 0;
        },
    };
    let i = children.index_of(name);
    proof {
        lemma_place(children.children@, name@, 0);
    }
    if i < children.children.len() && children.children[i].1.kind() == kind {
        0
    } else {
        needed_ids(kind)
    }
}

/// Putting an entity whose scripts live in a runtime among entities whose scripts live
/// there leaves all of them there.
pub proof fn lemma_with_child_lives_in(
    before: Seq<(String, Entity)>,
    key: String,
    child: Entity,
    lua: mlua::Lua,
)
    requires
        children_live_in(before, lua),
        child.lives_in(lua),
    ensures
        children_live_in(with_child(before, key, child), lua),
{
    let after = with_child(before, key, child);
    let at = crate::children_container::place(before, key@, 0);
    lemma_place(before, key@, 0);
    assert forall|i: int| 0 <= i < after.len() implies (#[trigger] after[i]).1.lives_in(lua) by {
        if at < before.len() {
            if i != at {
                assert(after[i] == before[i]);
            }
        } else {
            if i < before.len() {
                assert(after[i] == before[i]);
            }
        }
    }
}

/// Placing an entity leaves the scripts of the entities in the runtime they live in.
pub proof fn lemma_placed_lives_in(
    before: Seq<(String, Entity)>,
    name: String,
    kind: Kind,
    description: Dynamic,
    ids: IdCounter,
    after: Seq<(String, Entity)>,
    r: Result<(), EngineError>,
    lua: mlua::Lua,
)
    requires
        placed(before, name, kind, description, ids, after, r),
        children_live_in(before, lua),
    ensures
        children_live_in(after, lua),
{
    if r is Ok {
        let to = held(after, name@)->0;
        if held(before, name@) is Some && held(before, name@)->0.kind_spec() == kind {
            lemma_place(before, name@, 0);
            lemma_merged_lives_in(held(before, name@)->0, description, to, lua);
        } else {
            let from = choose|from: Entity| #[trigger]
                from.is_blank(kind, ids) && put_merged(before, name, from, description, after, r);
            lemma_blank_lives_in(from, kind, ids, lua);
            lemma_merged_lives_in(from, description, to, lua);
        }
        lemma_with_child_lives_in(before, name, to, lua);
    }
}

/// Brings the root entity `name` in line with its description.
///
/// Fails with [`EngineError::UnknownKind`] where no kind is named `kind_name`, and with
/// what the entity objects to where it does not accept the description.  There must be
/// as many identities left as [`placing_needs`] says.
pub fn place_entity(
    children: &mut ChildrenContainer,
    name: String,
    kind_name: &str,
    description: &Variant,
    ids: &mut IdCounter,
) -> (r: Result<(), EngineError>)
    requires
        old(ids).remaining() >= placing_needs(old(children).children@, name@, kind_name@),
    ensures
        old(children).wf() ==> final(children).wf(),
        match Kind::named(kind_name@) {
            None => r == Err::<(), EngineError>(EngineError::UnknownKind) && *final(children)
                == *old(children) && *final(ids) == *old(ids),
            Some(kind) => {
                &&& placed(
                    old(children).children@,
                    name,
                    kind,
                    description@,
                    *old(ids),
                    final(children).children@,
                    r,
                )
                &&& *final(ids) == if held(old(children).children@, name@) is Some && held(
                    old(children).children@,
                    name@,
                )->0.kind_spec() == kind {
                    *old(ids)
                } else {
                    old(ids).after(ids_needed(kind))
                }
            },
        },
{
    let kind = match Kind::from_name(kind_name) {
        Some(k) => k,
        None => {
            return Err(EngineError::UnknownKind);
        },
    };
    let i = children.index_of(name.as_str());
    proof {
        lemma_place(children.children@, name@, 0);
    }
    if i < children.children.len() && children.children[i].1.kind() == kind {
        let ghost from = children.children@[i as int].1;
        let slot = &mut children.children[i];
        let r = slot.1.from_lua(description);
        proof {
            let to = children.children@[i as int].1;
            if r is Ok {
                assert(children.children@ =~= with_child(old(children).children@, name, to));
                crate::children_container::lemma_add_then_get(old(children).children@, name, to);
            } else {
                assert(children.children@ =~= old(children).children@);
            }
            assert(put_merged(
                old(children).children@,
                name,
                from,
                description@,
                children.children@,
                r,
            ));
        }
        r
    } else {
        let mut entity = Entity::blank(kind, ids);
        let ghost from = entity;
        let r = entity.from_lua(description);
        if r.is_ok() {
            let ghost to = entity;
            children.add_child(name, entity);
            proof {
                crate::children_container::lemma_add_then_get(old(children).children@, name, to);
            }
        }
        proof {
            assert(from.is_blank(kind, *old(ids)));
            assert(put_merged(
                old(children).children@,
                name,
                from,
                description@,
                children.children@,
                r,
            ));
        }
        r
    }
}

/// Whether `n` is a notice about `entity`, for the script `script` and the hook `hook`,
/// with the error `error`.
pub open spec fn about_entity(
    n: Notice,
    entity: Entity,
    script: Seq<char>,
    hook: Seq<char>,
    error: EngineError,
) -> bool {
    &&& n.id == Some(entity.base_spec().id)
    &&& n.kind == Some(entity.kind_spec())
    &&& n.script@ == script
    &&& n.hook@ == hook
    &&& n.error == Some(error)
}

/// A notice about the entity `entity`.
fn notice_for(entity: &Entity, script: &str, hook: &str, error: EngineError, message: &str) -> (n:
    Notice)
    ensures
        about_entity(n, *entity, script@, hook@, error),
        n.message@ == message@,
{
    Notice {
        id: Some(entity.id()),
        kind: Some(entity.kind()),
        script: String::from_str(script),
        hook: String::from_str(hook),
        error: Some(error),
        message: String::from_str(message),
    }
}

/// Nothing that `before` holds under a name is missing from `after`.
pub open spec fn keeps_names(before: Seq<(String, Entity)>, after: Seq<(String, Entity)>) -> bool {
    forall|key: Seq<char>| #[trigger] held(before, key) is Some ==> held(after, key) is Some
}

/// Bringing a root entity in line with its description loses no name.
pub proof fn lemma_placed_keeps_names(
    before: Seq<(String, Entity)>,
    name: String,
    kind: Kind,
    description: Dynamic,
    ids: IdCounter,
    after: Seq<(String, Entity)>,
    r: Result<(), EngineError>,
)
    requires
        placed(before, name, kind, description, ids, after, r),
    ensures
        keeps_names(before, after),
{
    if r is Ok {
        let to = held(after, name@)->0;
        assert forall|key: Seq<char>| #[trigger] held(before, key) is Some implies held(
            after,
            key,
        ) is Some by {
            if key == name@ {
                lemma_add_then_get(before, name, to);
            } else {
                lemma_add_keeps_others(before, name, to, key);
            }
        }
    }
}

/// Whether `n` is a notice about the engine itself, for the hook or the part `hook`, with
/// the error `error`.
pub open spec fn about_engine(n: Notice, hook: Seq<char>, error: Option<EngineError>) -> bool {
    &&& n.id is None
    &&& n.kind is None
    &&& n.hook@ == hook
    &&& n.error == error
}

/// Whether `after` is `before` with one notice about the engine appended.
pub open spec fn noted(
    before: Seq<Notice>,
    after: Seq<Notice>,
    hook: Seq<char>,
    error: Option<EngineError>,
) -> bool {
    &&& after.len() == before.len() + 1
    &&& after.subrange(0, before.len() as int) == before
    &&& about_engine(after.last(), hook, error)
}

/// Whether every notice of `notices` from the place `from` on is for the hook, or the
/// part, `hook`.
pub open spec fn all_for(notices: Seq<Notice>, from: int, hook: Seq<char>) -> bool {
    forall|k: int| from <= k < notices.len() ==> (#[trigger] notices[k]).hook@ == hook
}

/// Whether every notice of `notices` is for the hook `hook` or for the root description.
pub open spec fn of_phase(notices: Seq<Notice>, hook: Seq<char>) -> bool {
    forall|k: int|
        0 <= k < notices.len() ==> (#[trigger] notices[k]).hook@ == hook || notices[k].hook@
            == "root"@
}

/// A notice about the engine itself.
fn engine_notice(hook: &str, error: Option<EngineError>, message: &str) -> (n: Notice)
    ensures
        about_engine(n, hook@, error),
{
    Notice {
        id: None,
        kind: None,
        script: String::new(),
        hook: String::from_str(hook),
        error,
        message: String::from_str(message),
    }
}

/// Whether `after` and `r` are what becomes of the notices and of the run once a root
/// entity has been placed with the result `placed_as`: an unknown kind ends the run, any
/// other rejection is noted and passed over.
pub open spec fn settled(
    placed_as: Result<(), EngineError>,
    before: Seq<Notice>,
    after: Seq<Notice>,
    r: Result<(), EngineError>,
) -> bool {
    match placed_as {
        Ok(()) => r is Ok && after == before,
        Err(EngineError::UnknownKind) => r == Err::<(), EngineError>(EngineError::UnknownKind)
            && after == before,
        Err(e) => r is Ok && noted(before, after, "root"@, Some(e)),
    }
}

/// What becomes of the notices and of the run once a root entity has been placed with
/// the result `placed_as`.
pub fn settle(placed_as: Result<(), EngineError>, notices: &mut Vec<Notice>) -> (r: Result<
    (),
    EngineError,
>)
    ensures
        settled(placed_as, old(notices)@, final(notices)@, r),
        all_for(final(notices)@, old(notices)@.len() as int, "root"@),
{
    match placed_as {
        Ok(()) => Ok(()),
        Err(EngineError::UnknownKind) => Err(EngineError::UnknownKind),
        Err(e) => {
            let note = engine_notice(
                "root",
                Some(e),
                "a root entity does not accept its description",
            );
            notices.push(note);
            assert(notices@.subrange(0, old(notices)@.len() as int) =~= old(notices)@);
            Ok(())
        },
    }
}

/// Brings the root entities in line with one entry of the root description, as it was
/// read from the runtime: the name of the entry if it has one, the name of the kind that
/// the entry gives if it gives one, and a copy of the entry.
///
/// An entry without a name is noted and passed over.  An entry that gives no kind, or a
/// kind that does not exist, ends the run with [`EngineError::UnknownKind`], and fewer
/// identities left than placing the entity needs end it with
/// [`EngineError::IdentitiesExhausted`]; nothing changes then.  Otherwise the entity is placed as [`place_entity`] says and the result
/// is settled as [`settle`] says.
pub fn place_described(
    children: &mut ChildrenContainer,
    name: Option<String>,
    kind_name: Option<String>,
    description: &Variant,
    ids: &mut IdCounter,
    notices: &mut Vec<Notice>,
) -> (r: Result<(), EngineError>)
    ensures
        old(children).wf() ==> final(children).wf(),
        keeps_names(old(children).children@, final(children).children@),
        final(ids).next >= old(ids).next,
        final(notices)@.len() >= old(notices)@.len(),
        final(notices)@.subrange(0, old(notices)@.len() as int) == old(notices)@,
        all_for(final(notices)@, old(notices)@.len() as int, "root"@),
        forall|lua: mlua::Lua|
            children_live_in(old(children).children@, lua) ==> #[trigger] children_live_in(
                final(children).children@,
                lua,
            ),
        r is Err ==> (r->Err_0 == EngineError::UnknownKind || r->Err_0
            == EngineError::IdentitiesExhausted),
        match (name, kind_name) {
            (None, _) => {
                &&& r is Ok
                &&& *final(children) == *old(children)
                &&& *final(ids) == *old(ids)
                &&& noted(
                    old(notices)@,
                    final(notices)@,
                    "root"@,
                    Some(EngineError::Serialization),
                )
            },
            (Some(_), None) => {
                &&& r == Err::<(), EngineError>(EngineError::UnknownKind)
                &&& *final(children) == *old(children)
                &&& *final(ids) == *old(ids)
                &&& final(notices)@ == old(notices)@
            },
            (Some(label), Some(kind_label)) => if old(ids).remaining() < placing_needs(
                old(children).children@,
                label@,
                kind_label@,
            ) {
                &&& r == Err::<(), EngineError>(EngineError::IdentitiesExhausted)
                &&& *final(children) == *old(children)
                &&& *final(ids) == *old(ids)
                &&& final(notices)@ == old(notices)@
            } else {
                match Kind::named(kind_label@) {
                    None => {
                        &&& r == Err::<(), EngineError>(EngineError::UnknownKind)
                        &&& *final(children) == *old(children)
                        &&& *final(ids) == *old(ids)
                        &&& final(notices)@ == old(notices)@
                    },
                    Some(kind) => exists|placed_as: Result<(), EngineError>|
                        {
                            &&& #[trigger] placed(
                                old(children).children@,
                                label,
                                kind,
                                description@,
                                *old(ids),
                                final(children).children@,
                                placed_as,
                            )
                            &&& settled(placed_as, old(notices)@, final(notices)@, r)
                        },
                }
            },
        },
{
    let label = match name {
        Some(label) => label,
        None => {
            let note = engine_notice(
                "root",
                Some(EngineError::Serialization),
                "a root entity has no name",
            );
            notices.push(note);
            assert(notices@.subrange(0, old(notices)@.len() as int) =~= old(notices)@);
            return Ok(());
        },
    };
    let kind_label = match kind_name {
        Some(kind_label) => kind_label,
        None => {
            return Err(EngineError::UnknownKind);
        },
    };
    if !ids.has(placing_cost(children, label.as_str(), kind_label.as_str())) {
        return Err(EngineError::IdentitiesExhausted);
    }
    let ghost tag = label;
    let placed_as = place_entity(children, label, kind_label.as_str(), description, ids);
    proof {
        match Kind::named(kind_label@) {
            Some(kind) => {
                lemma_placed_keeps_names(
                    old(children).children@,
                    tag,
                    kind,
                    description@,
                    *old(ids),
                    children.children@,
                    placed_as,
                );
                assert forall|lua: mlua::Lua|
                    children_live_in(old(children).children@, lua) implies #[trigger] children_live_in(
                    children.children@,
                    lua,
                ) by {
                    lemma_placed_lives_in(
                        old(children).children@,
                        tag,
                        kind,
                        description@,
                        *old(ids),
                        children.children@,
                        placed_as,
                        lua,
                    );
                }
            },
            None => {},
        }
    }
    let r = settle(placed_as, notices);
    proof {
        if Kind::named(kind_label@) is Some {
            assert(placed(
                old(children).children@,
                tag,
                Kind::named(kind_label@)->0,
                description@,
                *old(ids),
                children.children@,
                placed_as,
            ));
        }
    }
    r
}

/// Merges what a hook left with the entity and notes what went wrong.
///
/// Every failure of the report becomes a notice about the entity, in order, with the
/// script, the error and the message of the failure.  A state that the entity does not
/// accept becomes a notice after those, with the error of the rejection, and the entity
/// stays as it was.  Every collider of the entity's tree is then made known to
/// `registry` as it lies after the merge, and the registry is handed to `publish`, by
/// which the host lets the scripts that run next see it.
pub fn merge_back<P: Fn(&ColliderRegistry)>(
    entity: &mut Entity,
    report: &HookReport,
    hook: &str,
    registry: &mut ColliderRegistry,
    publish: &P,
    notices: &mut Vec<Notice>,
)
    requires
        forall|known: &ColliderRegistry| #[trigger] call_requires(*publish, (known, )),
    ensures
        final(registry)@ == final(entity).recorded(old(registry)@),
        forall|lua: mlua::Lua|
            old(entity).lives_in(lua) ==> #[trigger] final(entity).lives_in(lua),
        match report.state {
            Some(state) => match old(entity).accepts(state@) {
                Ok(()) => old(entity).merged(state@, *final(entity)) && final(notices)@.len()
                    == old(notices)@.len() + report.failures@.len(),
                Err(e) => {
                    &&& *final(entity) == *old(entity)
                    &&& final(notices)@.len() == old(notices)@.len() + report.failures@.len() + 1
                    &&& about_entity(final(notices)@.last(), *old(entity), Seq::empty(), hook@, e)
                },
            },
            None => *final(entity) == *old(entity) && final(notices)@.len() == old(notices)@.len()
                + report.failures@.len(),
        },
        forall|i: int|
            0 <= i < report.failures@.len() ==> {
                &&& about_entity(
                    #[trigger] final(notices)@[old(notices)@.len() + i],
                    *old(entity),
                    report.failures@[i].script@,
                    hook@,
                    report.failures@[i].error,
                )
                &&& final(notices)@[old(notices)@.len() + i].message@
                    == report.failures@[i].message@
            },
        final(entity).kind_spec() == old(entity).kind_spec(),
        final(entity).base_spec().id == old(entity).base_spec().id,
        final(entity).base_spec().scripts == old(entity).base_spec().scripts,
        same_names(
            old(entity).base_spec().children.children@,
            final(entity).base_spec().children.children@,
        ),
        final(notices)@.subrange(0, old(notices)@.len() as int) == old(notices)@,
        all_for(final(notices)@, old(notices)@.len() as int, hook@),
{
    let n = report.failures.len();
    let mut i: usize = 0;
    while i < n
        invariant
            i <= n,
            n == report.failures@.len(),
            *entity == *old(entity),
            notices@.len() == old(notices)@.len() + i,
            notices@.subrange(0, old(notices)@.len() as int) == old(notices)@,
            all_for(notices@, old(notices)@.len() as int, hook@),
            forall|j: int|
                0 <= j < i ==> {
                    &&& about_entity(
                        #[trigger] notices@[old(notices)@.len() + j],
                        *old(entity),
                        report.failures@[j].script@,
                        hook@,
                        report.failures@[j].error,
                    )
                    &&& notices@[old(notices)@.len() + j].message@ == report.failures@[j].message@
                },
        decreases n - i,
    {
        let failure = &report.failures[i];
        let note = notice_for(
            entity,
            failure.script.as_str(),
            hook,
            failure.error,
            failure.message.as_str(),
        );
        let ghost before = notices@;
        notices.push(note);
        assert(notices@.subrange(0, old(notices)@.len() as int) =~= before.subrange(
            0,
            old(notices)@.len() as int,
        ));
        i += 1;
    }
    match &report.state {
        Some(state) => {
            let merged = entity.from_lua(state);
            proof {
                reveal_strlit("");
                assert(""@ =~= Seq::<char>::empty());
                if merged is Ok {
                    lemma_merged_keeps_identity(*old(entity), state@, *entity);
                }
            }
            match merged {
                Ok(()) => {},
                Err(e) => {
                    let note = notice_for(
                        entity,
                        "",
                        hook,
                        e,
                        "the entity does not accept what its scripts left in `this`",
                    );
                    let ghost before = notices@;
                    notices.push(note);
                    assert(notices@.subrange(0, old(notices)@.len() as int) =~= before.subrange(
                        0,
                        old(notices)@.len() as int,
                    ));
                },
            }
        },
        None => {},
    }
    proof {
        assert forall|lua: mlua::Lua| old(entity).lives_in(lua) implies #[trigger] entity.lives_in(
            lua,
        ) by {
            match report.state {
                Some(state) => {
                    if old(entity).accepts(state@) is Ok {
                        lemma_merged_lives_in(*old(entity), state@, *entity, lua);
                    }
                },
                None => {},
            }
        }
    }
    entity.record_colliders(registry);
    publish(&*registry);
}

/// Notices for a hook, followed by more notices for it, are notices for it.
pub proof fn lemma_all_for(before: Seq<Notice>, after: Seq<Notice>, from: int, hook: Seq<char>)
    requires
        0 <= from <= before.len() <= after.len(),
        after.subrange(0, before.len() as int) == before,
        all_for(before, from, hook),
        all_for(after, before.len() as int, hook),
    ensures
        all_for(after, from, hook),
{
    assert forall|k: int| from <= k < after.len() implies (#[trigger] after[k]).hook@ == hook by {
        if k < before.len() {
            assert(after.subrange(0, before.len() as int)[k] == after[k]);
        }
    }
}

/// An entity whose children are as they were, and whose scripts live in a runtime,
/// lives there where it did before.
pub proof fn lemma_lives_in_base(before: Entity, after: Entity, lua: mlua::Lua)
    requires
        before.lives_in(lua),
        after.scripts_within(lua),
        after.base_spec().children == before.base_spec().children,
    ensures
        after.lives_in(lua),
{
    assert forall|i: int|
        0 <= i < after.base_spec().children.children@.len() implies (
    #[trigger] after.base_spec().children.children@[i]).1.lives_in(lua) by {
        lemma_child_lives_in(before, lua, i);
    }
    lemma_lives_in(after, lua);
}

/// Whether no script is live in the tree of `entity`, `depth` levels down.
pub open spec fn idle(entity: Entity, depth: nat) -> bool
    decreases depth,
{
    &&& entity.base_spec().scripts.live_count() == 0
    &&& depth > 0 ==> forall|i: int|
        0 <= i < entity.base_spec().children.children@.len() ==> idle(
            (#[trigger] entity.base_spec().children.children@[i]).1,
            (depth - 1) as nat,
        )
}

/// Whether the tree of `entity`, `depth` levels down, has no script at all: none queued,
/// none live.
pub open spec fn unscripted(entity: Entity, depth: nat) -> bool
    decreases depth,
{
    &&& entity.nothing_queued()
    &&& entity.base_spec().scripts.live_count() == 0
    &&& depth > 0 ==> forall|i: int|
        0 <= i < entity.base_spec().children.children@.len() ==> unscripted(
            (#[trigger] entity.base_spec().children.children@[i]).1,
            (depth - 1) as nat,
        )
}

/// Whether `after` is `before` with nothing changed: the same entity on a base with the
/// same identity and scripts, and the same children under the same names, each of them
/// unchanged in this sense `depth` levels down.
pub open spec fn same_tree(before: Entity, after: Entity, depth: nat) -> bool
    decreases depth,
{
    let was = before.base_spec().children.children@;
    let is = after.base_spec().children.children@;
    &&& after == before.with_base(after.base_spec())
    &&& after.base_spec().id == before.base_spec().id
    &&& after.base_spec().scripts == before.base_spec().scripts
    &&& same_names(was, is)
    &&& if depth == 0 {
        is == was
    } else {
        forall|i: int|
            0 <= i < was.len() ==> same_tree(was[i].1, (#[trigger] is[i]).1, (depth - 1) as nat)
    }
}

/// An entity is the same tree as itself.
pub proof fn lemma_same_tree_self(entity: Entity, depth: nat)
    ensures
        same_tree(entity, entity, depth),
    decreases depth,
{
    let kids = entity.base_spec().children.children@;
    if depth > 0 {
        assert forall|i: int| 0 <= i < kids.len() implies same_tree(
            kids[i].1,
            (#[trigger] kids[i]).1,
            (depth - 1) as nat,
        ) by {
            lemma_same_tree_self(kids[i].1, (depth - 1) as nat);
        }
    }
}

/// A frame's native update makes no script live.
pub proof fn lemma_update_keeps_idle(before: Entity, after: Entity, depth: nat)
    requires
        before.updated(after),
        idle(before, depth),
    ensures
        idle(after, depth),
    decreases depth,
{
    lemma_updated_keeps_identity(before, after);
    let was = before.base_spec().children.children@;
    let is = after.base_spec().children.children@;
    assert(crate::nodes::node::children_updated(was, is));
    if depth > 0 {
        assert forall|i: int| 0 <= i < is.len() implies idle(
            (#[trigger] is[i]).1,
            (depth - 1) as nat,
        ) by {
            assert(idle(was[i].1, (depth - 1) as nat));
            lemma_update_keeps_idle(was[i].1, is[i].1, (depth - 1) as nat);
        }
    }
}

/// Whether `after` is `before` after a frame's native update and nothing else.
pub open spec fn only_updated(before: Entity, after: Entity) -> bool {
    exists|m: Entity| #[trigger] before.updated(m) && same_tree(m, after, TREE_DEPTH as nat)
}

/// Runs `hook` for `entity` and then for its children, `depth` levels down.
///
/// Where `loading`, the queued scripts of each entity are loaded first; a script that
/// fails to load ends the run.  Where nothing is loaded and no script is live in the tree,
/// the entity is left as it is and nothing is noted.  A tree without any script never
/// fails and nothing is noted for it.
#[verifier::spinoff_prover]
#[verifier::rlimit(40)]
fn run_entity<P: Fn(&ColliderRegistry)>(
    entity: &mut Entity,
    lua: &mlua::Lua,
    bindings: &Bindings,
    hook: &str,
    args: &Vec<Variant>,
    globals: &FrameGlobals,
    loading: bool,
    depth: usize,
    registry: &mut ColliderRegistry,
    publish: &P,
    notices: &mut Vec<Notice>,
) -> (r: Result<(), EngineError>)
    requires
        bindings.within(*lua),
        old(entity).lives_in(*lua),
        forall|known: &ColliderRegistry| #[trigger] call_requires(*publish, (known, )),
    ensures
        final(entity).lives_in(*lua),
        final(entity).kind_spec() == old(entity).kind_spec(),
        final(entity).base_spec().id == old(entity).base_spec().id,
        same_names(
            old(entity).base_spec().children.children@,
            final(entity).base_spec().children.children@,
        ),
        !loading ==> final(entity).base_spec().scripts == old(entity).base_spec().scripts,
        final(notices)@.len() >= old(notices)@.len(),
        final(notices)@.subrange(0, old(notices)@.len() as int) == old(notices)@,
        all_for(final(notices)@, old(notices)@.len() as int, hook@),
        r is Err ==> loading && (r->Err_0 == EngineError::ScriptCompile || r->Err_0
            == EngineError::ScriptRuntime),
        !loading && idle(*old(entity), depth as nat) ==> final(notices)@ == old(notices)@
            && same_tree(*old(entity), *final(entity), depth as nat),
        loading && unscripted(*old(entity), depth as nat) ==> r is Ok && final(notices)@ == old(
            notices,
        )@,
    decreases depth,
{
    proof {
        assert(old(entity).tree_within(*lua, 0));
    }
    if loading {
        let loaded = entity.load_scripts(lua);
        proof {
            lemma_lives_in_base(*old(entity), *entity, *lua);
        }
        match loaded {
            Ok(()) => {},
            Err(e) => {
                return Err(e);
            },
        }
        entity.setup();
    }
    proof {
        if loading && unscripted(*old(entity), depth as nat) {
            assert(entity.base_spec().scripts.live() == Some(Seq::<Seq<char>>::empty()));
        }
    }
    let report = entity.base().scripts.run_4all_envs(lua, bindings, hook, args, globals);
    merge_back(entity, &report, hook, registry, publish, notices);
    assert(entity.lives_in(*lua));
    proof {
        if !loading && idle(*old(entity), depth as nat) {
            assert(notices@ =~= old(notices)@);
            lemma_same_tree_self(*entity, 0);
        }
        if loading && unscripted(*old(entity), depth as nat) {
            assert(notices@ =~= old(notices)@);
        }
    }
    if depth == 0 {
        return Ok(());
    }
    let ghost id = entity.base_spec().id;
    let ghost pre = *entity;
    proof {
        assert(pre.tree_within(*lua, 0));
        assert forall|j: int|
            0 <= j < pre.base_spec().children.children@.len() implies (
        #[trigger] pre.base_spec().children.children@[j]).1.lives_in(*lua) by {
            lemma_child_lives_in(pre, *lua, j);
        }
    }
    let base = entity.base_mut();
    let n = base.children.children.len();
    let mut i: usize = 0;
    while i < n
        invariant
            i <= n,
            n == base.children.children@.len(),
            base.id == id,
            depth > 0,
            pre.kind_spec() == old(entity).kind_spec(),
            pre.base_spec().id == old(entity).base_spec().id,
            id == pre.base_spec().id,
            base.scripts == pre.base_spec().scripts,
            bindings.within(*lua),
            forall|known: &ColliderRegistry| #[trigger] call_requires(*publish, (known, )),
            pre.scripts_within(*lua),
            children_live_in(base.children.children@, *lua),
            !loading ==> pre.base_spec().scripts == old(entity).base_spec().scripts,
            same_names(
                old(entity).base_spec().children.children@,
                pre.base_spec().children.children@,
            ),
            same_names(pre.base_spec().children.children@, base.children.children@),
            after_borrow(*entity) == pre.with_base(*final(base)),
            notices@.len() >= old(notices)@.len(),
            notices@.subrange(0, old(notices)@.len() as int) == old(notices)@,
            all_for(notices@, old(notices)@.len() as int, hook@),
            !loading && idle(*old(entity), depth as nat) ==> {
                &&& pre == *old(entity)
                &&& notices@ == old(notices)@
                &&& forall|j: int|
                    0 <= j < i ==> same_tree(
                        pre.base_spec().children.children@[j].1,
                        (#[trigger] base.children.children@[j]).1,
                        (depth - 1) as nat,
                    )
                &&& forall|j: int|
                    i <= j < n ==> #[trigger] base.children.children@[j]
                        == pre.base_spec().children.children@[j]
            },
            loading && unscripted(*old(entity), depth as nat) ==> {
                &&& notices@ == old(notices)@
                &&& forall|j: int|
                    i <= j < n ==> #[trigger] base.children.children@[j] == old(
                        entity,
                    ).base_spec().children.children@[j]
            },
        decreases n - i,
    {
        let ghost before = notices@;
        let ghost kids = base.children.children@;
        proof {
            if !loading && idle(*old(entity), depth as nat) {
                assert(kids[i as int] == pre.base_spec().children.children@[i as int]);
                assert(idle(pre.base_spec().children.children@[i as int].1, (depth - 1) as nat));
            }
            if loading && unscripted(*old(entity), depth as nat) {
                assert(kids[i as int] == old(entity).base_spec().children.children@[i as int]);
                assert(unscripted(
                    old(entity).base_spec().children.children@[i as int].1,
                    (depth - 1) as nat,
                ));
            }
        }
        let child = &mut base.children.children[i];
        let r = run_entity(
            &mut child.1,
            lua,
            bindings,
            hook,
            args,
            globals,
            loading,
            depth - 1,
            registry,
            publish,
            notices,
        );
        proof {
            assert forall|j: int|
                0 <= j < base.children.children@.len() implies (
            #[trigger] base.children.children@[j]).1.lives_in(*lua) by {
                if j != i {
                    assert(base.children.children@[j] == kids[j]);
                }
            }
        }
        assert(notices@.subrange(0, old(notices)@.len() as int) =~= notices@.subrange(
            0,
            before.len() as int,
        ).subrange(0, old(notices)@.len() as int));
        proof {
            lemma_all_for(before, notices@, old(notices)@.len() as int, hook@);
        }
        match r {
            Ok(()) => {},
            Err(e) => {
                proof {
                    lemma_lives_in(pre.with_base(*base), *lua);
                }
                return Err(e);
            },
        }
        i += 1;
    }
    proof {
        lemma_lives_in(pre.with_base(*base), *lua);
    }
    Ok(())
}

/// Whether `after` is what running a hook leaves of the entities `before`, whatever the
/// scripts did: the same names in the same places, and under each name the entity of the
/// same kind and identity with its children under their names.
pub open spec fn hooks_ran(before: Seq<(String, Entity)>, after: Seq<(String, Entity)>) -> bool {
    &&& same_names(before, after)
    &&& forall|i: int|
        0 <= i < before.len() ==> {
            &&& (#[trigger] after[i]).1.kind_spec() == before[i].1.kind_spec()
            &&& after[i].1.base_spec().id == before[i].1.base_spec().id
            &&& same_names(
                before[i].1.base_spec().children.children@,
                after[i].1.base_spec().children.children@,
            )
        }
}

/// Whether every entity of `before` in whose tree no script is live is in `after`, in its
/// place, its native update and nothing else.
pub open spec fn idle_updated(before: Seq<(String, Entity)>, after: Seq<(String, Entity)>) -> bool {
    forall|i: int|
        0 <= i < before.len() && i < after.len() && idle(before[i].1, TREE_DEPTH as nat)
            ==> only_updated(before[i].1, (#[trigger] after[i]).1)
}

/// Runs `hook` for every entity of `children` and its tree; with a `deltatime`, after the
/// native update of that tree.
///
/// An entity in whose tree no script is live is then its native update and nothing else;
/// where that holds of every entity, nothing is noted.  Without a `deltatime` the queued
/// scripts are loaded first; where no tree has any script, that never fails and nothing
/// is noted.
fn run_children<P: Fn(&ColliderRegistry)>(
    children: &mut ChildrenContainer,
    lua: &mlua::Lua,
    bindings: &Bindings,
    hook: &str,
    args: &Vec<Variant>,
    globals: &FrameGlobals,
    deltatime: Option<Scalar>,
    registry: &mut ColliderRegistry,
    publish: &P,
    notices: &mut Vec<Notice>,
) -> (r: Result<(), EngineError>)
    requires
        bindings.within(*lua),
        children_live_in(old(children).children@, *lua),
        forall|known: &ColliderRegistry| #[trigger] call_requires(*publish, (known, )),
    ensures
        children_live_in(final(children).children@, *lua),
        hooks_ran(old(children).children@, final(children).children@),
        final(notices)@.len() >= old(notices)@.len(),
        final(notices)@.subrange(0, old(notices)@.len() as int) == old(notices)@,
        all_for(final(notices)@, old(notices)@.len() as int, hook@),
        r is Err ==> deltatime is None && (r->Err_0 == EngineError::ScriptCompile || r->Err_0
            == EngineError::ScriptRuntime),
        deltatime is Some ==> idle_updated(old(children).children@, final(children).children@),
        deltatime is Some && (forall|i: int|
            0 <= i < old(children).children@.len() ==> idle(
                (#[trigger] old(children).children@[i]).1,
                TREE_DEPTH as nat,
            )) ==> final(notices)@ == old(notices)@,
        deltatime is None && (forall|i: int|
            0 <= i < old(children).children@.len() ==> unscripted(
                (#[trigger] old(children).children@[i]).1,
                TREE_DEPTH as nat,
            )) ==> r is Ok && final(notices)@ == old(notices)@,
{
    let n = children.children.len();
    let mut i: usize = 0;
    while i < n
        invariant
            i <= n,
            n == old(children).children@.len(),
            hooks_ran(old(children).children@, children.children@),
            bindings.within(*lua),
            forall|known: &ColliderRegistry| #[trigger] call_requires(*publish, (known, )),
            children_live_in(children.children@, *lua),
            notices@.len() >= old(notices)@.len(),
            notices@.subrange(0, old(notices)@.len() as int) == old(notices)@,
            all_for(notices@, old(notices)@.len() as int, hook@),
            forall|j: int|
                i <= j < n ==> #[trigger] children.children@[j] == old(children).children@[j],
            deltatime is Some ==> forall|j: int|
                0 <= j < i && idle(old(children).children@[j].1, TREE_DEPTH as nat)
                    ==> only_updated(
                    old(children).children@[j].1,
                    (#[trigger] children.children@[j]).1,
                ),
            deltatime is Some && (forall|j: int|
                0 <= j < old(children).children@.len() ==> idle(
                    (#[trigger] old(children).children@[j]).1,
                    TREE_DEPTH as nat,
                )) ==> notices@ == old(notices)@,
            deltatime is None && (forall|j: int|
                0 <= j < old(children).children@.len() ==> unscripted(
                    (#[trigger] old(children).children@[j]).1,
                    TREE_DEPTH as nat,
                )) ==> notices@ == old(notices)@,
        decreases n - i,
    {
        let ghost noted_before = notices@;
        let ghost first = children.children@[i as int].1;
        let ghost kids = children.children@;
        assert(first == old(children).children@[i as int].1);
        assert(first.lives_in(*lua));
        let child = &mut children.children[i];
        match deltatime {
            Some(dt) => {
                let ghost was = child.1;
                child.1.update(dt);
                proof {
                    lemma_updated_lives_in(was, child.1, *lua);
                    lemma_updated_keeps_identity(was, child.1);
                    if idle(was, TREE_DEPTH as nat) {
                        lemma_update_keeps_idle(was, child.1, TREE_DEPTH as nat);
                    }
                }
            },
            None => {},
        }
        let ghost mid = child.1;
        let r = run_entity(
            &mut child.1,
            lua,
            bindings,
            hook,
            args,
            globals,
            deltatime.is_none(),
            TREE_DEPTH,
            registry,
            publish,
            notices,
        );
        proof {
            assert forall|j: int| 0 <= j < children.children@.len() implies (
            #[trigger] children.children@[j]).1.lives_in(*lua) by {
                if j != i {
                    assert(children.children@[j] == kids[j]);
                }
            }
            assert(notices@.subrange(0, old(notices)@.len() as int) =~= notices@.subrange(
                0,
                noted_before.len() as int,
            ).subrange(0, old(notices)@.len() as int));
            lemma_all_for(noted_before, notices@, old(notices)@.len() as int, hook@);
        }
        match r {
            Ok(()) => {},
            Err(e) => {
                return Err(e);
            },
        }
        i += 1;
    }
    Ok(())
}

impl Engine {
    /// Whether everything the engine holds lives in its runtime: the environment of the
    /// entry script, the bindings, and the scripts of every entity.
    pub open spec fn sound(&self) -> bool {
        &&& table_home(self.environment) == runtime_id(self.lua)
        &&& self.bindings.within(self.lua)
        &&& children_live_in(self.children.children@, self.lua)
    }

    /// An engine with the background `bg` and no entities, for the runtime `lua` in which
    /// `env` is the entry script's environment.  The environment and the bindings must
    /// live in `lua`.
    pub fn new(bg: Color, env: mlua::Table, lua: mlua::Lua, bindings: Bindings) -> (engine: Engine)
        requires
            table_home(env) == runtime_id(lua),
            bindings.within(lua),
        ensures
            engine.sound(),
            engine.bg_color == bg,
            engine.children.children@.len() == 0,
            engine.children.wf(),
            engine.environment == env,
            engine.lua == lua,
            engine.bindings == bindings,
    {
        Engine { bg_color: bg, children: ChildrenContainer::new(), environment: env, lua, bindings }
    }

    /// An engine for the entry script `source`: runs the script's top level in
    /// `environment` and takes the background colour from the script's `color`.
    ///
    /// Fails where the script does not compile or its top level raises an error.  The
    /// engine made holds the runtime, the environment and the bindings handed in, and no
    /// entity.  The environment and the bindings must live in `lua`.
    pub fn load(source: String, lua: mlua::Lua, environment: mlua::Table, bindings: Bindings) -> (r:
        Result<Engine, EngineError>)
        requires
            table_home(environment) == runtime_id(lua),
            bindings.within(lua),
        ensures
            match r {
                Ok(engine) => {
                    &&& engine.sound()
                    &&& engine.children.children@.len() == 0
                    &&& engine.children.wf()
                    &&& engine.environment == environment
                    &&& engine.lua == lua
                    &&& engine.bindings == bindings
                },
                Err(e) => e == EngineError::ScriptCompile || e == EngineError::ScriptRuntime,
            },
    {
        let compiled = match lua::compiled(&lua, source, &environment, "entry") {
            Ok(f) => f,
            Err(e) => {
                return Err(load_error(lua::is_syntax_error(&e)));
            },
        };
        match lua::call(&lua, &compiled, Vec::new()) {
            Ok(_) => {},
            Err(e) => {
                return Err(load_error(lua::is_syntax_error(&e)));
            },
        }
        let color = match lua::get(&lua, &environment, "color") {
            Ok(c) => background(&snapshot(&lua, &c, SNAPSHOT_DEPTH)),
            Err(_) => Color::new(0),
        };
        Ok(Engine::new(color, environment, lua, bindings))
    }

    /// Compiles the script `source`, read from the file `filename`, and queues it for
    /// `node`; the script will see a snapshot of the entity as it is now.
    ///
    /// On success the script is the last of the entity's queue.  On failure the queue is
    /// as it was, see [`crate::script_manager::ScriptManager::addScript`].  Nothing else
    /// of the entity changes.  The bindings and the scripts of the entity must live in
    /// the engine's runtime.
    pub fn add_script_to_node<N: NodeLike + Luable>(
        &self,
        node: &mut N,
        filename: String,
        source: String,
        globals: &FrameGlobals,
    ) -> (r: Result<(), EngineError>)
        requires
            self.bindings.within(self.lua),
            old(node).node_base().scripts.within(self.lua),
        ensures
            final(node).node_base().scripts.within(self.lua),
            final(node).node_kind() == old(node).node_kind(),
            final(node).node_base().id == old(node).node_base().id,
            final(node).node_base().children == old(node).node_base().children,
            final(node).node_base().scripts.live() == old(node).node_base().scripts.live(),
            match r {
                Ok(()) => final(node).node_base().scripts.pending()
                    == old(node).node_base().scripts.pending().push(filename@),
                Err(e) => (e == EngineError::ScriptCompile || e == EngineError::ScriptRuntime)
                    && final(node).node_base().scripts.pending()
                    == old(node).node_base().scripts.pending(),
            },
    {
        let this = node.as_lua();
        let scripts = node.get_scripts();
        scripts.addScript(filename, source, &self.lua, &self.bindings, &this, globals)
    }

    /// The global hook to call, given what looking it up found: the function, or, where
    /// there is none, nothing, with a warning noted.  A missing hook ends nothing: the
    /// phase goes on with the entities.
    pub fn found_hook(found: Option<mlua::Function>, name: &str, notices: &mut Vec<Notice>) -> (hook:
        Option<mlua::Function>)
        ensures
            hook == found,
            match found {
                Some(_) => final(notices)@ == old(notices)@,
                None => noted(old(notices)@, final(notices)@, name@, None),
            },
    {
        if found.is_none() {
            let note = engine_notice(name, None, "the entry script has no such function");
            notices.push(note);
            assert(notices@.subrange(0, old(notices)@.len() as int) =~= old(notices)@);
        }
        found
    }

    /// Calls the global function `name` of the entry script, if there is one.
    ///
    /// Where there is none, a warning is noted and nothing else is.  Fails where the
    /// function raises an error or an argument cannot be passed; nothing is noted then.
    /// The function is never called with arguments that the runtime cannot hold.
    fn call_global(&self, name: &str, args: &Vec<Variant>, notices: &mut Vec<Notice>) -> (r: Result<
        (),
        EngineError,
    >)
        requires
            table_home(self.environment) == runtime_id(self.lua),
            self.bindings.within(self.lua),
        ensures
            r is Err ==> r->Err_0 == EngineError::ScriptRuntime && final(notices)@ == old(notices)@,
            r is Ok ==> final(notices)@ == old(notices)@ || noted(
                old(notices)@,
                final(notices)@,
                name@,
                None,
            ),
            r is Ok && unpassable(args@) ==> noted(old(notices)@, final(notices)@, name@, None),
            final(notices)@.len() >= old(notices)@.len(),
            final(notices)@.subrange(0, old(notices)@.len() as int) == old(notices)@,
            all_for(final(notices)@, old(notices)@.len() as int, name@),
    {
        let found = match lua::get(&self.lua, &self.environment, name) {
            Ok(v) => function_of(lua::shape(&self.lua, &v)),
            Err(_) => None,
        };
        let f = match Self::found_hook(found, name, notices) {
            Some(f) => f,
            None => {
                return Ok(());
            },
        };
        let mut raw: Vec<mlua::Value> = Vec::new();
        let n = args.len();
        let mut i: usize = 0;
        while i < n
            invariant
                i <= n,
                n == args@.len(),
                notices@ == old(notices)@,
                self.bindings.within(self.lua),
                all_fit(raw@, self.lua),
                forall|j: int| 0 <= j < i ==> !beyond_runtime((#[trigger] args@[j])@),
            decreases n - i,
        {
            let ghost before = raw@;
            raw.push(materialize(&self.lua, &self.bindings, &args[i])?);
            assert forall|j: int| 0 <= j < raw@.len() implies fits(#[trigger] raw@[j], self.lua) by {
                if j < before.len() {
                    assert(raw@[j] == before[j]);
                }
            }
            i += 1;
        }
        match lua::call(&self.lua, &f, raw) {
            Ok(_) => Ok(()),
            Err(e) => Err(runtime_error(&e)),
        }
    }

    /// Brings the root entities in line with what the entry script's `root` describes:
    /// see [`place_described`] for each entry of `root`, as the runtime holds it now.
    ///
    /// An entry that is no description is noted and passed over, and so is a description
    /// that its entity rejects.  Fails where a description names no kind or a kind that does
    /// not exist, and where the identities run out.  Whatever the runtime holds, no root
    /// entity is lost, no identity is handed out twice, what was noted stays noted, and the
    /// engine keeps its background, runtime, environment and bindings.
    pub fn materialize_root(&mut self, ids: &mut IdCounter, notices: &mut Vec<Notice>) -> (r:
        Result<(), EngineError>)
        requires
            old(self).sound(),
        ensures
            final(self).sound(),
            old(self).children.wf() ==> final(self).children.wf(),
            final(self).bg_color == old(self).bg_color,
            final(self).environment == old(self).environment,
            final(self).lua == old(self).lua,
            final(self).bindings == old(self).bindings,
            keeps_names(old(self).children.children@, final(self).children.children@),
            final(ids).next >= old(ids).next,
            final(notices)@.len() >= old(notices)@.len(),
            final(notices)@.subrange(0, old(notices)@.len() as int) == old(notices)@,
            all_for(final(notices)@, old(notices)@.len() as int, "root"@),
            r is Err ==> (r->Err_0 == EngineError::UnknownKind || r->Err_0
                == EngineError::IdentitiesExhausted),
    {
        let held = match lua::get(&self.lua, &self.environment, "root") {
            Ok(v) => table_of(lua::shape(&self.lua, &v)),
            Err(_) => None,
        };
        let root = match held {
            Some(t) => t,
            None => {
                return Ok(());
            },
        };
        let mut entries = match lua::pairs(&self.lua, &root) {
            Ok(p) => p,
            Err(e) => {
                let note = engine_notice(
                    "root",
                    Some(runtime_error(&e)),
                    "the root description cannot be read",
                );
                notices.push(note);
                assert(notices@.subrange(0, old(notices)@.len() as int) =~= old(notices)@);
                return Ok(());
            },
        };
        while entries.len() > 0
            invariant
                self.sound(),
                crate::lua::pairs_fit(entries@, self.lua),
                old(self).children.wf() ==> self.children.wf(),
                self.bg_color == old(self).bg_color,
                self.environment == old(self).environment,
                self.lua == old(self).lua,
                self.bindings == old(self).bindings,
                keeps_names(old(self).children.children@, self.children.children@),
                ids.next >= old(ids).next,
                notices@.len() >= old(notices)@.len(),
                notices@.subrange(0, old(notices)@.len() as int) == old(notices)@,
                all_for(notices@, old(notices)@.len() as int, "root"@),
            decreases entries.len(),
        {
            let ghost rest = entries@;
            let (key, value) = match entries.pop() {
                Some(entry) => entry,
                None => {
                    return Ok(());
                },
            };
            assert(rest[rest.len() - 1] == (key, value));
            let name = text_of(lua::shape(&self.lua, &key));
            let kind_name = if name.is_some() {
                Self::described_kind(&self.lua, &value)
            } else {
                None
            };
            let description = if kind_name.is_some() {
                snapshot(&self.lua, &value, SNAPSHOT_DEPTH)
            } else {
                Variant::Nil
            };
            let ghost before = notices@;
            let ghost held_before = self.children.children@;
            assert(children_live_in(held_before, self.lua));
            let placed = place_described(
                &mut self.children,
                name,
                kind_name,
                &description,
                ids,
                notices,
            );
            proof {
                lemma_all_for(before, notices@, old(notices)@.len() as int, "root"@);
                assert(children_live_in(self.children.children@, self.lua));
            }
            match placed {
                Ok(()) => {},
                Err(e) => {
                    proof {
                        assert(notices@.subrange(0, old(notices)@.len() as int)
                            =~= notices@.subrange(0, before.len() as int).subrange(
                            0,
                            old(notices)@.len() as int,
                        ));
                    }
                    return Err(e);
                },
            }
            proof {
                assert(notices@.subrange(0, old(notices)@.len() as int) =~= notices@.subrange(
                    0,
                    before.len() as int,
                ).subrange(0, old(notices)@.len() as int));
                assert(keeps_names(held_before, self.children.children@));
            }
        }
        Ok(())
    }

    /// The name of the kind that a description of the runtime gives: what its `kind`
    /// function returns, if that is a text.
    fn described_kind(lua: &mlua::Lua, value: &mlua::Value) -> (r: Option<String>)
        requires
            fits(*value, *lua),
    {
        let table = match table_of(lua::shape(lua, value)) {
            Some(t) => t,
            None => {
                return None;
            },
        };
        let f = match lua::get(lua, &table, "kind") {
            Ok(v) => match function_of(lua::shape(lua, &v)) {
                Some(f) => f,
                None => {
                    return None;
                },
            },
            Err(_) => {
                return None;
            },
        };
        match lua::call(lua, &f, Vec::new()) {
            Ok(v) => text_of(lua::shape(lua, &v)),
            Err(_) => None,
        }
    }

    /// One phase: the frame's globals, the global hook, the hooks of the entities, the
    /// root description.
    fn phase<P: Fn(&ColliderRegistry)>(
        &mut self,
        hook: &str,
        deltatime: Option<Scalar>,
        globals: &FrameGlobals,
        ids: &mut IdCounter,
        registry: &mut ColliderRegistry,
        publish: &P,
    ) -> (r: Result<Vec<Notice>, PhaseFailure>)
        requires
            old(self).sound(),
            forall|known: &ColliderRegistry| #[trigger] call_requires(*publish, (known, )),
        ensures
            final(self).sound(),
            old(self).children.wf() ==> final(self).children.wf(),
            final(self).bg_color == old(self).bg_color,
            keeps_names(old(self).children.children@, final(self).children.children@),
            exists|middle: Seq<(String, Entity)>|
                {
                    &&& #[trigger] hooks_ran(old(self).children.children@, middle)
                    &&& keeps_names(middle, final(self).children.children@)
                    &&& hooks_done(r) && deltatime is Some ==> idle_updated(
                        old(self).children.children@,
                        middle,
                    )
                },
            r is Err ==> ends_at(r->Err_0.error, r->Err_0.stage),
            r is Err && deltatime is Some ==> r->Err_0.stage != Stage::Loading,
            of_phase(notices_of(r), hook@),
            final(self).environment == old(self).environment,
            final(self).lua == old(self).lua,
            final(self).bindings == old(self).bindings,
            final(ids).next >= old(ids).next,
    {
        let mut notices: Vec<Notice> = Vec::new();
        proof {
            assert(hooks_ran(old(self).children.children@, old(self).children.children@));
        }
        match load_persistent(&self.lua, &self.bindings, &self.environment, globals) {
            Ok(()) => {},
            Err(error) => {
                return Err(PhaseFailure { error, stage: Stage::Globals, notices });
            },
        }
        let mut args: Vec<Variant> = Vec::new();
        match deltatime {
            Some(dt) => {
                args.push(Variant::Number(dt));
            },
            None => {},
        }
        match self.call_global(hook, &args, &mut notices) {
            Ok(()) => {},
            Err(error) => {
                return Err(PhaseFailure { error, stage: Stage::GlobalHook, notices });
            },
        }
        let ghost called = notices@;
        let ran = run_children(
            &mut self.children,
            &self.lua,
            &self.bindings,
            hook,
            &args,
            globals,
            deltatime,
            registry,
            publish,
            &mut notices,
        );
        let ghost hooked = notices@;
        proof {
            lemma_all_for(called, hooked, 0, hook@);
        }
        let ghost middle = self.children.children@;
        proof {
            assert(hooks_ran(old(self).children.children@, middle));
            assert forall|key: Seq<char>| #[trigger]
                held(old(self).children.children@, key) is Some implies held(
                middle,
                key,
            ) is Some by {
                lemma_same_names(old(self).children.children@, middle, key);
            }
            if old(self).children.wf() {
                lemma_same_names_distinct(old(self).children.children@, middle);
            }
        }
        match ran {
            Ok(()) => {},
            Err(error) => {
                return Err(PhaseFailure { error, stage: Stage::Loading, notices });
            },
        }
        let r = self.materialize_root(ids, &mut notices);
        proof {
            assert forall|k: int| 0 <= k < notices@.len() implies (#[trigger] notices@[k]).hook@
                == hook@ || notices@[k].hook@ == "root"@ by {
                if k < hooked.len() {
                    assert(notices@.subrange(0, hooked.len() as int)[k] == notices@[k]);
                }
            }
            assert(hooks_ran(old(self).children.children@, middle) && keeps_names(
                middle,
                self.children.children@,
            ) && (deltatime is Some ==> idle_updated(old(self).children.children@, middle)));
        }
        match r {
            Ok(()) => Ok(notices),
            Err(error) => Err(PhaseFailure { error, stage: Stage::Root, notices }),
        }
    }

    /// The setup phase, once before the first frame.
    ///
    /// Writes the frame's globals into the entry script's environment and calls its
    /// `Setup`, if it has one.  Then, for every root entity and below it for its children:
    /// loads the queued scripts, runs the hook `Setup` without arguments, and merges what
    /// the scripts left in `this` back into the entity.  Last, brings the root entities in
    /// line with the entry script's `root`.
    ///
    /// No root entity is lost and none changes its name.  What a hook of an entity or a
    /// merge got wrong is in the notices and never ends the phase.  The phase ends before
    /// its end only at one of the steps of [`Stage`], with an error of that step: where
    /// the globals cannot be written, the global `Setup` raises an error, a script does
    /// not load, or the root description names an unknown kind or needs more identities
    /// than are left.  What was noted until then is in the failure.
    ///
    /// Whatever the scripts do, the hooks leave every root entity its kind, its identity
    /// and its children's names, and only the root description adds or replaces root
    /// entities after that.  Every notice is for the hook `Setup` or for the root
    /// description.  The engine keeps its runtime, environment and bindings, and
    /// identities are only handed out, never taken back.
    ///
    /// After every merge the colliders of the merged entity are made known to `registry`
    /// as they then lie, and the registry is handed to `publish`, so that a later hook of
    /// the phase is answered by where they are; at the end `registry` knows exactly the
    /// colliders among the entities, as they lie, and is handed to `publish` once more.
    /// Hooks are run for the root entities and [`TREE_DEPTH`] levels below them, which
    /// is every entity of a tree that the machine can hold.
    /// Everything the engine holds must live in its runtime, and does so afterwards.
    pub fn setup_phase<P: Fn(&ColliderRegistry)>(
        &mut self,
        globals: &FrameGlobals,
        ids: &mut IdCounter,
        registry: &mut ColliderRegistry,
        publish: &P,
    ) -> (r: Result<Vec<Notice>, PhaseFailure>)
        requires
            old(self).sound(),
            forall|known: &ColliderRegistry| #[trigger] call_requires(*publish, (known, )),
        ensures
            final(registry)@ == crate::entity::children_recorded(
                final(self).children.children@,
                Seq::empty(),
                0,
            ),
            final(self).sound(),
            old(self).children.wf() ==> final(self).children.wf(),
            final(self).bg_color == old(self).bg_color,
            keeps_names(old(self).children.children@, final(self).children.children@),
            exists|middle: Seq<(String, Entity)>|
                {
                    &&& #[trigger] hooks_ran(old(self).children.children@, middle)
                    &&& keeps_names(middle, final(self).children.children@)
                },
            r is Err ==> ends_at(r->Err_0.error, r->Err_0.stage),
            of_phase(notices_of(r), "Setup"@),
            final(self).environment == old(self).environment,
            final(self).lua == old(self).lua,
            final(self).bindings == old(self).bindings,
            final(ids).next >= old(ids).next,
    {
        let r = self.phase("Setup", None, globals, ids, registry, publish);
        registry.clear();
        self.sync_colliders(registry);
        publish(&*registry);
        r
    }

    /// The update phase, once a frame.
    ///
    /// Writes the frame's globals into the entry script's environment and calls its `Loop`
    /// with the time since the last frame, if it has one.  Then, for every root entity: the
    /// native update of its tree, and for the entity and below it for its children the
    /// hook `Loop` with that time, merging what the scripts left in `this` back into the
    /// entity.  Last, brings the root entities in line with the entry script's `root`.
    ///
    /// No root entity is lost and none changes its name.  What a hook of an entity or a
    /// merge got wrong is in the notices and never ends the phase.  The phase ends before
    /// its end only at one of the steps of [`Stage`] but the loading, with an error of
    /// that step: where the globals cannot be written, the global `Loop` raises an error,
    /// or the root description names an unknown kind or needs more identities than are
    /// left.  What was noted until then is in the failure.
    ///
    /// Whatever the scripts do, the hooks leave every root entity its kind, its identity
    /// and its children's names, and only the root description adds or replaces root
    /// entities after that.  Where the hooks were run, a root entity in whose tree no
    /// script is live is, before the root description is read, its native update and
    /// nothing else.  Every notice is for the hook `Loop` or for the root description.
    /// The engine keeps its runtime, environment and bindings, and identities are only
    /// handed out, never taken back.
    ///
    /// After every merge the colliders of the merged entity are made known to `registry`
    /// as they then lie, and the registry is handed to `publish`, so that a later hook of
    /// the phase is answered by where they are; at the end `registry` knows exactly the
    /// colliders among the entities, as they lie, and is handed to `publish` once more.
    /// Hooks are run for the root entities and [`TREE_DEPTH`] levels below them, which
    /// is every entity of a tree that the machine can hold.
    /// Everything the engine holds must live in its runtime, and does so afterwards.
    pub fn update_phase<P: Fn(&ColliderRegistry)>(
        &mut self,
        deltatime: Scalar,
        globals: &FrameGlobals,
        ids: &mut IdCounter,
        registry: &mut ColliderRegistry,
        publish: &P,
    ) -> (r: Result<Vec<Notice>, PhaseFailure>)
        requires
            old(self).sound(),
            forall|known: &ColliderRegistry| #[trigger] call_requires(*publish, (known, )),
        ensures
            final(registry)@ == crate::entity::children_recorded(
                final(self).children.children@,
                Seq::empty(),
                0,
            ),
            final(self).sound(),
            old(self).children.wf() ==> final(self).children.wf(),
            final(self).bg_color == old(self).bg_color,
            keeps_names(old(self).children.children@, final(self).children.children@),
            exists|middle: Seq<(String, Entity)>|
                {
                    &&& #[trigger] hooks_ran(old(self).children.children@, middle)
                    &&& keeps_names(middle, final(self).children.children@)
                    &&& hooks_done(r) ==> idle_updated(
                        old(self).children.children@,
                        middle,
                    )
                },
            r is Err ==> ends_at(r->Err_0.error, r->Err_0.stage),
            r is Err ==> r->Err_0.stage != Stage::Loading,
            of_phase(notices_of(r), "Loop"@),
            final(self).environment == old(self).environment,
            final(self).lua == old(self).lua,
            final(self).bindings == old(self).bindings,
            final(ids).next >= old(ids).next,
    {
        let r = self.phase("Loop", Some(deltatime), globals, ids, registry, publish);
        registry.clear();
        self.sync_colliders(registry);
        publish(&*registry);
        r
    }

    /// Carries out what a script asked of an entity, see [`Entity::deliver`].  The root
    /// entities are searched in their order; the result tells whether the entity was
    /// found.
    ///
    /// The first root entity that holds the target is delivered to, as
    /// [`children_delivered`] says, and every other one is untouched.  The root entities
    /// keep their names.  Where the entity is not found nothing changes.  There must be
    /// as many identities left as the request can take, and everything the engine holds
    /// must live in its runtime.
    pub fn apply_command(
        &mut self,
        command: &Command,
        globals: &FrameGlobals,
        ids: &mut IdCounter,
    ) -> (r: Result<bool, EngineError>)
        requires
            old(ids).remaining() >= request_needs(command.request),
            old(self).sound(),
        ensures
            final(self).sound(),
            children_delivered(
                old(self).children.children@,
                *command,
                *old(ids),
                final(self).children.children@,
                *final(ids),
                r,
            ),
            final(self).environment == old(self).environment,
            final(self).lua == old(self).lua,
            final(self).bindings == old(self).bindings,
            final(self).bg_color == old(self).bg_color,
            same_names(old(self).children.children@, final(self).children.children@),
            children_hold(old(self).children.children@, command.target) <==> r != Ok::<
                bool,
                EngineError,
            >(false),
            r == Ok::<bool, EngineError>(false) ==> final(self).children == old(self).children
                && *final(ids) == *old(ids),
    {
        let n = self.children.children.len();
        let mut i: usize = 0;
        while i < n
            invariant
                i <= n,
                n == self.children.children@.len(),
                *self == *old(self),
                *ids == *old(ids),
                self.sound(),
                ids.remaining() >= request_needs(command.request),
                forall|j: int|
                    0 <= j < i ==> !(#[trigger] self.children.children@[j]).1.holds(
                        command.target,
                    ),
            decreases n - i,
        {
            if self.children.children[i].1.has_id(command.target) {
                let ghost was = self.children.children@;
                let child = &mut self.children.children[i];
                let r = child.1.deliver(command, &self.lua, &self.bindings, globals, ids);
                proof {
                    let is = self.children.children@;
                    assert(is[i as int].0 == was[i as int].0);
                    assert forall|j: int| 0 <= j < was.len() && j != i implies #[trigger] is[j]
                        == was[j] by {}
                    assert(children_hold(was, command.target));
                    assert forall|j: int| 0 <= j < is.len() implies (#[trigger] is[j]).1.lives_in(
                        self.lua,
                    ) by {
                        if j != i {
                            assert(is[j] == was[j]);
                        }
                    }
                }
                return r;
            }
            i += 1;
        }
        Ok(false)
    }

    /// Makes every collider among the entities known to `registry` as it lies now.
    pub fn sync_colliders(&self, registry: &mut ColliderRegistry)
        ensures
            final(registry)@ == crate::entity::children_recorded(
                self.children.children@,
                old(registry)@,
                0,
            ),
    {
        let n = self.children.children.len();
        let mut i: usize = 0;
        while i < n
            invariant
                i <= n,
                n == self.children.children@.len(),
                crate::entity::children_recorded(self.children.children@, old(registry)@, 0)
                    == crate::entity::children_recorded(
                    self.children.children@,
                    registry@,
                    i as int,
                ),
            decreases n - i,
        {
            self.children.children[i].1.record_colliders(registry);
            i += 1;
        }
    }
}

} // verus!
