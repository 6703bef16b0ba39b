//! The base of every entity: identity, children and scripts.

use vstd::prelude::*;
use crate::children_container::ChildrenContainer;
use crate::entity::Entity;
use crate::error::EngineError;
use crate::nodelike::generate_id;
use crate::nodelike::IdCounter;
use crate::scalar::Scalar;
use crate::script_manager::ScriptManager;
use crate::variant::lemma_pairs_view;
use crate::variant::pairs_view;
use crate::variant::Dynamic;
use crate::variant::Intrinsic;
use crate::variant::Variant;

verus! {

/// What every entity is built on.
pub struct Node {
    pub id: u64,
    pub children: ChildrenContainer,
    pub scripts: ScriptManager,
}

/// The snapshots of `children`, each under its name, in order.
pub open spec fn children_snapshot(children: Seq<(String, Entity)>) -> Seq<(Dynamic, Dynamic)>
    decreases children, 0nat,
{
    if children.len() == 0 {
        Seq::empty()
    } else {
        children_snapshot(children.drop_last()).push(
            Dynamic::pair(children.last().0@, children.last().1.snapshot()),
        )
    }
}

/// Whether every pair of `incoming` at or after `from` is keyed by the name of one of
/// `children`.
pub open spec fn names_known(
    incoming: Seq<(Dynamic, Dynamic)>,
    children: Seq<(String, Entity)>,
    from: int,
) -> bool
    decreases incoming.len() - from,
{
    if from < 0 || from >= incoming.len() {
        true
    } else {
        match incoming[from].0 {
            Dynamic::Str(name) => crate::children_container::held(children, name) is Some
                && names_known(incoming, children, from + 1),
            _ => false,
        }
    }
}

/// Whether each of `children` at or after `from` accepts what `patch` holds under its
/// name, and if not, the error of the first that does not.  A child whose name `patch`
/// does not hold accepts.
pub open spec fn children_accept(children: Seq<(String, Entity)>, patch: Dynamic, from: int) -> Result<
    (),
    EngineError,
>
    decreases children, children.len() - from,
{
    if from < 0 || from >= children.len() {
        Ok(())
    } else {
        let part = patch.field(children[from].0@);
        let this = if part is Nil {
            Ok(())
        } else {
            children[from].1.accepts(part)
        };
        match this {
            Err(e) => Err(e),
            Ok(()) => children_accept(children, patch, from + 1),
        }
    }
}

/// Whether `after` is `children` with each child merged with what `patch` holds under its
/// name: the same names in the same places, and a child whose name `patch` does not hold
/// untouched.
pub open spec fn children_merged(
    children: Seq<(String, Entity)>,
    patch: Dynamic,
    after: Seq<(String, Entity)>,
) -> bool
    decreases children, 0nat,
{
    &&& after.len() == children.len()
    &&& forall|i: int|
        0 <= i < children.len() ==> {
            &&& (#[trigger] after[i]).0 == children[i].0
            &&& if patch.field(children[i].0@) is Nil {
                after[i].1 == children[i].1
            } else {
                children[i].1.merged(patch.field(children[i].0@), after[i].1)
            }
        }
}

/// Whether `after` is `children` after a frame's native update: the same names in the
/// same places, each child updated.
pub open spec fn children_updated(children: Seq<(String, Entity)>, after: Seq<(String, Entity)>) -> bool
    decreases children, 0nat,
{
    &&& after.len() == children.len()
    &&& forall|i: int|
        0 <= i < children.len() ==> {
            &&& (#[trigger] after[i]).0 == children[i].0
            &&& children[i].1.updated(after[i].1)
        }
}

/// A children snapshot with more pairs than the base has children is rejected as a
/// structural violation.
pub proof fn lemma_more_children_rejected(node: Node, v: Dynamic)
    requires
        v is Table,
        v.field("children"@) is Table,
        v.field("children"@).entries().len() > node.children.children@.len(),
    ensures
        node.accepts(v) == Err::<(), EngineError>(EngineError::StructuralViolation),
{
}

/// Children accept a snapshot from a place on if each of them from there on accepts its
/// part.
pub proof fn lemma_children_accept(children: Seq<(String, Entity)>, patch: Dynamic, from: int)
    requires
        0 <= from,
        forall|i: int|
            from <= i < children.len() ==> patch.field((#[trigger] children[i]).0@) is Nil
                || children[i].1.accepts(patch.field(children[i].0@)) is Ok,
    ensures
        children_accept(children, patch, from) is Ok,
    decreases children.len() - from,
{
    if from < children.len() {
        assert(patch.field(children[from].0@) is Nil || children[from].1.accepts(
            patch.field(children[from].0@),
        ) is Ok);
        lemma_children_accept(children, patch, from + 1);
    }
}

/// A children snapshot with no more pairs than the base has children, all under names of
/// children, is accepted if every child named accepts its part; the children it does not
/// name stay.
pub proof fn lemma_fewer_children_accepted(node: Node, v: Dynamic)
    requires
        v is Table,
        v.field("children"@) is Table,
        v.field("children"@).entries().len() <= node.children.children@.len(),
        names_known(v.field("children"@).entries(), node.children.children@, 0),
        forall|i: int|
            0 <= i < node.children.children@.len() ==> v.field("children"@).field(
                (#[trigger] node.children.children@[i]).0@,
            ) is Nil || node.children.children@[i].1.accepts(
                v.field("children"@).field(node.children.children@[i].0@),
            ) is Ok,
    ensures
        node.accepts(v) is Ok,
{
    lemma_children_accept(node.children.children@, v.field("children"@), 0);
}

/// Merging keeps every child under its name: the merged base has as many children as
/// before, under the same names.
pub proof fn lemma_merge_keeps_children(node: Node, v: Dynamic, after: Node)
    requires
        node.merged(v, &after),
    ensures
        crate::children_container::same_names(
            node.children.children@,
            after.children.children@,
        ),
{
    assert(children_merged(
        node.children.children@,
        v.field("children"@),
        after.children.children@,
    ));
}

impl Node {
    /// Whether the base has the identity `id`, no children and no scripts.
    pub open spec fn is_fresh(&self, id: int) -> bool {
        &&& self.id == id
        &&& self.children.children@.len() == 0
        &&& self.scripts.pending().len() == 0
        &&& self.scripts.live() is None
    }

    /// A node with the next identity, no children and no scripts.
    pub fn new(ids: &mut IdCounter) -> (node: Node)
        requires
            old(ids).remaining() >= 1,
        ensures
            node.is_fresh(old(ids).nth(0)),
            *final(ids) == old(ids).after(1),
    {
        Node { id: generate_id(ids), children: ChildrenContainer::new(), scripts: ScriptManager::new() }
    }

    /// The scripts attached to the entity, to attach more or to run them.
    pub fn get_scripts(&mut self) -> (scripts: &mut ScriptManager)
        ensures
            *scripts == old(self).scripts,
            *final(self) == (Node { scripts: *final(scripts), ..*old(self) }),
    {
        &mut self.scripts
    }

    /// Runs the top level of every queued script of the entity, see
    /// [`ScriptManager::loadScripts`].
    pub fn load_scripts(&mut self, lua: &mlua::Lua) -> (r: Result<(), EngineError>)
        requires
            old(self).scripts.within(*lua),
        ensures
            final(self).scripts.within(*lua),
            final(self).id == old(self).id,
            final(self).children == old(self).children,
            final(self).scripts.pending() == Seq::<Seq<char>>::empty(),
            old(self).scripts.pending().len() == 0 ==> r is Ok,
            match r {
                Ok(()) => final(self).scripts.live() == Some(old(self).scripts.pending()),
                Err(e) => (e == EngineError::ScriptCompile || e == EngineError::ScriptRuntime)
                    && final(self).scripts.live() == old(self).scripts.live(),
            },
    {
        self.scripts.loadScripts(lua)
    }

    /// Whether `after` is the base after a frame's native update: the same but for its
    /// children, each of which is updated.
    pub open spec fn updated(&self, after: &Node) -> bool
        decreases self, 0nat,
    {
        &&& after.id == self.id
        &&& after.scripts == self.scripts
        &&& children_updated(self.children.children@, after.children.children@)
    }

    /// The native part of a frame: updates every child.
    pub fn update(&mut self, deltatime: Scalar)
        ensures
            old(self).updated(final(self)),
        decreases *old(self),
    {
        let n = self.children.children.len();
        let ghost before = self.children.children;
        let mut i: usize = 0;
        while i < n
            invariant
                i <= n,
                n == before@.len(),
                self.children.children@.len() == n,
                self.id == old(self).id,
                self.scripts == old(self).scripts,
                before == old(self).children.children,
                decreases_to!(*old(self) => before),
                forall|j: int| i <= j < n ==> self.children.children@[j] == before@[j],
                forall|j: int|
                    0 <= j < i ==> {
                        &&& (#[trigger] self.children.children@[j]).0 == before@[j].0
                        &&& before@[j].1.updated(self.children.children@[j].1)
                    },
            decreases n - i,
        {
            proof {
                vstd::std_specs::vec::axiom_vec_index_decreases(before, i as int);
            }
            let child = &mut self.children.children[i];
            child.1.update(deltatime);
            i += 1;
        }
    }

    /// What scripts see of the base: the children by name, and the identity.
    pub open spec fn snapshot(&self) -> Dynamic
        decreases self, 0nat,
    {
        Dynamic::Table(
            seq![
                Dynamic::pair(
                    "children"@,
                    Dynamic::Table(children_snapshot(self.children.children@)),
                ),
                Dynamic::pair("id"@, Dynamic::Function(Intrinsic::Id(self.id))),
            ],
        )
    }

    /// Whether the base can be merged with `v`, and if not, why not.
    ///
    /// `v` must be a table with a table under `children`.  That table may hold no more
    /// pairs than the base has children, and only under names of children; otherwise the
    /// merge is a structural violation.  Then every child named must accept its part.
    pub open spec fn accepts(&self, v: Dynamic) -> Result<(), EngineError>
        decreases self, 0nat,
    {
        let patch = v.field("children"@);
        if !(v is Table) || !(patch is Table) {
            Err(EngineError::Serialization)
        } else if patch.entries().len() > self.children.children@.len() {
            Err(EngineError::StructuralViolation)
        } else if !names_known(patch.entries(), self.children.children@, 0) {
            Err(EngineError::StructuralViolation)
        } else {
            children_accept(self.children.children@, patch, 0)
        }
    }

    /// Whether `after` is the base merged with `v`: the same identity and scripts, and the
    /// children merged with what `v` holds under `children`.
    pub open spec fn merged(&self, v: Dynamic, after: &Node) -> bool
        decreases self, 0nat,
    {
        &&& after.id == self.id
        &&& after.scripts == self.scripts
        &&& children_merged(
            self.children.children@,
            v.field("children"@),
            after.children.children@,
        )
    }

    /// The snapshot of the base.
    pub fn as_lua(&self) -> (v: Variant)
        ensures
            v@ == self.snapshot(),
        decreases self,
    {
        let mut kids: Vec<(Variant, Variant)> = Vec::new();
        let n = self.children.children.len();
        let ghost all = self.children.children@;
        let mut i: usize = 0;
        proof {
            assert(all.take(0) =~= Seq::<(String, Entity)>::empty());
        }
        while i < n
            invariant
                i <= n,
                n == all.len(),
                all == self.children.children@,
                pairs_view(kids@) == children_snapshot(all.take(i as int)),
            decreases n - i,
        {
            proof {
                vstd::std_specs::vec::axiom_vec_index_decreases(self.children.children, i as int);
            }
            let child = &self.children.children[i];
            let ghost before = kids@;
            kids.push((Variant::Str(child.0.clone()), child.1.as_lua()));
            proof {
                lemma_pairs_view(before);
                lemma_pairs_view(kids@);
                let next = all.take(i as int + 1);
                assert(next.drop_last() =~= all.take(i as int));
                assert(next.last() == all[i as int]);
                assert(children_snapshot(next) == children_snapshot(all.take(i as int)).push(
                    Dynamic::pair(all[i as int].0@, all[i as int].1.snapshot()),
                ));
                assert(pairs_view(kids@) =~= children_snapshot(next));
            }
            i += 1;
        }
        proof {
            assert(all.take(n as int) =~= all);
        }
        let mut entries: Vec<(Variant, Variant)> = Vec::new();
        entries.push(Variant::entry("children", Variant::table(kids)));
        entries.push(Variant::entry("id", Variant::Function(Intrinsic::Id(self.id))));
        proof {
            lemma_pairs_view(entries@);
            assert(pairs_view(entries@) =~= self.snapshot().entries());
        }
        Variant::table(entries)
    }

    /// Whether the base can be merged with `value`; nothing is changed.
    pub fn check(&self, value: &Variant) -> (r: Result<(), EngineError>)
        ensures
            r == self.accepts(value@),
        decreases self,
    {
        if !value.is_table() {
            return Err(EngineError::Serialization);
        }
        let patch = match value.field("children") {
            Some(p) => p,
            None => {
                return Err(EngineError::Serialization);
            },
        };
        let incoming = match patch {
            Variant::Table(entries) => entries,
            _ => {
                return Err(EngineError::Serialization);
            },
        };
        proof {
            lemma_pairs_view(incoming@);
        }
        let m = incoming.len();
        if m > self.children.children.len() {
            return Err(EngineError::StructuralViolation);
        }
        let ghost all = self.children.children@;
        let mut j: usize = 0;
        while j < m
            invariant
                j <= m,
                m == incoming@.len(),
                m <= all.len(),
                value@ is Table,
                patch@ is Table,
                patch@ == value@.field("children"@),
                patch@.entries() == pairs_view(incoming@),
                all == self.children.children@,
                names_known(patch@.entries(), all, 0) == names_known(
                    patch@.entries(),
                    all,
                    j as int,
                ),
            decreases m - j,
        {
            proof {
                lemma_pairs_view(incoming@);
            }
            let known = match &incoming[j].0 {
                Variant::Str(name) => self.children.has_child(name.as_str()),
                _ => false,
            };
            if !known {
                return Err(EngineError::StructuralViolation);
            }
            j += 1;
        }
        let n = self.children.children.len();
        let mut i: usize = 0;
        while i < n
            invariant
                i <= n,
                n == all.len(),
                all == self.children.children@,
                value@ is Table,
                patch@ is Table,
                patch@ == value@.field("children"@),
                patch@.entries().len() <= all.len(),
                names_known(patch@.entries(), all, 0),
                children_accept(all, patch@, 0) == children_accept(all, patch@, i as int),
            decreases n - i,
        {
            proof {
                vstd::std_specs::vec::axiom_vec_index_decreases(self.children.children, i as int);
            }
            let child = &self.children.children[i];
            match patch.field(child.0.as_str()) {
                None => {},
                Some(Variant::Nil) => {},
                Some(part) => {
                    match child.1.check(part) {
                        Ok(()) => {},
                        Err(e) => {
                            return Err(e);
                        },
                    }
                },
            }
            i += 1;
        }
        Ok(())
    }

    /// Merges the base with `value`, which it accepts.
    pub fn apply(&mut self, value: &Variant)
        requires
            old(self).accepts(value@) is Ok,
        ensures
            old(self).merged(value@, final(self)),
        decreases *old(self),
    {
        let patch = match value.field("children") {
            Some(p) => p,
            None => {
                return ;
            },
        };
        let n = self.children.children.len();
        let ghost before = self.children.children;
        let mut i: usize = 0;
        while i < n
            invariant
                i <= n,
                n == before@.len(),
                self.children.children@.len() == n,
                self.id == old(self).id,
                self.scripts == old(self).scripts,
                before == old(self).children.children,
                patch@ == value@.field("children"@),
                decreases_to!(*old(self) => before),
                children_accept(before@, patch@, i as int) is Ok,
                forall|j: int| i <= j < n ==> self.children.children@[j] == before@[j],
                forall|j: int|
                    0 <= j < i ==> {
                        &&& (#[trigger] self.children.children@[j]).0 == before@[j].0
                        &&& if patch@.field(before@[j].0@) is Nil {
                            self.children.children@[j].1 == before@[j].1
                        } else {
                            before@[j].1.merged(
                                patch@.field(before@[j].0@),
                                self.children.children@[j].1,
                            )
                        }
                    },
            decreases n - i,
        {
            proof {
                vstd::std_specs::vec::axiom_vec_index_decreases(before, i as int);
            }
            let child = &mut self.children.children[i];
            match patch.field(child.0.as_str()) {
                None => {},
                Some(Variant::Nil) => {},
                Some(part) => {
                    child.1.apply(part);
                },
            }
            i += 1;
        }
    }

    /// Merges the base with `value`, or leaves it as it is where it does not accept
    /// `value`.
    pub fn from_lua(&mut self, value: &Variant) -> (r: Result<(), EngineError>)
        ensures
            r == old(self).accepts(value@),
            r is Ok ==> old(self).merged(value@, final(self)),
            r is Err ==> *final(self) == *old(self),
    {
        let checked = self.check(value);
        if checked.is_ok() {
            self.apply(value);
        }
        checked
    }
}

} // verus!
