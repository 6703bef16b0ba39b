//! The children of an entity, by name.

use vstd::prelude::*;
use crate::entity::Downcastable;
use crate::entity::Entity;
use crate::text::same_text;

verus! {

/// Entities under names.  No name occurs twice; the order of the entries carries no
/// meaning.
///
/// The entries are open to the engine and to the host, which walk them.  Filled
/// through the operations below they are well formed, see [`ChildrenContainer::wf`];
/// what is written to them in any other way has to keep the names apart itself, and
/// what relies on that takes `wf()` as a condition.
pub struct ChildrenContainer {
    pub children: Vec<(String, Entity)>,
}

/// The first place at or after `from` where `entries` has the name `key`, or the length
/// of `entries` where it has none.
pub open spec fn place(entries: Seq<(String, Entity)>, key: Seq<char>, from: int) -> int
    decreases entries.len() - from,
{
    if from < 0 || from >= entries.len() {
        entries.len() as int
    } else if entries[from].0@ == key {
        from
    } else {
        place(entries, key, from + 1)
    }
}

/// What `entries` holds under `key`.
pub open spec fn held(entries: Seq<(String, Entity)>, key: Seq<char>) -> Option<Entity> {
    let i = place(entries, key, 0);
    if i < entries.len() {
        Some(entries[i].1)
    } else {
        None
    }
}

/// No name occurs twice in `entries`.
pub open spec fn distinct(entries: Seq<(String, Entity)>) -> bool {
    forall|i: int, j: int|
        0 <= i < j < entries.len() ==> (#[trigger] entries[i]).0@ != (#[trigger] entries[j]).0@
}

/// `entries` with `child` under `key`: in the place of what was there, or at the end.
pub open spec fn with_child(entries: Seq<(String, Entity)>, key: String, child: Entity) -> Seq<
    (String, Entity),
> {
    let i = place(entries, key@, 0);
    if i < entries.len() {
        entries.update(i, (entries[i].0, child))
    } else {
        entries.push((key, child))
    }
}

/// `entries` without what it holds under `key`.
pub open spec fn without_child(entries: Seq<(String, Entity)>, key: Seq<char>) -> Seq<
    (String, Entity),
> {
    let i = place(entries, key, 0);
    if i < entries.len() {
        entries.remove(i)
    } else {
        entries
    }
}

/// A place found by [`place`] is a place of `entries` that has the name, and no place
/// before it from `from` on has it.
pub proof fn lemma_place(entries: Seq<(String, Entity)>, key: Seq<char>, from: int)
    requires
        0 <= from <= entries.len(),
    ensures
        from <= place(entries, key, from) <= entries.len(),
        place(entries, key, from) < entries.len() ==> entries[place(entries, key, from)].0@
            == key,
        forall|j: int| from <= j < place(entries, key, from) ==> (#[trigger] entries[j]).0@ != key,
    decreases entries.len() - from,
{
    if from < entries.len() && entries[from].0@ != key {
        lemma_place(entries, key, from + 1);
    }
}

/// The place of a name is the one place that has it and has no such place before it.
pub proof fn lemma_place_is(entries: Seq<(String, Entity)>, key: Seq<char>, i: int)
    requires
        0 <= i <= entries.len(),
        i < entries.len() ==> entries[i].0@ == key,
        forall|j: int| 0 <= j < i ==> (#[trigger] entries[j]).0@ != key,
    ensures
        place(entries, key, 0) == i,
{
    lemma_place(entries, key, 0);
}

/// Whether `after` has the names of `before` in the same places.
pub open spec fn same_names(before: Seq<(String, Entity)>, after: Seq<(String, Entity)>) -> bool {
    &&& after.len() == before.len()
    &&& forall|i: int| 0 <= i < before.len() ==> (#[trigger] after[i]).0 == before[i].0
}

/// Collections with the same names in the same places have every name in the same place.
pub proof fn lemma_same_names(
    before: Seq<(String, Entity)>,
    after: Seq<(String, Entity)>,
    key: Seq<char>,
)
    requires
        same_names(before, after),
    ensures
        place(after, key, 0) == place(before, key, 0),
{
    lemma_place(before, key, 0);
    lemma_place_is(after, key, place(before, key, 0));
}

/// Collections with the same names in the same places keep names apart alike.
pub proof fn lemma_same_names_distinct(before: Seq<(String, Entity)>, after: Seq<(String, Entity)>)
    requires
        same_names(before, after),
        distinct(before),
    ensures
        distinct(after),
{
}

impl ChildrenContainer {
    /// No name occurs twice.
    pub open spec fn wf(&self) -> bool {
        distinct(self.children@)
    }

    /// What the collection holds under `key`.
    pub open spec fn find(&self, key: Seq<char>) -> Option<Entity> {
        held(self.children@, key)
    }

    /// An empty collection.
    pub fn new() -> (c: ChildrenContainer)
        ensures
            c.children@ == Seq::<(String, Entity)>::empty(),
            c.wf(),
    {
        ChildrenContainer { children: Vec::new() }
    }

    /// How many entities the collection holds.
    pub fn len(&self) -> (n: usize)
        ensures
            n == self.children@.len(),
    {
        self.children.len()
    }

    /// The place of `id` among the entries, or their number where `id` is not among them.
    pub fn index_of(&self, id: &str) -> (i: usize)
        ensures
            i == place(self.children@, id@, 0),
            i <= self.children@.len(),
    {
        let n = self.children.len();
        let mut i: usize = 0;
        while i < n
            invariant
                i <= n,
                n == self.children@.len(),
                place(self.children@, id@, 0) == place(self.children@, id@, i as int),
            decreases n - i,
        {
            if same_text(self.children[i].0.as_str(), id) {
                return i;
            }
            i += 1;
        }
        n
    }

    /// Whether something is held under `id`.
    pub fn has_child(&self, id: &str) -> (b: bool)
        ensures
            b == (self.find(id@) is Some),
    {
        self.index_of(id) < self.children.len()
    }

    /// Puts `child` under `id`, in the place of what was there.
    pub fn add_child(&mut self, id: String, child: Entity)
        ensures
            final(self).children@ == with_child(old(self).children@, id, child),
            old(self).wf() ==> final(self).wf(),
    {
        let i = self.index_of(id.as_str());
        proof {
            lemma_place(self.children@, id@, 0);
        }
        if i < self.children.len() {
            let slot = &mut self.children[i];
            slot.1 = child;
            assert(self.children@ =~= with_child(old(self).children@, id, child));
        } else {
            self.children.push((id, child));
        }
    }

    /// Empties the collection.
    pub fn clear_children(&mut self)
        ensures
            final(self).children@ == Seq::<(String, Entity)>::empty(),
            final(self).wf(),
    {
        self.children.clear();
    }

    /// What is under `id`, as the kind `C`, to be changed; `None` where nothing is there
    /// or what is there is of another kind.
    pub fn get_child<C: Downcastable>(&mut self, id: &str) -> (r: Option<&mut C>)
        ensures
            match r {
                Some(c) => {
                    let i = place(old(self).children@, id@, 0);
                    &&& i < old(self).children@.len()
                    &&& C::holds(old(self).children@[i].1)
                    &&& *c == C::held_by(old(self).children@[i].1)
                    &&& final(self).children@ =~= old(self).children@.update(
                        i,
                        (old(self).children@[i].0, C::entity_of(*final(c))),
                    )
                },
                None => {
                    &&& final(self).children@ =~= old(self).children@
                    &&& match old(self).find(id@) {
                        Some(e) => !C::holds(e),
                        None => true,
                    }
                },
            },
    {
        let i = self.index_of(id);
        if i < self.children.len() {
            let slot = &mut self.children[i];
            C::downcast_mut(&mut slot.1)
        } else {
            None
        }
    }

    /// What is under `id`, whatever its kind.
    pub fn child(&self, id: &str) -> (r: Option<&Entity>)
        ensures
            match r {
                Some(e) => self.find(id@) == Some(*e),
                None => self.find(id@) is None,
            },
    {
        let i = self.index_of(id);
        if i < self.children.len() {
            Some(&self.children[i].1)
        } else {
            None
        }
    }

    /// Hands every entity with its name to `func` and keeps what `func` gives back under
    /// the same name.
    ///
    /// While `func` runs, the entities are detached from the collection: what `func` is
    /// handed is the entity itself, and the collection does not change before every entity
    /// has been handed over and taken back.
    pub fn foreach_child<F: Fn(&String, Entity) -> Entity>(&mut self, func: F)
        requires
            forall|i: int|
                0 <= i < old(self).children@.len() ==> call_requires(
                    func,
                    (&(#[trigger] old(self).children@[i]).0, old(self).children@[i].1),
                ),
        ensures
            final(self).children@.len() == old(self).children@.len(),
            forall|i: int|
                0 <= i < old(self).children@.len() ==> {
                    &&& (#[trigger] final(self).children@[i]).0 == old(self).children@[i].0
                    &&& call_ensures(
                        func,
                        (&old(self).children@[i].0, old(self).children@[i].1),
                        final(self).children@[i].1,
                    )
                },
    {
        let mut detached: Vec<(String, Entity)> = Vec::new();
        core::mem::swap(&mut detached, &mut self.children);
        let ghost before = detached@;
        let n = detached.len();
        let mut done: Vec<(String, Entity)> = Vec::new();
        while detached.len() > 0
            invariant
                before == old(self).children@,
                n == before.len(),
                detached@.len() + done@.len() == n,
                detached@ == before.take(detached@.len() as int),
                self.children@.len() == 0,
                forall|i: int|
                    0 <= i < n ==> call_requires(func, (&(#[trigger] before[i]).0, before[i].1)),
                forall|j: int|
                    0 <= j < done@.len() ==> {
                        &&& (#[trigger] done@[j]).0 == before[n - 1 - j].0
                        &&& call_ensures(
                            func,
                            (&before[n - 1 - j].0, before[n - 1 - j].1),
                            done@[j].1,
                        )
                    },
            decreases detached.len(),
        {
            match detached.pop() {
                Some((name, child)) => {
                    let ghost at = detached@.len() as int;
                    assert(before[at] == (name, child));
                    let after = func(&name, child);
                    done.push((name, after));
                    assert(detached@ =~= before.take(at));
                },
                None => {},
            }
        }
        while done.len() > 0
            invariant
                n == before.len(),
                self.children@.len() + done@.len() == n,
                forall|j: int|
                    0 <= j < done@.len() ==> {
                        &&& (#[trigger] done@[j]).0 == before[n - 1 - j].0
                        &&& call_ensures(
                            func,
                            (&before[n - 1 - j].0, before[n - 1 - j].1),
                            done@[j].1,
                        )
                    },
                forall|i: int|
                    0 <= i < self.children@.len() ==> {
                        &&& (#[trigger] self.children@[i]).0 == before[i].0
                        &&& call_ensures(func, (&before[i].0, before[i].1), self.children@[i].1)
                    },
            decreases done.len(),
        {
            match done.pop() {
                Some(entry) => {
                    self.children.push(entry);
                },
                None => {},
            }
        }
    }

    /// Takes away what is under `id`; nothing happens where nothing is there.
    pub fn remove_child(&mut self, id: &str)
        ensures
            final(self).children@ == without_child(old(self).children@, id@),
            old(self).wf() ==> final(self).wf(),
    {
        let i = self.index_of(id);
        proof {
            lemma_place(self.children@, id@, 0);
        }
        if i < self.children.len() {
            let _ = self.children.remove(i);
        }
    }
}

/// After a child is put under a name, the name holds that child, whatever it held before.
pub proof fn lemma_add_then_get(entries: Seq<(String, Entity)>, key: String, child: Entity)
    ensures
        held(with_child(entries, key, child), key@) == Some(child),
{
    lemma_place(entries, key@, 0);
    let i = place(entries, key@, 0);
    lemma_place_is(with_child(entries, key, child), key@, i);
}

/// Putting a second child under a name leaves only the second.
pub proof fn lemma_add_twice(
    entries: Seq<(String, Entity)>,
    key: String,
    first: Entity,
    second: Entity,
)
    ensures
        held(with_child(with_child(entries, key, first), key, second), key@) == Some(second),
{
    lemma_add_then_get(with_child(entries, key, first), key, second);
}

/// Putting a child under a name changes nothing under any other name.
pub proof fn lemma_add_keeps_others(
    entries: Seq<(String, Entity)>,
    key: String,
    child: Entity,
    other: Seq<char>,
)
    requires
        other != key@,
    ensures
        held(with_child(entries, key, child), other) == held(entries, other),
{
    lemma_place(entries, key@, 0);
    lemma_place(entries, other, 0);
    let j = place(entries, other, 0);
    lemma_place_is(with_child(entries, key, child), other, if j < entries.len() {
        j
    } else {
        with_child(entries, key, child).len() as int
    });
}

/// After a name is removed it holds nothing.
pub proof fn lemma_remove_then_get(entries: Seq<(String, Entity)>, key: Seq<char>)
    requires
        distinct(entries),
    ensures
        held(without_child(entries, key), key) is None,
{
    lemma_place(entries, key, 0);
    let i = place(entries, key, 0);
    let rest = without_child(entries, key);
    if i < entries.len() {
        assert forall|j: int| 0 <= j < rest.len() implies (#[trigger] rest[j]).0@ != key by {
            if j < i {
                assert(rest[j] == entries[j]);
            } else {
                assert(rest[j] == entries[j + 1]);
                assert(entries[i].0@ != entries[j + 1].0@);
            }
        }
    }
    lemma_place_is(rest, key, rest.len() as int);
}

/// Removing a name that holds nothing changes nothing.
pub proof fn lemma_remove_absent(entries: Seq<(String, Entity)>, key: Seq<char>)
    requires
        held(entries, key) is None,
    ensures
        without_child(entries, key) == entries,
{
}

} // verus!
