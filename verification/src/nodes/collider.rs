//! A rectangle that can be asked what it overlaps.

use vstd::prelude::*;
use crate::error::EngineError;
use crate::kind::Kind;
use crate::nodelike::IdCounter;
use crate::nodes::node::Node;
use crate::variant::both;
use crate::variant::decodes;
use crate::variant::lemma_pairs_view;
use crate::variant::pairs_view;
use crate::variant::present;
use crate::variant::Dynamic;
use crate::variant::Intrinsic;
use crate::variant::Variant;
use vstd::string::StringExecFns;
use crate::scalar::Scalar;
use crate::text::same_text;
use crate::scalar::ONE_BITS;
use crate::transform::Transform;
use crate::vec2::Vec2;

verus! {

/// What the registry knows of one collider.
pub struct ColliderRecord {
    pub id: u64,
    pub layer: String,
    pub transform: Transform,
}

/// The model of a record.
pub struct RecordView {
    pub id: u64,
    pub layer: Seq<char>,
    pub transform: Transform,
}

impl View for ColliderRecord {
    type V = RecordView;

    open spec fn view(&self) -> RecordView {
        RecordView { id: self.id, layer: self.layer@, transform: self.transform }
    }
}

/// The colliders that overlap queries are answered from, at most one record for an
/// identity.
pub struct ColliderRegistry {
    pub records: Vec<ColliderRecord>,
}

/// Whether a query by the collider `id` on `layer` looks at `record`: another collider on
/// the same layer.
pub open spec fn candidate(record: RecordView, id: u64, layer: Seq<char>) -> bool {
    record.id != id && record.layer == layer
}

/// The first place at or after `from` where `records` has the identity `id`, or the
/// length of `records`.
pub open spec fn record_place(records: Seq<RecordView>, id: u64, from: int) -> int
    decreases records.len() - from,
{
    if from < 0 || from >= records.len() {
        records.len() as int
    } else if records[from].id == id {
        from
    } else {
        record_place(records, id, from + 1)
    }
}

/// `records` with `record` in the place of the record of the same identity, or at the end
/// where there is none.
pub open spec fn with_record(records: Seq<RecordView>, record: RecordView) -> Seq<RecordView> {
    let i = record_place(records, record.id, 0);
    if i < records.len() {
        records.update(i, record)
    } else {
        records.push(record)
    }
}

/// No identity has two records.
pub open spec fn distinct_records(records: Seq<RecordView>) -> bool {
    forall|i: int, j: int|
        0 <= i < j < records.len() ==> (#[trigger] records[i]).id != (#[trigger] records[j]).id
}

/// Whether some candidate of the query among `records` overlaps `transform`.
pub open spec fn any_overlap(
    records: Seq<RecordView>,
    id: u64,
    layer: Seq<char>,
    transform: Transform,
) -> bool {
    exists|i: int|
        0 <= i < records.len() && candidate(#[trigger] records[i], id, layer)
            && transform.overlaps(records[i].transform)
}

/// Whether every candidate of the query among `records` overlaps `transform`.
pub open spec fn all_overlap(
    records: Seq<RecordView>,
    id: u64,
    layer: Seq<char>,
    transform: Transform,
) -> bool {
    forall|i: int|
        0 <= i < records.len() && candidate(#[trigger] records[i], id, layer)
            ==> transform.overlaps(records[i].transform)
}

/// Recording keeps identities apart.
pub proof fn lemma_with_record_distinct(records: Seq<RecordView>, record: RecordView)
    requires
        distinct_records(records),
    ensures
        distinct_records(with_record(records, record)),
{
    lemma_record_place(records, record.id, 0);
}

/// A place found by [`record_place`] has the identity and no place before it from
/// `from` on has it.
pub proof fn lemma_record_place(records: Seq<RecordView>, id: u64, from: int)
    requires
        0 <= from <= records.len(),
    ensures
        from <= record_place(records, id, from) <= records.len(),
        record_place(records, id, from) < records.len() ==> records[record_place(
            records,
            id,
            from,
        )].id == id,
        forall|j: int| from <= j < record_place(records, id, from) ==> (#[trigger] records[j]).id != id,
    decreases records.len() - from,
{
    if from < records.len() && records[from].id != id {
        lemma_record_place(records, id, from + 1);
    }
}

impl View for ColliderRegistry {
    type V = Seq<RecordView>;

    open spec fn view(&self) -> Seq<RecordView> {
        Seq::new(self.records@.len(), |i: int| self.records@[i]@)
    }
}

impl ColliderRegistry {
    /// No identity has two records.
    pub open spec fn wf(&self) -> bool {
        distinct_records(self@)
    }

    /// A registry that knows no collider.
    pub fn new() -> (registry: ColliderRegistry)
        ensures
            registry@ == Seq::<RecordView>::empty(),
            registry.wf(),
    {
        let registry = ColliderRegistry { records: Vec::new() };
        assert(registry@ =~= Seq::<RecordView>::empty());
        registry
    }

    /// Forgets every collider.
    pub fn clear(&mut self)
        ensures
            final(self)@ == Seq::<RecordView>::empty(),
            final(self).wf(),
    {
        self.records.clear();
        assert(self@ =~= Seq::<RecordView>::empty());
    }

    /// Records where the collider `id` lies and on which layer, in place of what was known
    /// of it.
    pub fn record(&mut self, id: u64, layer: &str, transform: Transform)
        ensures
            final(self)@ == with_record(old(self)@, RecordView { id, layer: layer@, transform }),
            old(self).wf() ==> final(self).wf(),
    {
        let n = self.records.len();
        let mut i: usize = 0;
        while i < n && self.records[i].id != id
            invariant
                i <= n,
                n == self.records@.len(),
                *self == *old(self),
                record_place(self@, id, 0) == record_place(self@, id, i as int),
            decreases n - i,
        {
            i += 1;
        }
        let record = ColliderRecord { id, layer: String::from_str(layer), transform };
        if i < n {
            self.records[i] = record;
        } else {
            self.records.push(record);
        }
        proof {
            assert(self@ =~= with_record(old(self)@, RecordView { id, layer: layer@, transform }));
            if old(self).wf() {
                lemma_with_record_distinct(old(self)@, RecordView { id, layer: layer@, transform });
            }
        }
    }

    /// What the `collides` intrinsic answers for the collider `id` as `this` describes it:
    /// see [`ColliderRegistry::collides`] for the layer under `layer` and the transform
    /// under `transform`; a serialization error where `this` lacks one of them.
    pub fn answer(&self, id: u64, this: &Variant, force_all: Option<bool>) -> (r: Result<
        bool,
        EngineError,
    >)
        ensures
            r == match (
                Transform::decoded(this@.field("transform"@)),
                this@.field("layer"@).as_text(),
            ) {
                (Ok(transform), Some(layer)) => Ok::<bool, EngineError>(
                    if force_all == Some(true) {
                        all_overlap(self@, id, layer, transform)
                    } else {
                        any_overlap(self@, id, layer, transform)
                    },
                ),
                _ => Err::<bool, EngineError>(EngineError::Serialization),
            },
    {
        match (Transform::decode(this.part("transform")), this.text_at("layer")) {
            (Ok(transform), Some(layer)) => Ok(self.collides(id, layer, &transform, force_all)),
            _ => Err(EngineError::Serialization),
        }
    }

    /// Whether the collider `id` on `layer`, lying at `transform`, overlaps the other
    /// colliders of its layer: all of them where `force_all` is `Some(true)`, at least one
    /// of them otherwise.
    pub fn collides(&self, id: u64, layer: &str, transform: &Transform, force_all: Option<bool>) -> (b:
        bool)
        ensures
            b == if force_all == Some(true) {
                all_overlap(self@, id, layer@, *transform)
            } else {
                any_overlap(self@, id, layer@, *transform)
            },
    {
        let all = match force_all {
            Some(f) => f,
            None => false,
        };
        let n = self.records.len();
        let mut i: usize = 0;
        while i < n
            invariant
                i <= n,
                n == self.records@.len(),
                all == (force_all == Some(true)),
                forall|j: int|
                    0 <= j < i && candidate(#[trigger] self@[j], id, layer@) ==> (
                    transform.overlaps(self@[j].transform) == all),
            decreases n - i,
        {
            let record = &self.records[i];
            if record.id != id && same_text(record.layer.as_str(), layer) {
                if transform.instersects(&record.transform) != all {
                    assert(candidate(self@[i as int], id, layer@));
                    return !all;
                }
            }
            i += 1;
        }
        all
    }
}

/// A rectangle on a named layer.
pub struct Collider {
    pub base: Node,
    pub transform: Transform,
    pub layer: String,
}

impl Collider {
    /// A collider at `pos` of extent `size` on `layer`.
    pub fn new(pos: Vec2, size: Vec2, layer: String, ids: &mut IdCounter) -> (collider: Collider)
        requires
            old(ids).remaining() >= 1,
        ensures
            collider.base.is_fresh(old(ids).nth(0)),
            *final(ids) == old(ids).after(1),
            collider.transform == (Transform { pos, size, scale: Scalar { bits: ONE_BITS } }),
            collider.layer == layer,
    {
        Collider { base: Node::new(ids), transform: Transform::new(pos, size), layer }
    }

    /// A collider of no extent on the layer with the empty name.
    pub fn empty(ids: &mut IdCounter) -> (collider: Collider)
        requires
            old(ids).remaining() >= 1,
        ensures
            collider.base.is_fresh(old(ids).nth(0)),
            *final(ids) == old(ids).after(1),
            collider.transform == (Transform {
                pos: Vec2 { x: 0, y: 0 },
                size: Vec2 { x: 0, y: 0 },
                scale: Scalar { bits: ONE_BITS },
            }),
            collider.layer@ == Seq::<char>::empty(),
    {
        Collider {
            base: Node::new(ids),
            transform: Transform::new(Vec2::zero(), Vec2::zero()),
            layer: String::new(),
        }
    }

    /// What a registry records of the collider.
    pub open spec fn record_view(&self) -> RecordView {
        RecordView { id: self.base.id, layer: self.layer@, transform: self.transform }
    }

    /// Makes the collider known to `registry` as it lies now.
    pub fn register(&self, registry: &mut ColliderRegistry)
        ensures
            final(registry)@ == with_record(old(registry)@, self.record_view()),
            old(registry).wf() ==> final(registry).wf(),
    {
        registry.record(self.base.id, self.layer.as_str(), self.transform);
    }

    /// Whether the collider overlaps the others of its layer that `registry` knows: all of
    /// them where `force_all` is `Some(true)`, at least one of them otherwise.
    pub fn collides(&self, registry: &ColliderRegistry, force_all: Option<bool>) -> (b: bool)
        ensures
            b == if force_all == Some(true) {
                all_overlap(registry@, self.base.id, self.layer@, self.transform)
            } else {
                any_overlap(registry@, self.base.id, self.layer@, self.transform)
            },
    {
        registry.collides(self.base.id, self.layer.as_str(), &self.transform, force_all)
    }

    /// The name of the entity's kind.
    pub fn get_kind(&self) -> (name: &'static str)
        ensures
            name@ == Kind::Collider.name_spec(),
    {
        Kind::Collider.name()
    }

    /// Whether `after` is the collider after a frame's native update.
    pub open spec fn updated(&self, after: &Collider) -> bool
        decreases self, 0nat,
    {
        &&& self.base.updated(&after.base)
        &&& *after == (Collider { base: after.base, ..*self })
    }

    /// The native part of a frame.
    pub fn update(&mut self, deltatime: Scalar)
        ensures
            old(self).updated(final(self)),
        decreases *old(self),
    {
        self.base.update(deltatime);
    }

    /// Runs the top level of every queued script of the collider, see
    /// [`Node::load_scripts`].
    pub fn load_scripts(&mut self, lua: &mlua::Lua) -> (r: Result<(), EngineError>)
        requires
            old(self).base.scripts.within(*lua),
        ensures
            final(self).base.scripts.within(*lua),
            *final(self) == (Collider { base: final(self).base, ..*old(self) }),
            final(self).base.id == old(self).base.id,
            final(self).base.children == old(self).base.children,
            final(self).base.scripts.pending() == Seq::<Seq<char>>::empty(),
            old(self).base.scripts.pending().len() == 0 ==> r is Ok,
            match r {
                Ok(()) => final(self).base.scripts.live() == Some(
                    old(self).base.scripts.pending(),
                ),
                Err(e) => (e == EngineError::ScriptCompile || e == EngineError::ScriptRuntime)
                    && final(self).base.scripts.live() == old(self).base.scripts.live(),
            },
    {
        self.base.load_scripts(lua)
    }

    /// What scripts see of the collider.
    pub open spec fn snapshot(&self) -> Dynamic
        decreases self, 0nat,
    {
        Dynamic::Table(
            seq![
                Dynamic::pair("base"@, self.base.snapshot()),
                Dynamic::pair("transform"@, self.transform.snapshot()),
                Dynamic::pair("layer"@, Dynamic::Str(self.layer@)),
                Dynamic::pair("collides"@, Dynamic::Function(Intrinsic::Collides)),
                Dynamic::pair("kind"@, Dynamic::Function(Intrinsic::Kind(Kind::Collider))),
            ],
        )
    }

    /// Whether the collider can be merged with `v`, and if not, why not: the first of what
    /// its base, its transform and its layer object to.
    pub open spec fn accepts(&self, v: Dynamic) -> Result<(), EngineError>
        decreases self, 0nat,
    {
        if !(v is Table) {
            Err(EngineError::Serialization)
        } else {
            both(
                self.base.accepts(v.field("base"@)),
                both(
                    decodes(Transform::decoded(v.field("transform"@))),
                    present(v.field("layer"@).as_text()),
                ),
            )
        }
    }

    /// Whether `after` is the collider merged with `v`.
    pub open spec fn merged(&self, v: Dynamic, after: &Collider) -> bool
        decreases self, 0nat,
    {
        &&& self.base.merged(v.field("base"@), &after.base)
        &&& Transform::decoded(v.field("transform"@)) == Ok::<Transform, EngineError>(
            after.transform,
        )
        &&& v.field("layer"@).as_text() == Some(after.layer@)
    }

    /// The snapshot of the collider.
    pub fn as_lua(&self) -> (v: Variant)
        ensures
            v@ == self.snapshot(),
        decreases self,
    {
        let mut entries: Vec<(Variant, Variant)> = Vec::new();
        entries.push(Variant::entry("base", self.base.as_lua()));
        entries.push(Variant::entry("transform", self.transform.as_lua()));
        entries.push(Variant::entry("layer", Variant::text(self.layer.as_str())));
        entries.push(Variant::entry("collides", Variant::Function(Intrinsic::Collides)));
        entries.push(Variant::entry("kind", Variant::Function(Intrinsic::Kind(Kind::Collider))));
        proof {
            lemma_pairs_view(entries@);
            assert(pairs_view(entries@) =~= self.snapshot().entries());
        }
        Variant::table(entries)
    }

    /// Whether the collider can be merged with `value`; nothing is changed.
    pub fn check(&self, value: &Variant) -> (r: Result<(), EngineError>)
        ensures
            r == self.accepts(value@),
        decreases self,
    {
        if !value.is_table() {
            return Err(EngineError::Serialization);
        }
        match self.base.check(value.part("base")) {
            Ok(()) => {},
            Err(e) => {
                return Err(e);
            },
        }
        match Transform::decode(value.part("transform")) {
            Ok(_) => {},
            Err(e) => {
                return Err(e);
            },
        }
        match value.text_at("layer") {
            Some(_) => Ok(()),
            None => Err(EngineError::Serialization),
        }
    }

    /// Merges the collider with `value`, which it accepts.
    pub fn apply(&mut self, value: &Variant)
        requires
            old(self).accepts(value@) is Ok,
        ensures
            old(self).merged(value@, final(self)),
        decreases *old(self),
    {
        self.base.apply(value.part("base"));
        let _ = self.transform.from_lua(value.part("transform"));
        match value.text_at("layer") {
            Some(layer) => {
                self.layer = String::from_str(layer);
            },
            None => {},
        }
    }

    /// Merges the collider with `value`, or leaves it as it is where it does not accept
    /// `value`.
    pub fn from_lua(&mut self, value: &Variant) -> (r: Result<(), EngineError>)
        ensures
            r == old(self).accepts(value@),
            r is Ok ==> old(self).merged(value@, final(self)),
            r is Err ==> *final(self) == *old(self),
    {
        let checked = self.check(value);
        if checked.is_ok() {
            self.apply(value);
        }
        checked
    }
}

} // verus!
