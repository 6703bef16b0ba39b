//! The dynamic values that scripts see.
//!
//! [`Variant`] is what crosses between the native side and a script: nothing, a
//! boolean, an integer, a number, a text, a table of key and value pairs, or a
//! function.  [`Dynamic`] is its mathematical model, in which texts are
//! sequences of characters and tables are sequences of pairs; every contract
//! of the bridge is stated over it.

use vstd::prelude::*;
use vstd::string::StringExecFns;
use crate::error::EngineError;
use crate::kind::Kind;
use crate::scalar::Scalar;
use crate::text::same_text;
use crate::transform::Transform;

verus! {

/// A function that the bridge itself puts into a snapshot, or one that a script defined.
#[derive(Debug, Clone, Copy, PartialEq, Eq, Structural)]
pub enum Intrinsic {
    /// The dot product of two vector tables.
    Dot,
    /// Returns the identity of the entity the snapshot was taken of.
    Id(u64),
    /// Returns the name of the entity's kind.
    Kind(Kind),
    /// Asks the collision registry whether the collider overlaps others of its layer.
    Collides,
    /// Whether the given mouse button was pressed inside the area, as it lay when the
    /// snapshot was taken.
    Clicked(Transform),
    /// Plays the sound of a sound player.
    Play,
    /// Measures the text of a text entity.
    Dimensions,
    /// A function that a script defined; the core knows nothing of it.
    Script,
}

/// A script value that the core only carries and names.
#[derive(Debug, Clone, Copy, PartialEq, Eq, Structural)]
pub enum Foreign {
    LightUserData,
    UserData,
    Thread,
    Other,
}

/// A dynamic value.
#[derive(Debug, PartialEq)]
pub enum Variant {
    Nil,
    Boolean(bool),
    Integer(i64),
    Number(Scalar),
    Str(String),
    /// Key and value pairs in the order they were written.  Where a key occurs twice the
    /// first pair counts.
    Table(Vec<(Variant, Variant)>),
    Function(Intrinsic),
    /// An error value, with its message.
    Error(String),
    Foreign(Foreign),
}

/// The model of a dynamic value.
pub enum Dynamic {
    Nil,
    Boolean(bool),
    Integer(i64),
    Number(Scalar),
    Str(Seq<char>),
    Table(Seq<(Dynamic, Dynamic)>),
    Function(Intrinsic),
    Error(Seq<char>),
    Foreign(Foreign),
}

/// The first of two failures, or success where there is none.
pub open spec fn both(first: Result<(), EngineError>, second: Result<(), EngineError>) -> Result<
    (),
    EngineError,
> {
    match first {
        Err(e) => Err(e),
        Ok(()) => second,
    }
}

/// Whether something was decoded, and if not, why not.
pub open spec fn decodes<T>(r: Result<T, EngineError>) -> Result<(), EngineError> {
    match r {
        Ok(_) => Ok(()),
        Err(e) => Err(e),
    }
}

/// Success where `o` holds something, a serialization error where it holds nothing.
pub open spec fn present<T>(o: Option<T>) -> Result<(), EngineError> {
    match o {
        Some(_) => Ok(()),
        None => Err(EngineError::Serialization),
    }
}

/// `Ok` of what `o` holds, or a serialization error where it holds nothing.
pub open spec fn required<T>(o: Option<T>) -> Result<T, EngineError> {
    match o {
        Some(v) => Ok(v),
        None => Err(EngineError::Serialization),
    }
}

impl Dynamic {
    /// The pairs of a table; none for any other value.
    pub open spec fn entries(self) -> Seq<(Dynamic, Dynamic)> {
        match self {
            Dynamic::Table(e) => e,
            _ => Seq::empty(),
        }
    }

    /// The value of the first pair at or after `from` whose key is the text `key`, or `Nil`.
    pub open spec fn find(entries: Seq<(Dynamic, Dynamic)>, key: Seq<char>, from: int) -> Dynamic
        decreases entries.len() - from,
    {
        if from < 0 || from >= entries.len() {
            Dynamic::Nil
        } else if entries[from].0 == Dynamic::Str(key) {
            entries[from].1
        } else {
            Self::find(entries, key, from + 1)
        }
    }

    /// What a table holds under the text `key`; `Nil` where it holds nothing there, and for
    /// a value that is no table.
    pub open spec fn field(self, key: Seq<char>) -> Dynamic {
        Self::find(self.entries(), key, 0)
    }

    /// The integer that the value is: an integer, or a number without a fractional part
    /// that an `i64` holds.  The rule is strict: a number with a fractional part is no
    /// integer, it is not cut, and a text of digits is none either.
    pub open spec fn as_integer(self) -> Option<i64> {
        match self {
            Dynamic::Integer(i) => Some(i),
            Dynamic::Number(n) => n.integer(),
            _ => None,
        }
    }

    /// The number that the value is: a number, or an integer that is a number exactly.
    /// A text is no number, whatever it spells.
    pub open spec fn as_number(self) -> Option<Scalar> {
        match self {
            Dynamic::Number(n) => Some(n),
            Dynamic::Integer(i) => Scalar::of_integer(i as int),
            _ => None,
        }
    }

    /// The boolean that the value is.  Only a boolean is one: nothing else counts as true
    /// or as false.
    pub open spec fn as_boolean(self) -> Option<bool> {
        match self {
            Dynamic::Boolean(b) => Some(b),
            _ => None,
        }
    }

    /// Whether the value counts as true where the runtime asks for a condition: anything
    /// but nothing and `false`.
    pub open spec fn truthy(self) -> bool {
        match self {
            Dynamic::Nil => false,
            Dynamic::Boolean(b) => b,
            _ => true,
        }
    }

    /// The text that the value is.
    pub open spec fn as_text(self) -> Option<Seq<char>> {
        match self {
            Dynamic::Str(s) => Some(s),
            _ => None,
        }
    }

    /// How deep tables are nested in the value: 0 for what is no table, and for a table
    /// one more than the deepest nesting among its keys and values.
    pub open spec fn nesting(self) -> nat
        decreases self, 1nat,
    {
        match self {
            Dynamic::Table(entries) => 1 + deepest(entries),
            _ => 0,
        }
    }

    /// How many tables the value holds, itself included.
    pub open spec fn tables(self) -> nat
        decreases self, 1nat,
    {
        match self {
            Dynamic::Table(entries) => 1 + tables_among(entries),
            _ => 0,
        }
    }

    /// A pair whose key is the text `key`.
    pub open spec fn pair(key: Seq<char>, value: Dynamic) -> (Dynamic, Dynamic) {
        (Dynamic::Str(key), value)
    }
}

impl View for Variant {
    type V = Dynamic;

    open spec fn view(&self) -> Dynamic
        decreases self,
    {
        match self {
            Variant::Nil => Dynamic::Nil,
            Variant::Boolean(b) => Dynamic::Boolean(*b),
            Variant::Integer(i) => Dynamic::Integer(*i),
            Variant::Number(n) => Dynamic::Number(*n),
            Variant::Str(s) => Dynamic::Str(s@),
            Variant::Table(entries) => Dynamic::Table(pairs_view(entries@)),
            Variant::Function(f) => Dynamic::Function(*f),
            Variant::Error(m) => Dynamic::Error(m@),
            Variant::Foreign(f) => Dynamic::Foreign(*f),
        }
    }
}

/// The models of a sequence of pairs, pair by pair.
pub open spec fn pairs_view(entries: Seq<(Variant, Variant)>) -> Seq<(Dynamic, Dynamic)>
    decreases entries,
{
    if entries.len() == 0 {
        Seq::empty()
    } else {
        pairs_view(entries.drop_last()).push((entries.last().0@, entries.last().1@))
    }
}

/// The model of a sequence of pairs has the model of each pair at the pair's place.
pub proof fn lemma_pairs_view(entries: Seq<(Variant, Variant)>)
    ensures
        pairs_view(entries).len() == entries.len(),
        forall|i: int|
            0 <= i < entries.len() ==> #[trigger] pairs_view(entries)[i] == (
                entries[i].0@,
                entries[i].1@,
            ),
    decreases entries.len(),
{
    if entries.len() > 0 {
        let init = entries.drop_last();
        lemma_pairs_view(init);
        assert(pairs_view(entries) == pairs_view(init).push((entries.last().0@, entries.last().1@)));
        assert(pairs_view(entries).len() == entries.len());
        assert forall|i: int| 0 <= i < entries.len() implies #[trigger] pairs_view(entries)[i] == (
            entries[i].0@,
            entries[i].1@,
        ) by {
            if i < init.len() {
                assert(init[i] == entries[i]);
                assert(pairs_view(entries)[i] == pairs_view(init)[i]);
            }
        }
    }
}

/// How many tables the keys and values of `entries` hold, themselves included.
pub open spec fn tables_among(entries: Seq<(Dynamic, Dynamic)>) -> nat
    decreases entries, 0nat,
{
    if entries.len() == 0 {
        0
    } else {
        tables_among(entries.drop_last()) + entries.last().0.tables() + entries.last().1.tables()
    }
}

/// The deepest nesting among the keys and values of `entries`.
pub open spec fn deepest(entries: Seq<(Dynamic, Dynamic)>) -> nat
    decreases entries, 0nat,
{
    if entries.len() == 0 {
        0
    } else {
        let before = deepest(entries.drop_last());
        let key = entries.last().0.nesting();
        let value = entries.last().1.nesting();
        if before >= key && before >= value {
            before
        } else if key >= value {
            key
        } else {
            value
        }
    }
}

/// The model of `v`, or `Nil` where there is none.
pub open spec fn view_or_nil(v: Option<&Variant>) -> Dynamic {
    match v {
        Some(x) => x@,
        None => Dynamic::Nil,
    }
}

impl Variant {
    /// The text `s` as a value.
    pub fn text(s: &str) -> (v: Variant)
        ensures
            v@ == Dynamic::Str(s@),
    {
        Variant::Str(String::from_str(s))
    }

    /// A pair for a table, keyed by the text `key`.
    pub fn entry(key: &str, value: Variant) -> (e: (Variant, Variant))
        ensures
            e.0@ == Dynamic::Str(key@),
            e.1 == value,
    {
        (Variant::Str(String::from_str(key)), value)
    }

    /// A table of the given pairs.
    pub fn table(entries: Vec<(Variant, Variant)>) -> (v: Variant)
        ensures
            v@ == Dynamic::Table(pairs_view(entries@)),
    {
        Variant::Table(entries)
    }

    /// What the table holds under `key`; `None` where it holds nothing there or `self` is no
    /// table.
    pub fn field(&self, key: &str) -> (r: Option<&Variant>)
        ensures
            view_or_nil(r) == self@.field(key@),
    {
        match self {
            Variant::Table(entries) => {
                proof {
                    lemma_pairs_view(entries@);
                }
                let n = entries.len();
                let mut i: usize = 0;
                while i < n
                    invariant
                        i <= n,
                        n == entries@.len(),
                        self@.entries() == pairs_view(entries@),
                        self@.field(key@) == Dynamic::find(self@.entries(), key@, i as int),
                    decreases n - i,
                {
                    let found = match &entries[i].0 {
                        Variant::Str(s) => same_text(s.as_str(), key),
                        _ => false,
                    };
                    proof {
                        lemma_pairs_view(entries@);
                    }
                    if found {
                        return Some(&entries[i].1);
                    }
                    i += 1;
                }
                None
            },
            _ => None,
        }
    }

    /// What the table holds under `key`, `Nil` where it holds nothing there or `self` is
    /// no table.
    pub fn part(&self, key: &str) -> (r: &Variant)
        ensures
            r@ == self@.field(key@),
    {
        match self.field(key) {
            Some(v) => v,
            None => &Variant::Nil,
        }
    }

    /// The integer that the value is, see [`Dynamic::as_integer`].
    pub fn to_integer(&self) -> (r: Option<i64>)
        ensures
            r == self@.as_integer(),
    {
        match self {
            Variant::Integer(i) => Some(*i),
            Variant::Number(n) => n.to_integer(),
            _ => None,
        }
    }

    /// The number that the value is, see [`Dynamic::as_number`].
    pub fn to_number(&self) -> (r: Option<Scalar>)
        ensures
            r == self@.as_number(),
    {
        match self {
            Variant::Number(n) => Some(*n),
            Variant::Integer(i) => Scalar::from_integer(*i),
            _ => None,
        }
    }

    /// Whether the value counts as true where the runtime asks for a condition.
    pub fn is_truthy(&self) -> (b: bool)
        ensures
            b == self@.truthy(),
    {
        match self {
            Variant::Nil => false,
            Variant::Boolean(b) => *b,
            _ => true,
        }
    }

    /// The boolean that the value is.
    pub fn to_boolean(&self) -> (r: Option<bool>)
        ensures
            r == self@.as_boolean(),
    {
        match self {
            Variant::Boolean(b) => Some(*b),
            _ => None,
        }
    }

    /// The text that the value is.
    pub fn to_text(&self) -> (r: Option<&str>)
        ensures
            match r {
                Some(s) => self@.as_text() == Some(s@),
                None => self@.as_text() is None,
            },
    {
        match self {
            Variant::Str(s) => Some(s.as_str()),
            _ => None,
        }
    }

    /// The integer under `key`, if an integer is there.
    pub fn integer_at(&self, key: &str) -> (r: Option<i64>)
        ensures
            r == self@.field(key@).as_integer(),
    {
        match self.field(key) {
            Some(v) => v.to_integer(),
            None => None,
        }
    }

    /// The number under `key`, if a number is there.
    pub fn number_at(&self, key: &str) -> (r: Option<Scalar>)
        ensures
            r == self@.field(key@).as_number(),
    {
        match self.field(key) {
            Some(v) => v.to_number(),
            None => None,
        }
    }

    /// The boolean under `key`, if a boolean is there.
    pub fn boolean_at(&self, key: &str) -> (r: Option<bool>)
        ensures
            r == self@.field(key@).as_boolean(),
    {
        match self.field(key) {
            Some(v) => v.to_boolean(),
            None => None,
        }
    }

    /// The text under `key`, if a text is there.
    pub fn text_at(&self, key: &str) -> (r: Option<&str>)
        ensures
            match r {
                Some(s) => self@.field(key@).as_text() == Some(s@),
                None => self@.field(key@).as_text() is None,
            },
    {
        match self.field(key) {
            Some(v) => v.to_text(),
            None => None,
        }
    }

    /// Whether the value is a table.
    pub fn is_table(&self) -> (r: bool)
        ensures
            r == (self@ is Table),
    {
        match self {
            Variant::Table(_) => true,
            _ => false,
        }
    }
}

} // verus!
