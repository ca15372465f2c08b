//! The documents that projects are stored as: an ordered map from field
//! names to values, with the shapes of value that the store holds.
use vstd::prelude::*;
use bson::oid::ObjectId;
use crate::text::str_equals;

verus! {

/// The identifier that the store gives a document. Opaque: the library only
/// carries it from where it was read to where it is written.
#[verifier::external_type_specification]
#[verifier::external_body]
pub struct ExObjectId(ObjectId);

/// A value in a stored document.
pub enum BsonValue {
    ObjectId(ObjectId),
    String(String),
    Array(Vec<BsonValue>),
    Document(Document),
    /// Any other kind of value (numbers, dates, ...), which projects never hold.
    Other,
}

/// A stored document: its fields in order, each name at most once.
pub struct Document {
    pub entries: Vec<(String, BsonValue)>,
}

/// The value of the first field named `key`.
pub open spec fn lookup(entries: Seq<(String, BsonValue)>, key: Seq<char>) -> Option<BsonValue>
    decreases entries.len(),
{
    if entries.len() == 0 {
        None
    } else if entries[0].0@ == key {
        Some(entries[0].1)
    } else {
        lookup(entries.drop_first(), key)
    }
}

/// The position of the first field named `key`, or -1.
pub open spec fn position_of(entries: Seq<(String, BsonValue)>, key: Seq<char>) -> int
    decreases entries.len(),
{
    if entries.len() == 0 {
        -1
    } else if entries[0].0@ == key {
        0
    } else {
        let r = position_of(entries.drop_first(), key);
        if r < 0 {
            -1
        } else {
            r + 1
        }
    }
}

/// The fields after setting `key` to `value`: an existing field keeps its
/// place and takes the new value, a new field goes at the end.
pub open spec fn with_field(entries: Seq<(String, BsonValue)>, key: String, value: BsonValue) -> Seq<
    (String, BsonValue),
> {
    let k = position_of(entries, key@);
    if k < 0 {
        entries.push((key, value))
    } else {
        entries.update(k, (key, value))
    }
}

/// The text of a string value.
pub open spec fn text_of(v: Option<BsonValue>) -> Option<Seq<char>> {
    match v {
        Some(BsonValue::String(s)) => Some(s@),
        _ => None,
    }
}

proof fn lemma_position_of(entries: Seq<(String, BsonValue)>, key: Seq<char>, k: int)
    requires
        0 <= k <= entries.len(),
        forall|j: int| 0 <= j < k ==> entries[j].0@ != key,
    ensures
        k < entries.len() && entries[k].0@ == key ==> position_of(entries, key) == k && lookup(
            entries,
            key,
        ) == Some(entries[k].1),
        k == entries.len() ==> position_of(entries, key) == -1 && lookup(entries, key) is None,
    decreases entries.len(),
{
    if entries.len() > 0 && k > 0 {
        lemma_position_of(entries.drop_first(), key, k - 1);
    }
}

proof fn lemma_position_of_bounds(entries: Seq<(String, BsonValue)>, key: Seq<char>)
    ensures
        -1 <= position_of(entries, key) < entries.len(),
        position_of(entries, key) >= 0 ==> entries[position_of(entries, key)].0@ == key,
    decreases entries.len(),
{
    if entries.len() > 0 {
        lemma_position_of_bounds(entries.drop_first(), key);
    }
}

/// Setting a field that is not there yet adds it at the end.
pub proof fn lemma_with_absent_field(entries: Seq<(String, BsonValue)>, key: String, value: BsonValue)
    requires
        forall|j: int| 0 <= j < entries.len() ==> entries[j].0@ != key@,
    ensures
        with_field(entries, key, value) == entries.push((key, value)),
{
    lemma_position_of(entries, key@, entries.len() as int);
}

/// Setting a field changes what that name looks up, and nothing else.
pub proof fn lemma_with_field_lookup(
    entries: Seq<(String, BsonValue)>,
    key: String,
    value: BsonValue,
    other: Seq<char>,
)
    ensures
        lookup(with_field(entries, key, value), other) == if other == key@ {
            Some(value)
        } else {
            lookup(entries, other)
        },
    decreases entries.len(),
{
    let k = position_of(entries, key@);
    if entries.len() == 0 {
        assert(with_field(entries, key, value) =~= seq![(key, value)]);
        assert(seq![(key, value)].drop_first() =~= Seq::<(String, BsonValue)>::empty());
        assert(seq![(key, value)][0] == (key, value));
        assert(lookup(Seq::<(String, BsonValue)>::empty(), other) is None);
        assert(lookup(with_field(entries, key, value), other) == if other == key@ {
            Some(value)
        } else {
            lookup(entries, other)
        });
    } else if entries[0].0@ == key@ {
        assert(position_of(entries, key@) == 0);
        assert(with_field(entries, key, value)[0] == (key, value));
        assert(with_field(entries, key, value).drop_first() =~= entries.drop_first());
    } else {
        lemma_with_field_lookup(entries.drop_first(), key, value, other);
        lemma_position_of_bounds(entries.drop_first(), key@);
        let r = position_of(entries.drop_first(), key@);
        assert(with_field(entries, key, value)[0] == entries[0]);
        if r < 0 {
            assert(with_field(entries, key, value).drop_first() =~= with_field(
                entries.drop_first(),
                key,
                value,
            ));
        } else {
            assert(with_field(entries, key, value).drop_first() =~= with_field(
                entries.drop_first(),
                key,
                value,
            ));
        }
    }
}

impl Document {
    /// A document without fields.
    pub fn new() -> (d: Document)
        ensures
            d.entries@.len() == 0,
    {
        Document { entries: Vec::new() }
    }

    /// The place of the field named `key`.
    fn find(&self, key: &str) -> (r: Option<usize>)
        ensures
            r is None ==> position_of(self.entries@, key@) == -1 && lookup(self.entries@, key@) is None,
            r matches Some(i) ==> i < self.entries@.len() && position_of(self.entries@, key@) == i
                && lookup(self.entries@, key@) == Some(self.entries@[i as int].1),
    {
        let n = self.entries.len();
        let mut i: usize = 0;
        while i < n
            invariant
                n == self.entries@.len(),
                i <= n,
                forall|j: int| 0 <= j < i ==> self.entries@[j].0@ != key@,
            decreases n - i,
        {
            if str_equals(self.entries[i].0.as_str(), key) {
                proof {
                    lemma_position_of(self.entries@, key@, i as int);
                }
                return Some(i);
            }
            i = i + 1;
        }
        proof {
            lemma_position_of(self.entries@, key@, n as int);
        }
        None
    }

    /// The value of the field named `key`.
    pub fn get(&self, key: &str) -> (r: Option<&BsonValue>)
        ensures
            r is Some <==> lookup(self.entries@, key@) is Some,
            r matches Some(v) ==> lookup(self.entries@, key@) == Some(*v),
    {
        match self.find(key) {
            Some(i) => Some(&self.entries[i].1),
            None => None,
        }
    }

    /// Sets the field named `key` to `value`, in its place if it is there
    /// and at the end if not.
    pub fn insert(&mut self, key: String, value: BsonValue)
        ensures
            final(self).entries@ == with_field(old(self).entries@, key, value),
    {
        match self.find(key.as_str()) {
            Some(i) => {
                self.entries.set(i, (key, value));
            },
            None => {
                self.entries.push((key, value));
            },
        }
    }
}

} // verus!
