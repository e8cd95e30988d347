//! The input tree: a [`Schema`] node and the ordered [`Properties`] below it.

use crate::text::{text_eq, text_view};
use vstd::prelude::*;

verus! {

/// A schema node as plain values. The properties keep their order.
pub struct SchemaView {
    pub title: Option<Seq<char>>,
    pub type_tag: Seq<char>,
    pub description: Option<Seq<char>>,
    pub properties: Option<Seq<(Seq<char>, SchemaView)>>,
}

/// One node of a schema document.
#[derive(Debug)]
pub struct Schema {
    pub title: Option<String>,
    pub type_tag: String,
    pub description: Option<String>,
    pub properties: Option<Properties>,
}

/// The named sub-schemas of an object node: a mapping from property name to
/// schema that keeps the order in which the names were first inserted.
#[derive(Debug)]
pub struct Properties {
    entries: Vec<(String, Schema)>,
}

/// The node `schema` as plain values.
pub open spec fn schema_view(schema: Schema) -> SchemaView
    decreases schema,
{
    SchemaView {
        title: text_view(schema.title),
        type_tag: schema.type_tag@,
        description: text_view(schema.description),
        properties: match schema.properties {
            Some(p) => Some(properties_view(p)),
            None => None,
        },
    }
}

/// The entries of `properties` as plain values, in their order.
pub closed spec fn properties_view(properties: Properties) -> Seq<(Seq<char>, SchemaView)>
    decreases properties,
{
    entries_view(properties.entries@)
}

/// The pairs `entries` as plain values, in their order.
spec fn entries_view(entries: Seq<(String, Schema)>) -> Seq<(Seq<char>, SchemaView)>
    decreases entries,
{
    if entries.len() == 0 {
        Seq::empty()
    } else {
        entries_view(entries.drop_last()).push((entries.last().0@, schema_view(entries.last().1)))
    }
}

/// The view of a list of pairs has the view of each pair at the place of
/// that pair.
proof fn lemma_entries_view(entries: Seq<(String, Schema)>)
    ensures
        entries_view(entries).len() == entries.len(),
        forall|i: int|
            0 <= i < entries.len() ==> #[trigger] entries_view(entries)[i] == (
                entries[i].0@,
                schema_view(entries[i].1),
            ),
    decreases entries.len(),
{
    if entries.len() > 0 {
        lemma_entries_view(entries.drop_last());
    }
}

impl View for Schema {
    type V = SchemaView;

    open spec fn view(&self) -> SchemaView {
        schema_view(*self)
    }
}

impl View for Properties {
    type V = Seq<(Seq<char>, SchemaView)>;

    open spec fn view(&self) -> Seq<(Seq<char>, SchemaView)> {
        properties_view(*self)
    }
}

impl Default for Schema {
    /// A node without title, type, description or properties.
    fn default() -> (schema: Schema)
        ensures
            schema@ == (SchemaView {
                title: None,
                type_tag: Seq::empty(),
                description: None,
                properties: None,
            }),
    {
        Schema { title: None, type_tag: String::new(), description: None, properties: None }
    }
}

/// No key stands at two places of `entries`.
pub open spec fn distinct_keys(entries: Seq<(Seq<char>, SchemaView)>) -> bool {
    forall|i: int, j: int| 0 <= i < j < entries.len() ==> entries[i].0 != entries[j].0
}

/// The first place at which `key` stands in `entries`; their number where it
/// stands nowhere.
pub open spec fn place_of(entries: Seq<(Seq<char>, SchemaView)>, key: Seq<char>) -> int
    decreases entries.len(),
{
    if entries.len() == 0 || entries.first().0 == key {
        0
    } else {
        1 + place_of(entries.drop_first(), key)
    }
}

/// Whether `key` stands somewhere in `entries`.
pub open spec fn has_key(entries: Seq<(Seq<char>, SchemaView)>, key: Seq<char>) -> bool {
    place_of(entries, key) < entries.len()
}

/// The entries after `key` has been set to `schema`: in the place where `key`
/// stood, or at the end where it stood nowhere.
pub open spec fn with_entry(
    entries: Seq<(Seq<char>, SchemaView)>,
    key: Seq<char>,
    schema: SchemaView,
) -> Seq<(Seq<char>, SchemaView)> {
    if has_key(entries, key) {
        entries.update(place_of(entries, key), (key, schema))
    } else {
        entries.push((key, schema))
    }
}

/// The place of a key is the first place at which it stands.
pub proof fn lemma_place_of(entries: Seq<(Seq<char>, SchemaView)>, key: Seq<char>)
    ensures
        0 <= place_of(entries, key) <= entries.len(),
        has_key(entries, key) ==> entries[place_of(entries, key)].0 == key,
        forall|i: int| 0 <= i < place_of(entries, key) ==> (#[trigger] entries[i]).0 != key,
    decreases entries.len(),
{
    if entries.len() > 0 && entries.first().0 != key {
        let rest = entries.drop_first();
        lemma_place_of(rest, key);
        assert forall|i: int| 0 <= i < place_of(entries, key) implies (#[trigger] entries[i]).0
            != key by {
            if i > 0 {
                assert(entries[i] == rest[i - 1]);
            }
        }
    }
}

/// A place at which `key` stands, with no such place before it, is the place
/// of `key`.
pub proof fn lemma_first_place(entries: Seq<(Seq<char>, SchemaView)>, key: Seq<char>, place: int)
    requires
        0 <= place <= entries.len(),
        place < entries.len() ==> entries[place].0 == key,
        forall|i: int| 0 <= i < place ==> (#[trigger] entries[i]).0 != key,
    ensures
        place_of(entries, key) == place,
{
    lemma_place_of(entries, key);
    let found = place_of(entries, key);
    if found < place {
        assert(entries[found].0 != key);
    }
}

/// Setting a key keeps the other keys in their places and no key twice: a
/// key that was there keeps its place, and a new one comes last.
pub proof fn lemma_with_entry(
    entries: Seq<(Seq<char>, SchemaView)>,
    key: Seq<char>,
    schema: SchemaView,
)
    requires
        distinct_keys(entries),
    ensures
        distinct_keys(with_entry(entries, key, schema)),
        with_entry(entries, key, schema).len() == entries.len() + (if has_key(entries, key) {
            0int
        } else {
            1int
        }),
        forall|i: int|
            0 <= i < entries.len() ==> (#[trigger] with_entry(entries, key, schema)[i]).0
                == entries[i].0,
        forall|i: int|
            0 <= i < entries.len() && i != place_of(entries, key) ==> #[trigger] with_entry(
                entries,
                key,
                schema,
            )[i] == entries[i],
        with_entry(entries, key, schema)[place_of(entries, key)] == (key, schema),
{
    lemma_place_of(entries, key);
}

impl Properties {
    /// No name stands twice among the properties.
    #[verifier::type_invariant]
    spec fn keys_differ(self) -> bool {
        distinct_keys(self@)
    }

    /// A mapping without entries.
    pub fn new() -> (properties: Properties)
        ensures
            properties@ == Seq::<(Seq<char>, SchemaView)>::empty(),
    {
        Properties { entries: Vec::new() }
    }

    /// The number of properties. No two of them have the same name.
    pub fn len(&self) -> (n: usize)
        ensures
            n == self@.len(),
            distinct_keys(self@),
    {
        proof {
            use_type_invariant(self);
            lemma_entries_view(self.entries@);
        }
        self.entries.len()
    }

    /// The property at place `i`: its name and its schema.
    pub fn entry(&self, i: usize) -> (entry: (&str, &Schema))
        requires
            i < self@.len(),
        ensures
            entry.0@ == self@[i as int].0,
            entry.1@ == self@[i as int].1,
    {
        proof {
            lemma_entries_view(self.entries@);
        }
        let pair = &self.entries[i];
        (pair.0.as_str(), &pair.1)
    }

    /// The place of the property named `key`, if there is one.
    pub fn position(&self, key: &str) -> (place: Option<usize>)
        ensures
            place is Some == has_key(self@, key@),
            place is Some ==> place->0 == place_of(self@, key@),
    {
        proof {
            lemma_entries_view(self.entries@);
        }
        let mut i: usize = 0;
        while i < self.entries.len()
            invariant
                i <= self.entries@.len(),
                self@.len() == self.entries@.len(),
                forall|k: int| 0 <= k < i ==> (#[trigger] self@[k]).0 != key@,
                forall|k: int|
                    0 <= k < self.entries@.len() ==> (#[trigger] self@[k]).0
                        == self.entries@[k].0@,
            decreases self.entries@.len() - i,
        {
            if text_eq(self.entries[i].0.as_str(), key) {
                proof {
                    lemma_first_place(self@, key@, i as int);
                }
                return Some(i);
            }
            i += 1;
        }
        proof {
            lemma_first_place(self@, key@, i as int);
        }
        None
    }

    /// Sets the schema of the property named `key`. A name that is already
    /// there keeps its place and hands out the schema it had; a new name goes
    /// to the end.
    pub fn insert(&mut self, key: String, schema: Schema) -> (replaced: Option<Schema>)
        ensures
            final(self)@ == with_entry(old(self)@, key@, schema@),
            replaced is Some == has_key(old(self)@, key@),
            replaced is Some ==> replaced->0@ == old(self)@[place_of(old(self)@, key@)].1,
            distinct_keys(final(self)@),
    {
        proof {
            use_type_invariant(&*self);
            lemma_entries_view(self.entries@);
            lemma_place_of(self@, key@);
        }
        let place = self.position(key.as_str());
        let mut entries: Vec<(String, Schema)> = Vec::new();
        core::mem::swap(&mut self.entries, &mut entries);
        let replaced = match place {
            Some(i) => {
                let mut pair = (key, schema);
                entries.set_and_swap(i, &mut pair);
                Some(pair.1)
            },
            None => {
                entries.push((key, schema));
                None
            },
        };
        proof {
            lemma_entries_view(entries@);
            assert(entries_view(entries@) =~= with_entry(old(self)@, key@, schema@));
        }
        core::mem::swap(&mut self.entries, &mut entries);
        replaced
    }
}

} // verus!
