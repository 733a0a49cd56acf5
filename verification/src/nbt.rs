//! The persisted record: a compound of named values, each an integer, a
//! string or a compound again.

use vstd::prelude::*;
use crate::text::str_eq;

verus! {

/// A value of a record.
#[derive(Debug)]
pub enum NbtTag {
    Int(i32),
    String(String),
    Compound(NbtCompound),
}

/// A record: named values, in the order in which they were first put.
#[derive(Debug)]
pub struct NbtCompound {
    pub child_tags: Vec<(String, NbtTag)>,
}

/// What a value of a record holds.
pub enum NbtValue {
    Int(i32),
    String(Seq<char>),
    Compound(Map<Seq<char>, NbtValue>),
}

/// The fields that a list of named values stands for. Where a name occurs
/// more than once, its first occurrence counts.
pub open spec fn fields_of(entries: Seq<(String, NbtTag)>) -> Map<Seq<char>, NbtValue>
    decreases entries, 0nat,
{
    if entries.len() == 0 {
        Map::empty()
    } else {
        fields_of(entries.drop_first()).insert(entries[0].0@, value_of(entries[0].1))
    }
}

/// What a value holds.
pub open spec fn value_of(tag: NbtTag) -> NbtValue
    decreases tag, 1nat,
{
    match tag {
        NbtTag::Int(value) => NbtValue::Int(value),
        NbtTag::String(value) => NbtValue::String(value@),
        NbtTag::Compound(compound) => NbtValue::Compound(fields_of(compound.child_tags@)),
    }
}

impl View for NbtTag {
    type V = NbtValue;

    open spec fn view(&self) -> NbtValue {
        value_of(*self)
    }
}

impl View for NbtCompound {
    type V = Map<Seq<char>, NbtValue>;

    open spec fn view(&self) -> Map<Seq<char>, NbtValue> {
        fields_of(self.child_tags@)
    }
}

/// The integer under `name`, where the field is there and holds one.
pub open spec fn int_field(fields: Map<Seq<char>, NbtValue>, name: Seq<char>) -> Option<i32> {
    match fields.get(name) {
        Some(NbtValue::Int(value)) => Some(value),
        _ => None,
    }
}

/// The string under `name`, where the field is there and holds one.
pub open spec fn string_field(fields: Map<Seq<char>, NbtValue>, name: Seq<char>) -> Option<
    Seq<char>,
> {
    match fields.get(name) {
        Some(NbtValue::String(value)) => Some(value),
        _ => None,
    }
}

/// The compound under `name`, where the field is there and holds one.
pub open spec fn compound_field(fields: Map<Seq<char>, NbtValue>, name: Seq<char>) -> Option<
    Map<Seq<char>, NbtValue>,
> {
    match fields.get(name) {
        Some(NbtValue::Compound(value)) => Some(value),
        _ => None,
    }
}

/// Whether `i` is the first index of `entries` with the name `name`.
pub open spec fn is_first_entry(entries: Seq<(String, NbtTag)>, name: Seq<char>, i: int) -> bool {
    &&& 0 <= i < entries.len()
    &&& entries[i].0@ == name
    &&& forall|k: int| 0 <= k < i ==> (#[trigger] entries[k]).0@ != name
}

/// Whether no entry has the name `name`.
pub open spec fn no_entry(entries: Seq<(String, NbtTag)>, name: Seq<char>) -> bool {
    forall|k: int| 0 <= k < entries.len() ==> (#[trigger] entries[k]).0@ != name
}

/// A name is a field with the value of its first entry.
pub proof fn lemma_field_present(entries: Seq<(String, NbtTag)>, name: Seq<char>, i: int)
    requires
        is_first_entry(entries, name, i),
    ensures
        fields_of(entries).get(name) == Some(value_of(entries[i].1)),
    decreases entries.len(),
{
    if i > 0 {
        let rest = entries.drop_first();
        assert(is_first_entry(rest, name, i - 1));
        lemma_field_present(rest, name, i - 1);
    }
}

/// A name that no entry has is no field.
pub proof fn lemma_field_absent(entries: Seq<(String, NbtTag)>, name: Seq<char>)
    requires
        no_entry(entries, name),
    ensures
        fields_of(entries).get(name) is None,
    decreases entries.len(),
{
    if entries.len() > 0 {
        let rest = entries.drop_first();
        assert(no_entry(rest, name));
        lemma_field_absent(rest, name);
    }
}

/// Replacing the value of a name's first entry replaces the field.
pub proof fn lemma_field_replaced(entries: Seq<(String, NbtTag)>, i: int, key: String, tag: NbtTag)
    requires
        is_first_entry(entries, key@, i),
    ensures
        fields_of(entries.update(i, (key, tag))) == fields_of(entries).insert(key@, value_of(tag)),
    decreases entries.len(),
{
    let after = entries.update(i, (key, tag));
    if i == 0 {
        assert(after.drop_first() =~= entries.drop_first());
    } else {
        let rest = entries.drop_first();
        assert(is_first_entry(rest, key@, i - 1));
        lemma_field_replaced(rest, i - 1, key, tag);
        assert(after.drop_first() =~= rest.update(i - 1, (key, tag)));
    }
}

/// Appending an entry under a name that no entry has adds the field.
pub proof fn lemma_field_added(entries: Seq<(String, NbtTag)>, key: String, tag: NbtTag)
    requires
        no_entry(entries, key@),
    ensures
        fields_of(entries.push((key, tag))) == fields_of(entries).insert(key@, value_of(tag)),
    decreases entries.len(),
{
    let after = entries.push((key, tag));
    if entries.len() == 0 {
        assert(after.drop_first() =~= entries);
    } else {
        let rest = entries.drop_first();
        assert(no_entry(rest, key@));
        lemma_field_added(rest, key, tag);
        assert(after.drop_first() =~= rest.push((key, tag)));
    }
}

/// Lists of entries with the same names and values stand for the same fields.
pub proof fn lemma_same_entries_same_fields(a: Seq<(String, NbtTag)>, b: Seq<(String, NbtTag)>)
    requires
        a.len() == b.len(),
        forall|i: int|
            0 <= i < a.len() ==> (#[trigger] a[i]).0@ == b[i].0@ && value_of(a[i].1) == value_of(
                b[i].1,
            ),
    ensures
        fields_of(a) == fields_of(b),
    decreases a.len(),
{
    if a.len() > 0 {
        let rest_a = a.drop_first();
        let rest_b = b.drop_first();
        assert forall|i: int| 0 <= i < rest_a.len() implies (#[trigger] rest_a[i]).0@
            == rest_b[i].0@ && value_of(rest_a[i].1) == value_of(rest_b[i].1) by {
            assert(rest_a[i] == a[i + 1]);
            assert(rest_b[i] == b[i + 1]);
        }
        lemma_same_entries_same_fields(rest_a, rest_b);
    }
}

impl NbtTag {
    /// A copy of the value, with the records in it copied too.
    fn duplicate(&self) -> (copy: NbtTag)
        ensures
            copy@ == self@,
        decreases self,
    {
        match self {
            NbtTag::Int(value) => NbtTag::Int(*value),
            NbtTag::String(value) => NbtTag::String(value.clone()),
            NbtTag::Compound(compound) => NbtTag::Compound(compound.duplicate()),
        }
    }
}

impl Clone for NbtTag {
    fn clone(&self) -> (copy: Self)
        ensures
            copy@ == self@,
    {
        self.duplicate()
    }
}

impl Clone for NbtCompound {
    fn clone(&self) -> (copy: Self)
        ensures
            copy@ == self@,
    {
        self.duplicate()
    }
}

impl NbtCompound {
    /// A copy of the record, with the records in it copied too.
    fn duplicate(&self) -> (copy: NbtCompound)
        ensures
            copy@ == self@,
        decreases self,
    {
        let mut child_tags: Vec<(String, NbtTag)> = Vec::new();
        let mut i: usize = 0;
        while i < self.child_tags.len()
            invariant
                i <= self.child_tags.len(),
                child_tags@.len() == i,
                forall|k: int|
                    0 <= k < i ==> (#[trigger] child_tags@[k]).0@ == self.child_tags@[k].0@
                        && value_of(child_tags@[k].1) == value_of(self.child_tags@[k].1),
            decreases self.child_tags.len() - i,
        {
            let entry = &self.child_tags[i];
            child_tags.push((entry.0.clone(), entry.1.duplicate()));
            i += 1;
        }
        proof {
            lemma_same_entries_same_fields(child_tags@, self.child_tags@);
        }
        NbtCompound { child_tags }
    }

    /// A record without fields.
    pub fn new() -> (compound: NbtCompound)
        ensures
            compound@ == Map::<Seq<char>, NbtValue>::empty(),
            compound.names() == Seq::<Seq<char>>::empty(),
    {
        NbtCompound { child_tags: Vec::new() }
    }

    /// The index of the first entry with the name `name`.
    fn position(&self, name: &str) -> (found: Option<usize>)
        ensures
            match found {
                Some(i) => is_first_entry(self.child_tags@, name@, i as int),
                None => no_entry(self.child_tags@, name@),
            },
    {
        let mut i: usize = 0;
        while i < self.child_tags.len()
            invariant
                i <= self.child_tags.len(),
                forall|k: int| 0 <= k < i ==> (#[trigger] self.child_tags@[k]).0@ != name@,
            decreases self.child_tags.len() - i,
        {
            if str_eq(self.child_tags[i].0.as_str(), name) {
                return Some(i);
            }
            i += 1;
        }
        None
    }

    /// The names of the entries, in their order.
    pub open spec fn names(self) -> Seq<Seq<char>> {
        self.child_tags@.map_values(|entry: (String, NbtTag)| entry.0@)
    }

    /// Sets the field `name` to `value`, in place of any value it had. A
    /// field that was there keeps its place among the entries, a new one
    /// comes last.
    pub fn put(&mut self, name: &str, value: NbtTag)
        ensures
            final(self)@ == old(self)@.insert(name@, value@),
            final(self).names() == if old(self)@.contains_key(name@) {
                old(self).names()
            } else {
                old(self).names().push(name@)
            },
    {
        let key = name.to_owned();
        match self.position(name) {
            Some(i) => {
                proof {
                    lemma_field_replaced(self.child_tags@, i as int, key, value);
                    lemma_field_present(self.child_tags@, name@, i as int);
                }
                self.child_tags.set(i, (key, value));
            },
            None => {
                proof {
                    lemma_field_added(self.child_tags@, key, value);
                    lemma_field_absent(self.child_tags@, name@);
                }
                self.child_tags.push((key, value));
            },
        }
    }

    /// Sets the field `name` to the string `value`.
    pub fn put_string(&mut self, name: &str, value: String)
        ensures
            final(self)@ == old(self)@.insert(name@, NbtValue::String(value@)),
            final(self).names() == if old(self)@.contains_key(name@) {
                old(self).names()
            } else {
                old(self).names().push(name@)
            },
    {
        self.put(name, NbtTag::String(value));
    }

    /// Sets the field `name` to the integer `value`.
    pub fn put_int(&mut self, name: &str, value: i32)
        ensures
            final(self)@ == old(self)@.insert(name@, NbtValue::Int(value)),
            final(self).names() == if old(self)@.contains_key(name@) {
                old(self).names()
            } else {
                old(self).names().push(name@)
            },
    {
        self.put(name, NbtTag::Int(value));
    }

    /// Sets the field `name` to the record `value`.
    pub fn put_component(&mut self, name: &str, value: NbtCompound)
        ensures
            final(self)@ == old(self)@.insert(name@, NbtValue::Compound(value@)),
            final(self).names() == if old(self)@.contains_key(name@) {
                old(self).names()
            } else {
                old(self).names().push(name@)
            },
    {
        self.put(name, NbtTag::Compound(value));
    }

    /// The value of the field `name`.
    pub fn get(&self, name: &str) -> (found: Option<&NbtTag>)
        ensures
            match found {
                Some(tag) => self@.get(name@) == Some(tag@),
                None => self@.get(name@) is None,
            },
    {
        match self.position(name) {
            Some(i) => {
                proof {
                    lemma_field_present(self.child_tags@, name@, i as int);
                }
                Some(&self.child_tags[i].1)
            },
            None => {
                proof {
                    lemma_field_absent(self.child_tags@, name@);
                }
                None
            },
        }
    }

    /// The integer that the field `name` holds.
    pub fn get_int(&self, name: &str) -> (found: Option<i32>)
        ensures
            found == int_field(self@, name@),
    {
        match self.get(name) {
            Some(NbtTag::Int(value)) => Some(*value),
            _ => None,
        }
    }

    /// The string that the field `name` holds.
    pub fn get_string(&self, name: &str) -> (found: Option<&String>)
        ensures
            match found {
                Some(value) => string_field(self@, name@) == Some(value@),
                None => string_field(self@, name@) is None,
            },
    {
        match self.get(name) {
            Some(NbtTag::String(value)) => Some(value),
            _ => None,
        }
    }

    /// The record that the field `name` holds.
    pub fn get_compound(&self, name: &str) -> (found: Option<&NbtCompound>)
        ensures
            match found {
                Some(value) => compound_field(self@, name@) == Some(value@),
                None => compound_field(self@, name@) is None,
            },
    {
        match self.get(name) {
            Some(NbtTag::Compound(value)) => Some(value),
            _ => None,
        }
    }
}

} // verus!
