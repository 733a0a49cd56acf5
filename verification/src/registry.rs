//! The catalog that the item logic consults: item definitions by registry
//! key, and tags by name. A lookup takes the first entry with the name.

use vstd::prelude::*;
use crate::definition::{names_of, Item, ItemView};
use crate::text::str_eq;

verus! {

/// The kind of thing a tag groups.
#[derive(Clone, Copy, Debug, PartialEq, Eq, Structural)]
pub enum RegistryKey {
    Block,
    Item,
}

/// A named group of identifiers.
#[derive(Debug)]
pub struct Tag {
    pub name: String,
    pub values: Vec<String>,
}

/// The catalog of item definitions and tags.
#[derive(Debug)]
pub struct Registry {
    pub items: Vec<Item>,
    pub block_tags: Vec<Tag>,
    pub item_tags: Vec<Tag>,
}

/// For each tag name that resolves, the members of the tag.
pub type TagTable = Map<Seq<char>, Seq<Seq<char>>>;

/// What a catalog resolves: items by registry key, tags by name.
pub struct RegistryView {
    pub items: Map<Seq<char>, ItemView>,
    pub block_tags: TagTable,
    pub item_tags: TagTable,
}

impl RegistryView {
    /// The tags of the given kind.
    pub open spec fn tags(self, kind: RegistryKey) -> TagTable {
        match kind {
            RegistryKey::Block => self.block_tags,
            RegistryKey::Item => self.item_tags,
        }
    }
}

/// The names of a list of tags, in order.
pub open spec fn tag_names(tags: Seq<Tag>) -> Seq<Seq<char>> {
    tags.map_values(|t: Tag| t.name@)
}

/// The registry keys of a list of items, in order.
pub open spec fn item_keys(items: Seq<Item>) -> Seq<Seq<char>> {
    items.map_values(|i: Item| i.registry_key@)
}

/// The table that a list of tags stands for: a name resolves to the members
/// of the first tag that has it.
pub open spec fn tag_table(tags: Seq<Tag>) -> TagTable {
    Map::new(
        |name: Seq<char>| tag_names(tags).contains(name),
        |name: Seq<char>| names_of(tags[tag_names(tags).index_of_first(name).unwrap()].values@),
    )
}

/// The table that a list of items stands for: a key resolves to the first
/// item that has it.
pub open spec fn item_table(items: Seq<Item>) -> Map<Seq<char>, ItemView> {
    Map::new(
        |key: Seq<char>| item_keys(items).contains(key),
        |key: Seq<char>| items[item_keys(items).index_of_first(key).unwrap()]@,
    )
}

impl View for Registry {
    type V = RegistryView;

    open spec fn view(&self) -> RegistryView {
        RegistryView {
            items: item_table(self.items@),
            block_tags: tag_table(self.block_tags@),
            item_tags: tag_table(self.item_tags@),
        }
    }
}

impl Clone for Tag {
    fn clone(&self) -> (copy: Self)
        ensures
            copy.name@ == self.name@,
            names_of(copy.values@) == names_of(self.values@),
    {
        let values = self.values.clone();
        Tag { name: self.name.clone(), values }
    }
}

/// Lists of tags with the same names and members stand for the same table.
pub proof fn lemma_same_tags_same_table(a: Seq<Tag>, b: Seq<Tag>)
    requires
        a.len() == b.len(),
        forall|i: int|
            0 <= i < a.len() ==> (#[trigger] a[i]).name@ == b[i].name@ && names_of(a[i].values@)
                == names_of(b[i].values@),
    ensures
        tag_table(a) == tag_table(b),
{
    assert(tag_names(a) =~= tag_names(b));
    assert forall|name: Seq<char>| tag_names(a).contains(name) implies tag_table(a)[name]
        == tag_table(b)[name] by {
        tag_names(a).index_of_first_ensures(name);
    }
}

/// Lists of items with the same views stand for the same table.
pub proof fn lemma_same_items_same_table(a: Seq<Item>, b: Seq<Item>)
    requires
        a.len() == b.len(),
        forall|i: int| 0 <= i < a.len() ==> (#[trigger] a[i])@ == b[i]@,
    ensures
        item_table(a) == item_table(b),
{
    assert(item_keys(a) =~= item_keys(b));
    assert forall|key: Seq<char>| item_keys(a).contains(key) implies item_table(a)[key]
        == item_table(b)[key] by {
        item_keys(a).index_of_first_ensures(key);
    }
}

impl Clone for Registry {
    fn clone(&self) -> (copy: Self)
        ensures
            copy@ == self@,
    {
        let items = self.items.clone();
        let block_tags = self.block_tags.clone();
        let item_tags = self.item_tags.clone();
        proof {
            lemma_same_items_same_table(self.items@, items@);
            lemma_same_tags_same_table(self.block_tags@, block_tags@);
            lemma_same_tags_same_table(self.item_tags@, item_tags@);
        }
        Registry { items, block_tags, item_tags }
    }
}

/// An index that holds `name`, with no earlier index that does, is the one
/// that `index_of_first` gives.
pub proof fn lemma_first_index(names: Seq<Seq<char>>, name: Seq<char>, i: int)
    requires
        0 <= i < names.len(),
        names[i] == name,
        forall|k: int| 0 <= k < i ==> names[k] != name,
    ensures
        names.index_of_first(name) == Some(i),
{
    names.index_of_first_ensures(name);
}

/// A name resolves to the members of the first tag that has it.
pub proof fn lemma_tag_resolves(tags: Seq<Tag>, name: Seq<char>, i: int)
    requires
        0 <= i < tags.len(),
        tags[i].name@ == name,
        forall|k: int| 0 <= k < i ==> (#[trigger] tags[k]).name@ != name,
    ensures
        tag_table(tags).get(name) == Some(names_of(tags[i].values@)),
{
    let names = tag_names(tags);
    assert(names[i] == name);
    assert forall|k: int| 0 <= k < i implies names[k] != name by {
        assert(tags[k].name@ != name);
    }
    lemma_first_index(names, name, i);
}

/// A name that no tag has does not resolve.
pub proof fn lemma_tag_unresolved(tags: Seq<Tag>, name: Seq<char>)
    requires
        forall|k: int| 0 <= k < tags.len() ==> (#[trigger] tags[k]).name@ != name,
    ensures
        tag_table(tags).get(name) is None,
{
}

/// A key resolves to the first item that has it.
pub proof fn lemma_item_resolves(items: Seq<Item>, key: Seq<char>, i: int)
    requires
        0 <= i < items.len(),
        items[i].registry_key@ == key,
        forall|k: int| 0 <= k < i ==> (#[trigger] items[k]).registry_key@ != key,
    ensures
        item_table(items).get(key) == Some(items[i]@),
{
    let keys = item_keys(items);
    assert(keys[i] == key);
    assert forall|k: int| 0 <= k < i implies keys[k] != key by {
        assert(items[k].registry_key@ != key);
    }
    lemma_first_index(keys, key, i);
}

/// A key that no item has does not resolve.
pub proof fn lemma_item_unresolved(items: Seq<Item>, key: Seq<char>)
    requires
        forall|k: int| 0 <= k < items.len() ==> (#[trigger] items[k]).registry_key@ != key,
    ensures
        item_table(items).get(key) is None,
{
}

/// The first tag of `tags` with the name `name`.
fn find_tag<'a>(tags: &'a Vec<Tag>, name: &str) -> (found: Option<&'a Vec<String>>)
    ensures
        match found {
            Some(values) => tag_table(tags@).get(name@) == Some(names_of(values@)),
            None => tag_table(tags@).get(name@) is None,
        },
{
    let mut i: usize = 0;
    while i < tags.len()
        invariant
            i <= tags.len(),
            forall|k: int| 0 <= k < i ==> (#[trigger] tags@[k]).name@ != name@,
        decreases tags.len() - i,
    {
        if str_eq(tags[i].name.as_str(), name) {
            proof {
                lemma_tag_resolves(tags@, name@, i as int);
            }
            return Some(&tags[i].values);
        }
        i += 1;
    }
    proof {
        lemma_tag_unresolved(tags@, name@);
    }
    None
}

impl Registry {
    /// A catalog with nothing in it.
    pub fn new() -> (registry: Registry)
        ensures
            registry@.items == Map::<Seq<char>, ItemView>::empty(),
            registry@.block_tags == Map::<Seq<char>, Seq<Seq<char>>>::empty(),
            registry@.item_tags == Map::<Seq<char>, Seq<Seq<char>>>::empty(),
    {
        Registry { items: Vec::new(), block_tags: Vec::new(), item_tags: Vec::new() }
    }

    /// The definition of the item with the registry key `key`.
    pub fn resolve_item(&self, key: &str) -> (found: Option<&Item>)
        ensures
            match found {
                Some(item) => self@.items.get(key@) == Some(item@),
                None => self@.items.get(key@) is None,
            },
    {
        let mut i: usize = 0;
        while i < self.items.len()
            invariant
                i <= self.items.len(),
                forall|k: int| 0 <= k < i ==> (#[trigger] self.items@[k]).registry_key@ != key@,
            decreases self.items.len() - i,
        {
            if str_eq(self.items[i].registry_key.as_str(), key) {
                proof {
                    lemma_item_resolves(self.items@, key@, i as int);
                }
                return Some(&self.items[i]);
            }
            i += 1;
        }
        proof {
            lemma_item_unresolved(self.items@, key@);
        }
        None
    }

    /// The members of the tag `name` of the given kind.
    pub fn resolve_tag(&self, kind: RegistryKey, name: &str) -> (found: Option<&Vec<String>>)
        ensures
            match found {
                Some(values) => self@.tags(kind).get(name@) == Some(names_of(values@)),
                None => self@.tags(kind).get(name@) is None,
            },
    {
        match kind {
            RegistryKey::Block => find_tag(&self.block_tags, name),
            RegistryKey::Item => find_tag(&self.item_tags, name),
        }
    }
}

} // verus!
