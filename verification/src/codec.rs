//! The persisted form of an item stack.
//!
//! A stack is kept as a record with the fields `id` (the namespace
//! `minecraft:` and the item's registry key), `count`, and `components`, a
//! record that holds `damage` and `max_damage` where the stack has them.
//! Other fields of a record are left alone.

use vstd::prelude::*;
use crate::definition::{ComponentsView, Item, ItemView};
use crate::item::{ItemStack, ItemStackView};
use crate::nbt::{compound_field, int_field, string_field, NbtCompound, NbtValue};
use crate::registry::Registry;
use crate::text::strip_prefix;

verus! {

/// The namespace that an item's registry key is written under.
pub const NAMESPACE: &'static str = "minecraft:";

/// The field that holds the namespaced registry key, a string.
pub const ID_FIELD: &'static str = "id";

/// The field that holds the count, an integer.
pub const COUNT_FIELD: &'static str = "count";

/// The field that holds the record of the components.
pub const COMPONENTS_FIELD: &'static str = "components";

/// The field of the components that holds the damage, an integer.
pub const DAMAGE_FIELD: &'static str = "damage";

/// The field of the components that holds the full durability, an integer.
pub const MAX_DAMAGE_FIELD: &'static str = "max_damage";

/// The `components` record of a stack: the durability fields that are there.
pub open spec fn durability_record(components: ComponentsView) -> Map<Seq<char>, NbtValue> {
    let damage_only = match components.damage {
        Some(damage) => Map::<Seq<char>, NbtValue>::empty().insert(
            DAMAGE_FIELD@,
            NbtValue::Int(damage as i32),
        ),
        None => Map::<Seq<char>, NbtValue>::empty(),
    };
    match components.max_damage {
        Some(max_damage) => damage_only.insert(MAX_DAMAGE_FIELD@, NbtValue::Int(max_damage as i32)),
        None => damage_only,
    }
}

/// The record `record` after `stack` was written to it.
pub open spec fn encoded(stack: ItemStackView, record: Map<Seq<char>, NbtValue>) -> Map<
    Seq<char>,
    NbtValue,
> {
    record.insert(ID_FIELD@, NbtValue::String(NAMESPACE@ + stack.item.registry_key)).insert(
        COUNT_FIELD@,
        NbtValue::Int(stack.item_count as i32),
    ).insert(COMPONENTS_FIELD@, NbtValue::Compound(durability_record(stack.item.components)))
}

/// The registry key that an identifier names: the identifier without the
/// namespace, and the identifier itself where it has none.
pub open spec fn bare_key(full_id: Seq<char>) -> Seq<char> {
    if NAMESPACE@.is_prefix_of(full_id) {
        full_id.skip(NAMESPACE@.len() as int)
    } else {
        full_id
    }
}

/// The item `item` with the durability fields of `components` in place of
/// its own, each for itself. An integer is cut to its low 16 bits.
pub open spec fn with_durability(
    item: ItemView,
    components: Option<Map<Seq<char>, NbtValue>>,
) -> ItemView {
    match components {
        Some(fields) => ItemView {
            id: item.id,
            registry_key: item.registry_key,
            components: ComponentsView {
                damage: match int_field(fields, DAMAGE_FIELD@) {
                    Some(damage) => Some(damage as u16),
                    None => item.components.damage,
                },
                max_damage: match int_field(fields, MAX_DAMAGE_FIELD@) {
                    Some(max_damage) => Some(max_damage as u16),
                    None => item.components.max_damage,
                },
                tool: item.components.tool,
            },
        },
        None => item,
    }
}

/// The stack that `record` holds, with items looked up in `items`. There is
/// none where the record has no string `id`, where the key that it names is
/// not in `items`, or where the record has no integer `count`. The count is
/// cut to its low 8 bits.
pub open spec fn decoded(
    record: Map<Seq<char>, NbtValue>,
    items: Map<Seq<char>, ItemView>,
) -> Option<ItemStackView> {
    match (string_field(record, ID_FIELD@), int_field(record, COUNT_FIELD@)) {
        (Some(full_id), Some(count)) => match items.get(bare_key(full_id)) {
            Some(item) => Some(
                ItemStackView {
                    item_count: count as u8,
                    item: with_durability(item, compound_field(record, COMPONENTS_FIELD@)),
                },
            ),
            None => None,
        },
        _ => None,
    }
}

/// The names of the fields differ from one another.
pub proof fn lemma_field_names_differ()
    ensures
        ID_FIELD@ != COUNT_FIELD@,
        ID_FIELD@ != COMPONENTS_FIELD@,
        COUNT_FIELD@ != COMPONENTS_FIELD@,
        DAMAGE_FIELD@ != MAX_DAMAGE_FIELD@,
{
    reveal_strlit("id");
    reveal_strlit("count");
    reveal_strlit("components");
    reveal_strlit("damage");
    reveal_strlit("max_damage");
    assert(ID_FIELD@.len() == 2);
    assert(COUNT_FIELD@.len() == 5);
    assert(COMPONENTS_FIELD@.len() == 10);
    assert(DAMAGE_FIELD@.len() == 6);
    assert(MAX_DAMAGE_FIELD@.len() == 10);
}

/// An identifier made of the namespace and a key names that key.
pub proof fn lemma_bare_key_of_namespaced(key: Seq<char>)
    ensures
        bare_key(NAMESPACE@ + key) == key,
{
}

/// Round trip: a stack whose item is in the catalog, written to any record
/// and read back from it, comes out as the catalog's item of that key, with
/// the stack's count, its damage and its full durability where it has them,
/// and the catalog's where it has not.
pub proof fn law_round_trip(
    stack: ItemStackView,
    record: Map<Seq<char>, NbtValue>,
    items: Map<Seq<char>, ItemView>,
)
    requires
        items.contains_key(stack.item.registry_key),
    ensures
        decoded(encoded(stack, record), items) == Some(
            ItemStackView {
                item_count: stack.item_count,
                item: ItemView {
                    id: items[stack.item.registry_key].id,
                    registry_key: items[stack.item.registry_key].registry_key,
                    components: ComponentsView {
                        damage: match stack.item.components.damage {
                            Some(damage) => Some(damage),
                            None => items[stack.item.registry_key].components.damage,
                        },
                        max_damage: match stack.item.components.max_damage {
                            Some(max_damage) => Some(max_damage),
                            None => items[stack.item.registry_key].components.max_damage,
                        },
                        tool: items[stack.item.registry_key].components.tool,
                    },
                },
            },
        ),
{
    lemma_field_names_differ();
    lemma_bare_key_of_namespaced(stack.item.registry_key);
}

/// Round trip, by kind: where the catalog holds the stack's item under the
/// stack's id, the stack that is read back is of the same kind, has the same
/// count, and has the stack's durability fields where the stack has them.
pub proof fn law_round_trip_same_kind(
    stack: ItemStackView,
    record: Map<Seq<char>, NbtValue>,
    items: Map<Seq<char>, ItemView>,
)
    requires
        items.contains_key(stack.item.registry_key),
        items[stack.item.registry_key].id == stack.item.id,
    ensures
        decoded(encoded(stack, record), items) matches Some(back) && {
            &&& back.item.id == stack.item.id
            &&& back.item_count == stack.item_count
            &&& stack.item.components.damage is Some ==> back.item.components.damage
                == stack.item.components.damage
            &&& stack.item.components.max_damage is Some ==> back.item.components.max_damage
                == stack.item.components.max_damage
        },
{
    law_round_trip(stack, record, items);
}

/// Writing a stack leaves every field of the record but `id`, `count` and
/// `components` as it was.
pub proof fn law_write_keeps_other_fields(
    stack: ItemStackView,
    record: Map<Seq<char>, NbtValue>,
    name: Seq<char>,
)
    requires
        name != ID_FIELD@,
        name != COUNT_FIELD@,
        name != COMPONENTS_FIELD@,
    ensures
        encoded(stack, record).get(name) == record.get(name),
{
}

/// Reading a stack looks at no field of the record but `id`, `count` and
/// `components`: a record with another field more or changed holds the same
/// stack.
pub proof fn law_read_ignores_other_fields(
    record: Map<Seq<char>, NbtValue>,
    items: Map<Seq<char>, ItemView>,
    name: Seq<char>,
    value: NbtValue,
)
    requires
        name != ID_FIELD@,
        name != COUNT_FIELD@,
        name != COMPONENTS_FIELD@,
    ensures
        decoded(record.insert(name, value), items) == decoded(record, items),
{
}

/// Of the `components` record, reading looks at `damage` and `max_damage`
/// alone.
pub proof fn law_read_ignores_other_components(
    item: ItemView,
    components: Map<Seq<char>, NbtValue>,
    name: Seq<char>,
    value: NbtValue,
)
    requires
        name != DAMAGE_FIELD@,
        name != MAX_DAMAGE_FIELD@,
    ensures
        with_durability(item, Some(components.insert(name, value))) == with_durability(
            item,
            Some(components),
        ),
{
}

/// Reading a stack looks up one item, the one that the record's `id` names:
/// two catalogs that resolve that key alike give the same stack.
pub proof fn law_only_the_named_item_counts(
    record: Map<Seq<char>, NbtValue>,
    a: Map<Seq<char>, ItemView>,
    b: Map<Seq<char>, ItemView>,
)
    requires
        string_field(record, ID_FIELD@) matches Some(full_id) ==> a.get(bare_key(full_id)) == b.get(
            bare_key(full_id),
        ),
    ensures
        decoded(record, a) == decoded(record, b),
{
}

/// The registry key that the identifier `full_id` names.
pub fn registry_key_of<'a>(full_id: &'a str) -> (key: &'a str)
    ensures
        key@ == bare_key(full_id@),
{
    match strip_prefix(full_id, NAMESPACE) {
        Some(key) => key,
        None => full_id,
    }
}

impl ItemStack {
    /// Writes the stack to `compound`: its fields `id`, `count` and
    /// `components` are set, the others stay.
    pub fn write_item_stack(&self, compound: &mut NbtCompound)
        ensures
            final(compound)@ == encoded(self@, old(compound)@),
    {
        let mut id = String::from_str(NAMESPACE);
        id.append(self.item.registry_key.as_str());
        compound.put_string(ID_FIELD, id);
        compound.put_int(COUNT_FIELD, self.item_count as i32);
        let mut tag = NbtCompound::new();
        match self.item.components.damage {
            Some(damage) => {
                tag.put_int(DAMAGE_FIELD, damage as i32);
            },
            None => {},
        }
        match self.item.components.max_damage {
            Some(max_damage) => {
                tag.put_int(MAX_DAMAGE_FIELD, max_damage as i32);
            },
            None => {},
        }
        compound.put_component(COMPONENTS_FIELD, tag);
    }

    /// Reads the stack that `compound` holds, with its item looked up in
    /// `registry`.
    pub fn read_item_stack(compound: &NbtCompound, registry: &Registry) -> (stack: Option<
        ItemStack,
    >)
        ensures
            match stack {
                Some(stack) => decoded(compound@, registry@.items) == Some(stack@),
                None => decoded(compound@, registry@.items) is None,
            },
            stack is None <==> {
                ||| string_field(compound@, ID_FIELD@) is None
                ||| !registry@.items.contains_key(bare_key(string_field(compound@, ID_FIELD@)->0))
                ||| int_field(compound@, COUNT_FIELD@) is None
            },
    {
        let full_id = match compound.get_string(ID_FIELD) {
            Some(full_id) => full_id,
            None => {
                return None;
            },
        };
        let registry_key = registry_key_of(full_id.as_str());
        let mut item: Item = match registry.resolve_item(registry_key) {
            Some(item) => item.clone(),
            None => {
                return None;
            },
        };
        match compound.get_compound(COMPONENTS_FIELD) {
            Some(tag) => {
                match tag.get_int(DAMAGE_FIELD) {
                    Some(damage) => {
                        item.components.damage = Some(#[verifier::truncate] (damage as u16));
                    },
                    None => {},
                }
                match tag.get_int(MAX_DAMAGE_FIELD) {
                    Some(max_damage) => {
                        item.components.max_damage = Some(
                            #[verifier::truncate] (max_damage as u16),
                        );
                    },
                    None => {},
                }
            },
            None => {},
        }
        let count = match compound.get_int(COUNT_FIELD) {
            Some(count) => #[verifier::truncate] (count as u8),
            None => {
                return None;
            },
        };
        Some(ItemStack::new(count, item))
    }
}

} // verus!
