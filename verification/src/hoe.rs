//! The hoe: the kinds of item that are hoes, and what tilling comes to.

use vstd::prelude::*;
use crate::definition::names_of;
use crate::pumpkin_item::ItemMetadata;
use crate::registry::{Registry, RegistryKey, RegistryView};
use crate::text::str_eq;

verus! {

/// The name of the item tag that groups the hoes.
pub const HOES_TAG: &'static str = "minecraft:hoes";

/// The block that a tilled block turns into.
pub const FARMLAND: &'static str = "farmland";

/// The behaviour of hoes.
#[derive(Clone, Copy, Debug)]
pub struct HoeItem;

/// A side of a block.
#[derive(Clone, Copy, Debug, PartialEq, Eq, Structural)]
pub enum BlockDirection {
    Down,
    Up,
    North,
    South,
    West,
    East,
}

/// What the use of a hoe on a block comes to.
#[derive(Clone, Copy, Debug, PartialEq, Eq, Structural)]
pub enum HoeUse {
    /// The block is none that a hoe tills: nothing happens.
    Ignored,
    /// The block turns into [`FARMLAND`], and the hoe in the hand wears.
    Tilled,
    /// The block is one that a hoe tills, but it was used from below, or
    /// what lies above the block is not air: nothing happens.
    Failed,
}

/// `Vec::into_boxed_slice` of std: the box holds the elements of the vector,
/// in their order.
#[verifier::external_body]
fn into_boxed_slice(values: Vec<u16>) -> (boxed: Box<[u16]>)
    ensures
        boxed@ == values@,
{
    values.into_boxed_slice()
}

/// The ids of the items that the keys `keys` name in `registry`.
pub open spec fn ids_of(keys: Seq<Seq<char>>, registry: RegistryView) -> Seq<u16> {
    keys.map_values(|key: Seq<char>| registry.items[key].id)
}

impl ItemMetadata for HoeItem {
    /// The tag of the hoes resolves, and so does each of its members.
    open spec fn ids_resolve(registry: RegistryView) -> bool {
        &&& registry.item_tags.contains_key(HOES_TAG@)
        &&& forall|i: int|
            0 <= i < registry.item_tags[HOES_TAG@].len() ==> registry.items.contains_key(
                #[trigger] registry.item_tags[HOES_TAG@][i],
            )
    }

    /// The ids of the members of the tag of the hoes, in the tag's order.
    open spec fn spec_ids(registry: RegistryView) -> Seq<u16> {
        ids_of(registry.item_tags[HOES_TAG@], registry)
    }

    fn ids(registry: &Registry) -> (ids: Box<[u16]>) {
        let keys = registry.resolve_tag(RegistryKey::Item, HOES_TAG).unwrap();
        let ghost names = registry@.item_tags[HOES_TAG@];
        let mut ids: Vec<u16> = Vec::new();
        let mut i: usize = 0;
        while i < keys.len()
            invariant
                i <= keys.len(),
                names_of(keys@) == names,
                Self::ids_resolve(registry@),
                names == registry@.item_tags[HOES_TAG@],
                ids@ == ids_of(names.take(i as int), registry@),
            decreases keys.len() - i,
        {
            assert(names[i as int] == keys[i as int]@);
            let item = registry.resolve_item(keys[i].as_str()).unwrap();
            ids.push(item.id);
            i += 1;
        }
        into_boxed_slice(ids)
    }
}

impl HoeItem {
    /// Whether `block` is a block that a hoe tills.
    pub open spec fn tills(block: Seq<char>) -> bool {
        ||| block == "grass_block"@
        ||| block == "dirt_path"@
        ||| block == "dirt"@
        ||| block == "coarse_dirt"@
        ||| block == "rooted_dirt"@
    }

    /// What the use of a hoe on the side `face` of `block` comes to, where
    /// `above_is_air` says whether air lies above the block.
    pub open spec fn outcome(block: Seq<char>, face: BlockDirection, above_is_air: bool) -> HoeUse {
        if !Self::tills(block) {
            HoeUse::Ignored
        } else if face != BlockDirection::Down && above_is_air {
            HoeUse::Tilled
        } else {
            HoeUse::Failed
        }
    }

    /// Whether the use of a hoe on the side `face` of `block` depends on
    /// what lies above the block: it does for a block that a hoe tills, used
    /// from any side but below.
    pub open spec fn looks_above(block: Seq<char>, face: BlockDirection) -> bool {
        Self::tills(block) && face != BlockDirection::Down
    }

    /// Digging with a hoe wears it.
    pub fn is_damage_item_on_dig(&self) -> (wears: bool)
        ensures
            wears,
    {
        true
    }

    /// Using a hoe wears it.
    pub fn is_damage_item_on_after_normal_use(&self) -> (wears: bool)
        ensures
            wears,
    {
        true
    }

    /// Whether the block above has to be looked at before the use of a hoe
    /// on the side `face` of `block` is decided. Where it has not, the use
    /// comes to the same whatever lies there.
    pub fn asks_above(block: &str, face: &BlockDirection) -> (asks: bool)
        ensures
            asks == Self::looks_above(block@, *face),
            !asks ==> Self::outcome(block@, *face, true) == Self::outcome(block@, *face, false),
    {
        let from_below = match face {
            BlockDirection::Down => true,
            _ => false,
        };
        !from_below && Self::is_tillable(block)
    }

    /// Whether `block` is a block that a hoe tills.
    pub fn is_tillable(block: &str) -> (tillable: bool)
        ensures
            tillable == Self::tills(block@),
    {
        str_eq(block, "grass_block") || str_eq(block, "dirt_path") || str_eq(block, "dirt")
            || str_eq(block, "coarse_dirt") || str_eq(block, "rooted_dirt")
    }

    /// What the use of a hoe on the side `face` of `block` comes to.
    pub fn use_on_block(&self, block: &str, face: &BlockDirection, above_is_air: bool) -> (outcome:
        HoeUse)
        ensures
            outcome == Self::outcome(block@, *face, above_is_air),
    {
        if !Self::is_tillable(block) {
            return HoeUse::Ignored;
        }
        let from_below = match face {
            BlockDirection::Down => true,
            _ => false,
        };
        if !from_below && above_is_air {
            HoeUse::Tilled
        } else {
            HoeUse::Failed
        }
    }
}

} // verus!
