//! Item definitions: the catalog data of an item kind and its components.

use vstd::prelude::*;

verus! {

/// The bit pattern of the mining speed `1.0`.
pub const NORMAL_SPEED_BITS: u32 = 0x3f80_0000;

/// A mining speed multiplier, held as the bit pattern of a single-precision
/// number. The library passes speeds on and never computes with them.
#[derive(Clone, Copy, Debug, PartialEq, Eq, Structural)]
pub struct MiningSpeed {
    pub bits: u32,
}

impl MiningSpeed {
    /// The speed of a stack that no rule and no default says anything about.
    pub open spec fn spec_normal() -> MiningSpeed {
        MiningSpeed { bits: NORMAL_SPEED_BITS }
    }

    /// The normal speed, `1.0`.
    #[verifier::when_used_as_spec(spec_normal)]
    pub fn normal() -> (speed: MiningSpeed)
        ensures
            speed == Self::spec_normal(),
    {
        MiningSpeed { bits: NORMAL_SPEED_BITS }
    }
}

/// One rule of a tool: the materials it names, and what it says of them.
#[derive(Debug)]
pub struct ToolRule {
    /// Material identifiers, or tag references that begin with `#`.
    pub blocks: Vec<String>,
    pub speed: Option<MiningSpeed>,
    pub correct_for_drops: Option<bool>,
}

/// The rules of a tool, in the order in which they are tried.
#[derive(Debug)]
pub struct ToolComponent {
    pub rules: Vec<ToolRule>,
    pub default_mining_speed: Option<MiningSpeed>,
}

/// The components of an item that this library reads. A catalog gives an
/// item both durability fields or neither; a stack that was read from a
/// record may have one without the other.
#[derive(Debug)]
pub struct ItemComponents {
    /// The wear so far.
    pub damage: Option<u16>,
    /// The full durability: the wear at which the item is broken.
    pub max_damage: Option<u16>,
    pub tool: Option<ToolComponent>,
}

/// The definition of an item kind.
#[derive(Debug)]
pub struct Item {
    /// The number of the kind: two items are of one kind when they share it.
    pub id: u16,
    /// The name of the kind in the catalog, without namespace.
    pub registry_key: String,
    pub components: ItemComponents,
}

/// What a rule holds: its entries as character sequences.
pub struct ToolRuleView {
    pub blocks: Seq<Seq<char>>,
    pub speed: Option<MiningSpeed>,
    pub correct_for_drops: Option<bool>,
}

/// What a tool holds: its rules, in order.
pub struct ToolView {
    pub rules: Seq<ToolRuleView>,
    pub default_mining_speed: Option<MiningSpeed>,
}

/// What the components of an item hold.
pub struct ComponentsView {
    pub damage: Option<u16>,
    pub max_damage: Option<u16>,
    pub tool: Option<ToolView>,
}

/// What an item definition holds.
pub struct ItemView {
    pub id: u16,
    pub registry_key: Seq<char>,
    pub components: ComponentsView,
}

/// The character sequences of a list of strings.
pub open spec fn names_of(strings: Seq<String>) -> Seq<Seq<char>> {
    strings.map_values(|s: String| s@)
}

impl View for ToolRule {
    type V = ToolRuleView;

    open spec fn view(&self) -> ToolRuleView {
        ToolRuleView {
            blocks: names_of(self.blocks@),
            speed: self.speed,
            correct_for_drops: self.correct_for_drops,
        }
    }
}

impl View for ToolComponent {
    type V = ToolView;

    open spec fn view(&self) -> ToolView {
        ToolView {
            rules: self.rules@.map_values(|r: ToolRule| r@),
            default_mining_speed: self.default_mining_speed,
        }
    }
}

impl View for ItemComponents {
    type V = ComponentsView;

    open spec fn view(&self) -> ComponentsView {
        ComponentsView {
            damage: self.damage,
            max_damage: self.max_damage,
            tool: match self.tool {
                Some(tool) => Some(tool@),
                None => None,
            },
        }
    }
}

impl View for Item {
    type V = ItemView;

    open spec fn view(&self) -> ItemView {
        ItemView { id: self.id, registry_key: self.registry_key@, components: self.components@ }
    }
}

impl Clone for ToolRule {
    fn clone(&self) -> (copy: Self)
        ensures
            copy@ == self@,
    {
        let blocks = self.blocks.clone();
        ToolRule { blocks, speed: self.speed, correct_for_drops: self.correct_for_drops }
    }
}

impl Clone for ToolComponent {
    fn clone(&self) -> (copy: Self)
        ensures
            copy@ == self@,
    {
        let rules = self.rules.clone();
        assert(rules@.map_values(|r: ToolRule| r@) =~= self.rules@.map_values(|r: ToolRule| r@));
        ToolComponent { rules, default_mining_speed: self.default_mining_speed }
    }
}

impl Clone for ItemComponents {
    fn clone(&self) -> (copy: Self)
        ensures
            copy@ == self@,
    {
        let tool = match &self.tool {
            Some(tool) => Some(tool.clone()),
            None => None,
        };
        ItemComponents { damage: self.damage, max_damage: self.max_damage, tool }
    }
}

impl Clone for Item {
    fn clone(&self) -> (copy: Self)
        ensures
            copy@ == self@,
    {
        Item {
            id: self.id,
            registry_key: self.registry_key.clone(),
            components: self.components.clone(),
        }
    }
}

} // verus!
