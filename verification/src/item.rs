//! Item stacks: a count of items of one kind, with the wear of that stack.

use vstd::prelude::*;
use vstd::std_specs::cmp::PartialEqSpecImpl;
use crate::definition::{ComponentsView, Item, ItemView, MiningSpeed};
use crate::registry::{Registry, TagTable};
use crate::rules::{
    deciding_rule, lemma_deciding_rule_unique, lemma_no_deciding_rule, Concern,
};

verus! {

/// By how much one use wears a stack, at most.
pub const DAMAGE_STEP: u16 = 3;

/// Item rarity.
#[derive(Clone, Copy, Debug, PartialEq, Eq, Structural)]
pub enum Rarity {
    Common,
    UnCommon,
    Rare,
    Epic,
}

/// A stack of items of one kind. The item is the stack's own copy of the
/// definition: its durability departs from the catalog's as the stack wears.
#[derive(Debug)]
pub struct ItemStack {
    /// How many items the stack holds. A stack in use holds at least one;
    /// zero marks a stack to be removed. The library takes any count.
    pub item_count: u8,
    pub item: Item,
}

/// What a stack holds.
pub struct ItemStackView {
    pub item_count: u8,
    pub item: ItemView,
}

impl View for ItemStack {
    type V = ItemStackView;

    open spec fn view(&self) -> ItemStackView {
        ItemStackView { item_count: self.item_count, item: self.item@ }
    }
}

impl ItemStackView {
    /// Whether the stack tracks durability and has used all of it up. A stack
    /// whose full durability is zero is never broken.
    pub open spec fn is_broken(self) -> bool {
        match (self.item.components.damage, self.item.components.max_damage) {
            (Some(damage), Some(max_damage)) => max_damage > 0 && damage >= max_damage,
            _ => false,
        }
    }

    /// Whether a use wears the stack: it tracks durability, has some to begin
    /// with, and is not broken.
    pub open spec fn wears(self) -> bool {
        match (self.item.components.damage, self.item.components.max_damage) {
            (Some(damage), Some(max_damage)) => max_damage > 0 && damage < max_damage,
            _ => false,
        }
    }

    /// The stack with `damage` in place of its damage.
    pub open spec fn with_damage(self, damage: Option<u16>) -> ItemStackView {
        ItemStackView {
            item_count: self.item_count,
            item: ItemView {
                id: self.item.id,
                registry_key: self.item.registry_key,
                components: ComponentsView {
                    damage: damage,
                    max_damage: self.item.components.max_damage,
                    tool: self.item.components.tool,
                },
            },
        }
    }

    /// The stack after one use: a stack that wears has a step more damage,
    /// and its full durability where the step would take it past that.
    pub open spec fn used(self) -> ItemStackView {
        if self.wears() {
            let damage = self.item.components.damage->0;
            let max_damage = self.item.components.max_damage->0;
            self.with_damage(
                Some(
                    if max_damage - damage <= DAMAGE_STEP {
                        max_damage
                    } else {
                        (damage + DAMAGE_STEP) as u16
                    },
                ),
            )
        } else {
            self
        }
    }

    /// The mining speed of the stack against `block`; the normal speed where
    /// the item is no tool.
    pub open spec fn speed_for(self, block: Seq<char>, tags: TagTable) -> MiningSpeed {
        match self.item.components.tool {
            Some(tool) => tool.speed_for(block, tags),
            None => MiningSpeed::spec_normal(),
        }
    }

    /// Whether the stack is the right tool for the drops of `block`.
    pub open spec fn correct_for_drops(self, block: Seq<char>, tags: TagTable) -> bool {
        match self.item.components.tool {
            Some(tool) => tool.correct_for_drops(block, tags),
            None => false,
        }
    }
}

impl Clone for ItemStack {
    fn clone(&self) -> (copy: Self)
        ensures
            copy@ == self@,
    {
        ItemStack { item_count: self.item_count, item: self.item.clone() }
    }
}

/// A stack whose item is no tool has the normal speed against every
/// material, and is the right tool for the drops of none.
pub proof fn law_no_tool(stack: ItemStackView, block: Seq<char>, tags: TagTable)
    requires
        stack.item.components.tool is None,
    ensures
        stack.speed_for(block, tags) == MiningSpeed::spec_normal(),
        !stack.correct_for_drops(block, tags),
{
}

/// A stack whose damage has reached its full durability, which is not zero,
/// is broken, and a use leaves it as it is.
pub proof fn law_worn_out_stack_stays(stack: ItemStackView)
    requires
        stack.item.components.damage is Some,
        stack.item.components.damage == stack.item.components.max_damage,
        stack.item.components.max_damage->0 > 0,
    ensures
        stack.is_broken(),
        stack.used() == stack,
{
}

/// A broken stack is not worn further.
pub proof fn law_broken_stack_stays(stack: ItemStackView)
    requires
        stack.is_broken(),
    ensures
        stack.used() == stack,
{
}

/// A stack whose full durability is zero is never broken, and a use leaves
/// it as it is.
pub proof fn law_zero_durability(stack: ItemStackView)
    requires
        stack.item.components.max_damage == Some(0u16),
    ensures
        !stack.is_broken(),
        stack.used() == stack,
{
}

/// A use changes nothing of a stack but its damage, which it never lowers.
/// The damage of a stack that wears grows by the step, or up to the full
/// durability where that is nearer.
pub proof fn law_use_only_adds_damage(stack: ItemStackView)
    ensures
        stack.used() == stack.with_damage(stack.used().item.components.damage),
        stack.wears() ==> {
            let damage = stack.item.components.damage->0;
            let max_damage = stack.item.components.max_damage->0;
            let after = stack.used().item.components.damage->0;
            &&& stack.used().item.components.damage is Some
            &&& damage < after <= damage + DAMAGE_STEP
            &&& after == damage + DAMAGE_STEP || after == max_damage
        },
        !stack.wears() ==> stack.used() == stack,
{
}

/// A use never takes the damage of a stack past its full durability: a stack
/// whose damage is within its full durability stays so.
pub proof fn law_damage_stays_within_durability(stack: ItemStackView)
    requires
        stack.item.components.damage is Some,
        stack.item.components.max_damage is Some,
        stack.item.components.damage->0 <= stack.item.components.max_damage->0,
    ensures
        stack.used().item.components.damage is Some,
        stack.used().item.components.max_damage == stack.item.components.max_damage,
        stack.used().item.components.damage->0 <= stack.item.components.max_damage->0,
{
}

/// A stack that wears is broken after a use exactly if the step reaches its
/// full durability.
pub proof fn law_last_use_breaks(stack: ItemStackView)
    requires
        stack.wears(),
    ensures
        stack.used().is_broken() <==> stack.item.components.max_damage->0
            - stack.item.components.damage->0 <= DAMAGE_STEP,
{
}

impl PartialEq for ItemStack {
    /// Stacks are equal when they hold the same kind of item, whatever their
    /// counts and wear.
    fn eq(&self, other: &Self) -> (same: bool) {
        self.item.id == other.item.id
    }
}

impl PartialEqSpecImpl for ItemStack {
    open spec fn obeys_eq_spec() -> bool {
        true
    }

    open spec fn eq_spec(&self, other: &Self) -> bool {
        self.item.id == other.item.id
    }
}

impl ItemStack {
    /// A stack of `item_count` items. The count is taken as it is.
    pub fn new(item_count: u8, item: Item) -> (stack: ItemStack)
        ensures
            stack.item_count == item_count,
            stack.item == item,
    {
        ItemStack { item_count, item }
    }

    /// Wears the stack by one use. A stack that tracks no durability, one
    /// whose full durability is zero and one that is broken stay as they are.
    /// The damage of any other stack grows by the step, but not past its full
    /// durability.
    pub fn damage_item(&mut self)
        ensures
            final(self)@ == old(self)@.used(),
            old(self)@.is_broken() ==> final(self)@ == old(self)@,
            old(self)@.item.components.max_damage == Some(0u16) ==> final(self)@ == old(self)@,
            old(self)@.wears() ==> final(self)@.item.components.damage is Some
                && final(self)@.item.components.damage->0
                <= old(self)@.item.components.max_damage->0,
    {
        match (self.item.components.damage, self.item.components.max_damage) {
            (Some(damage), Some(max_damage)) => {
                if max_damage == 0 {
                    return ;
                }
                if damage >= max_damage {
                    return ;
                }
                let worn: u16 = if max_damage - damage <= DAMAGE_STEP {
                    max_damage
                } else {
                    damage + DAMAGE_STEP
                };
                self.item.components.damage = Some(worn);
            },
            _ => {},
        }
    }

    /// Whether the stack has used up its durability.
    pub fn is_broken(&self) -> (broken: bool)
        ensures
            broken == self@.is_broken(),
            broken <==> self@.item.components.damage is Some
                && self@.item.components.max_damage is Some
                && self@.item.components.max_damage->0 > 0
                && self@.item.components.damage->0 >= self@.item.components.max_damage->0,
            self@.item.components.max_damage == Some(0u16) ==> !broken,
    {
        match (self.item.components.damage, self.item.components.max_damage) {
            (Some(damage), Some(max_damage)) => max_damage > 0 && damage >= max_damage,
            _ => false,
        }
    }

    /// The mining speed of the stack against `block`, with tags resolved in
    /// `registry`.
    pub fn get_speed(&self, block: &str, registry: &Registry) -> (speed: MiningSpeed)
        ensures
            speed == self@.speed_for(block@, registry@.block_tags),
            self@.item.components.tool is None ==> speed == MiningSpeed::spec_normal(),
    {
        let tool = match &self.item.components.tool {
            Some(tool) => tool,
            None => {
                return MiningSpeed::normal();
            },
        };
        let mut i: usize = 0;
        while i < tool.rules.len()
            invariant
                i <= tool.rules.len(),
                self.item.components.tool == Some(*tool),
                forall|k: int|
                    0 <= k < i ==> !(#[trigger] tool@.rules[k]).applies(
                        Concern::Speed,
                        block@,
                        registry@.block_tags,
                    ),
            decreases tool.rules.len() - i,
        {
            let rule = &tool.rules[i];
            match rule.speed {
                Some(speed) => {
                    if rule.names_block(block, registry) {
                        proof {
                            lemma_deciding_rule_unique(
                                tool@.rules,
                                Concern::Speed,
                                block@,
                                registry@.block_tags,
                                i as int,
                            );
                        }
                        return speed;
                    }
                },
                None => {},
            }
            i += 1;
        }
        proof {
            lemma_no_deciding_rule(tool@.rules, Concern::Speed, block@, registry@.block_tags);
        }
        match tool.default_mining_speed {
            Some(speed) => speed,
            None => MiningSpeed::normal(),
        }
    }

    /// Whether the stack is the right tool for the drops of `block`, with
    /// tags resolved in `registry`.
    pub fn is_correct_for_drops(&self, block: &str, registry: &Registry) -> (correct: bool)
        ensures
            correct == self@.correct_for_drops(block@, registry@.block_tags),
            self@.item.components.tool is None ==> !correct,
    {
        let tool = match &self.item.components.tool {
            Some(tool) => tool,
            None => {
                return false;
            },
        };
        let mut i: usize = 0;
        while i < tool.rules.len()
            invariant
                i <= tool.rules.len(),
                self.item.components.tool == Some(*tool),
                forall|k: int|
                    0 <= k < i ==> !(#[trigger] tool@.rules[k]).applies(
                        Concern::Drops,
                        block@,
                        registry@.block_tags,
                    ),
            decreases tool.rules.len() - i,
        {
            let rule = &tool.rules[i];
            match rule.correct_for_drops {
                Some(correct_for_drops) => {
                    if rule.names_block(block, registry) {
                        proof {
                            lemma_deciding_rule_unique(
                                tool@.rules,
                                Concern::Drops,
                                block@,
                                registry@.block_tags,
                                i as int,
                            );
                        }
                        return correct_for_drops;
                    }
                },
                None => {},
            }
            i += 1;
        }
        proof {
            lemma_no_deciding_rule(tool@.rules, Concern::Drops, block@, registry@.block_tags);
        }
        false
    }
}

} // verus!
