use pumpkin_item::definition::{Item, ItemComponents};
use pumpkin_item::item::{ItemStack, Rarity, DAMAGE_STEP};

fn worn_item(id: u16, damage: Option<u16>, max_damage: Option<u16>) -> Item {
    Item {
        id,
        registry_key: String::from("iron_hoe"),
        components: ItemComponents { damage, max_damage, tool: None },
    }
}

fn worn_stack(damage: Option<u16>, max_damage: Option<u16>) -> ItemStack {
    ItemStack::new(1, worn_item(7, damage, max_damage))
}

#[test]
fn new_takes_count_and_item_as_they_are() {
    let stack = ItemStack::new(64, worn_item(7, None, None));
    assert_eq!(stack.item_count, 64);
    assert_eq!(stack.item.id, 7);
    assert_eq!(stack.item.registry_key, "iron_hoe");
    let empty = ItemStack::new(0, worn_item(7, None, None));
    assert_eq!(empty.item_count, 0);
    let full = ItemStack::new(255, worn_item(7, None, None));
    assert_eq!(full.item_count, 255);
}

#[test]
fn damage_step_is_three() {
    assert_eq!(DAMAGE_STEP, 3);
}

#[test]
fn damage_item_adds_the_step() {
    let mut stack = worn_stack(Some(5), Some(10));
    stack.damage_item();
    assert_eq!(stack.item.components.damage, Some(8));
    assert_eq!(stack.item.components.max_damage, Some(10));
    assert_eq!(stack.item_count, 1);
    assert_eq!(stack.item.id, 7);
}

#[test]
fn damage_item_from_zero() {
    let mut stack = worn_stack(Some(0), Some(250));
    stack.damage_item();
    assert_eq!(stack.item.components.damage, Some(3));
    stack.damage_item();
    assert_eq!(stack.item.components.damage, Some(6));
}

#[test]
fn damage_item_stops_at_the_full_durability() {
    let mut stack = worn_stack(Some(9), Some(10));
    assert!(!stack.is_broken());
    stack.damage_item();
    assert_eq!(stack.item.components.damage, Some(10));
    assert_eq!(stack.item.components.max_damage, Some(10));
    assert!(stack.is_broken());
    stack.damage_item();
    assert_eq!(stack.item.components.damage, Some(10));
    let mut two_short = worn_stack(Some(8), Some(10));
    two_short.damage_item();
    assert_eq!(two_short.item.components.damage, Some(10));
    assert!(two_short.is_broken());
    let mut three_short = worn_stack(Some(7), Some(10));
    three_short.damage_item();
    assert_eq!(three_short.item.components.damage, Some(10));
    assert!(three_short.is_broken());
    let mut four_short = worn_stack(Some(6), Some(10));
    four_short.damage_item();
    assert_eq!(four_short.item.components.damage, Some(9));
    assert!(!four_short.is_broken());
    four_short.damage_item();
    assert_eq!(four_short.item.components.damage, Some(10));
    assert!(four_short.is_broken());
}

#[test]
fn damage_item_wears_a_stack_out_in_steps() {
    let mut stack = worn_stack(Some(0), Some(10));
    let mut seen = Vec::new();
    while !stack.is_broken() {
        stack.damage_item();
        seen.push(stack.item.components.damage.unwrap());
    }
    assert_eq!(seen, vec![3, 6, 9, 10]);
    let mut one = worn_stack(Some(0), Some(1));
    one.damage_item();
    assert_eq!(one.item.components.damage, Some(1));
    assert!(one.is_broken());
}

#[test]
fn damage_item_at_the_top_of_the_range() {
    let mut stack = worn_stack(Some(65532), Some(65535));
    stack.damage_item();
    assert_eq!(stack.item.components.damage, Some(65535));
    assert!(stack.is_broken());
    let mut last = worn_stack(Some(65534), Some(65535));
    last.damage_item();
    assert_eq!(last.item.components.damage, Some(65535));
    assert!(last.is_broken());
    let mut near = worn_stack(Some(65533), Some(65534));
    near.damage_item();
    assert_eq!(near.item.components.damage, Some(65534));
    assert!(near.is_broken());
    let mut far = worn_stack(Some(65530), Some(65535));
    far.damage_item();
    assert_eq!(far.item.components.damage, Some(65533));
    assert!(!far.is_broken());
}

#[test]
fn damage_item_leaves_a_broken_stack() {
    let mut stack = worn_stack(Some(10), Some(10));
    assert!(stack.is_broken());
    stack.damage_item();
    assert_eq!(stack.item.components.damage, Some(10));
    assert_eq!(stack.item.components.max_damage, Some(10));
    let mut one = worn_stack(Some(1), Some(1));
    assert!(one.is_broken());
    one.damage_item();
    assert_eq!(one.item.components.damage, Some(1));
    let mut past = worn_stack(Some(40), Some(10));
    assert!(past.is_broken());
    past.damage_item();
    assert_eq!(past.item.components.damage, Some(40));
}

#[test]
fn zero_full_durability_never_breaks_and_never_wears() {
    let mut fresh = worn_stack(Some(0), Some(0));
    assert!(!fresh.is_broken());
    fresh.damage_item();
    assert_eq!(fresh.item.components.damage, Some(0));
    assert!(!fresh.is_broken());
    let mut odd = worn_stack(Some(5), Some(0));
    assert!(!odd.is_broken());
    odd.damage_item();
    assert_eq!(odd.item.components.damage, Some(5));
    assert_eq!(odd.item.components.max_damage, Some(0));
}

#[test]
fn damage_item_without_durability_does_nothing() {
    let mut none = worn_stack(None, None);
    none.damage_item();
    assert_eq!(none.item.components.damage, None);
    assert_eq!(none.item.components.max_damage, None);
    let mut only_damage = worn_stack(Some(4), None);
    only_damage.damage_item();
    assert_eq!(only_damage.item.components.damage, Some(4));
    assert_eq!(only_damage.item.components.max_damage, None);
    let mut only_max = worn_stack(None, Some(9));
    only_max.damage_item();
    assert_eq!(only_max.item.components.damage, None);
    assert_eq!(only_max.item.components.max_damage, Some(9));
}

#[test]
fn is_broken_needs_both_fields() {
    assert!(!worn_stack(None, None).is_broken());
    assert!(!worn_stack(Some(10), None).is_broken());
    assert!(!worn_stack(None, Some(10)).is_broken());
    assert!(!worn_stack(Some(9), Some(10)).is_broken());
    assert!(worn_stack(Some(10), Some(10)).is_broken());
    assert!(worn_stack(Some(11), Some(10)).is_broken());
    assert!(worn_stack(Some(65535), Some(65535)).is_broken());
}

#[test]
fn stacks_are_equal_by_kind() {
    let one = ItemStack::new(1, worn_item(7, Some(5), Some(10)));
    let many = ItemStack::new(64, worn_item(7, None, None));
    let other = ItemStack::new(1, worn_item(8, Some(5), Some(10)));
    assert!(one == many);
    assert!(many == one);
    assert!(one != other);
    assert!(one == one.clone());
}

#[test]
fn clone_keeps_the_stack() {
    let stack = ItemStack::new(3, worn_item(7, Some(5), Some(10)));
    let copy = stack.clone();
    assert_eq!(copy.item_count, 3);
    assert_eq!(copy.item.id, 7);
    assert_eq!(copy.item.registry_key, "iron_hoe");
    assert_eq!(copy.item.components.damage, Some(5));
    assert_eq!(copy.item.components.max_damage, Some(10));
}

#[test]
fn rarity_variants_differ() {
    assert_eq!(Rarity::Common, Rarity::Common);
    assert_ne!(Rarity::Common, Rarity::UnCommon);
    assert_ne!(Rarity::UnCommon, Rarity::Rare);
    assert_ne!(Rarity::Rare, Rarity::Epic);
    assert_eq!(Rarity::Epic.clone(), Rarity::Epic);
}
