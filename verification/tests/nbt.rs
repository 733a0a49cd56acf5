use pumpkin_item::nbt::{NbtCompound, NbtTag};

#[test]
fn new_record_has_no_fields() {
    let compound = NbtCompound::new();
    assert!(compound.child_tags.is_empty());
    assert!(compound.get("id").is_none());
    assert_eq!(compound.get_int("id"), None);
    assert!(compound.get_string("id").is_none());
    assert!(compound.get_compound("id").is_none());
}

#[test]
fn put_then_get_by_type() {
    let mut inner = NbtCompound::new();
    inner.put_int("x", -5);
    let mut compound = NbtCompound::new();
    compound.put_int("count", 7);
    compound.put_string("id", String::from("minecraft:stick"));
    compound.put_component("components", inner);
    assert_eq!(compound.get_int("count"), Some(7));
    assert_eq!(compound.get_string("id").unwrap(), "minecraft:stick");
    assert_eq!(compound.get_compound("components").unwrap().get_int("x"), Some(-5));
    assert_eq!(compound.get_int("id"), None);
    assert_eq!(compound.get_int("components"), None);
    assert!(compound.get_string("count").is_none());
    assert!(compound.get_string("components").is_none());
    assert!(compound.get_compound("count").is_none());
    assert!(compound.get_compound("id").is_none());
    assert!(compound.get("Count").is_none());
    assert!(compound.get("").is_none());
}

#[test]
fn put_replaces_the_value_in_place() {
    let mut compound = NbtCompound::new();
    compound.put_int("a", 1);
    compound.put_int("b", 2);
    compound.put_int("a", 3);
    assert_eq!(compound.get_int("a"), Some(3));
    assert_eq!(compound.get_int("b"), Some(2));
    assert_eq!(compound.child_tags.len(), 2);
    assert_eq!(compound.child_tags[0].0, "a");
    assert_eq!(compound.child_tags[1].0, "b");
    compound.put_string("b", String::from("two"));
    assert_eq!(compound.get_int("b"), None);
    assert_eq!(compound.get_string("b").unwrap(), "two");
    assert_eq!(compound.get_int("a"), Some(3));
    assert_eq!(compound.child_tags.len(), 2);
}

#[test]
fn put_takes_any_tag() {
    let mut compound = NbtCompound::new();
    compound.put("n", NbtTag::Int(i32::MIN));
    compound.put("s", NbtTag::String(String::new()));
    compound.put("c", NbtTag::Compound(NbtCompound::new()));
    assert_eq!(compound.get_int("n"), Some(i32::MIN));
    assert_eq!(compound.get_string("s").unwrap(), "");
    assert!(compound.get_compound("c").unwrap().child_tags.is_empty());
    assert!(matches!(compound.get("n"), Some(NbtTag::Int(i32::MIN))));
}

#[test]
fn first_entry_of_a_name_counts() {
    let compound = NbtCompound {
        child_tags: vec![
            (String::from("a"), NbtTag::Int(1)),
            (String::from("a"), NbtTag::Int(2)),
            (String::from("b"), NbtTag::Int(3)),
        ],
    };
    assert_eq!(compound.get_int("a"), Some(1));
    assert_eq!(compound.get_int("b"), Some(3));
    let mut changed = compound;
    changed.put_int("a", 9);
    assert_eq!(changed.get_int("a"), Some(9));
    assert_eq!(changed.child_tags.len(), 3);
    assert_eq!(changed.get_int("b"), Some(3));
}

#[test]
fn names_are_compared_whole() {
    let mut compound = NbtCompound::new();
    compound.put_int("damage", 1);
    compound.put_int("max_damage", 2);
    compound.put_int("dämage", 3);
    assert_eq!(compound.get_int("damage"), Some(1));
    assert_eq!(compound.get_int("max_damage"), Some(2));
    assert_eq!(compound.get_int("dämage"), Some(3));
    assert_eq!(compound.get_int("damag"), None);
    assert_eq!(compound.get_int("damage "), None);
    assert_eq!(compound.child_tags.len(), 3);
}

#[test]
fn clone_copies_the_whole_record() {
    let mut inner = NbtCompound::new();
    inner.put_int("damage", 5);
    let mut deeper = NbtCompound::new();
    deeper.put_string("note", String::from("deep"));
    inner.put_component("more", deeper);
    let mut compound = NbtCompound::new();
    compound.put_string("id", String::from("minecraft:stick"));
    compound.put_component("components", inner);
    let mut copy = compound.clone();
    assert_eq!(copy.child_tags.len(), 2);
    assert_eq!(copy.get_string("id").unwrap(), "minecraft:stick");
    let components = copy.get_compound("components").unwrap();
    assert_eq!(components.get_int("damage"), Some(5));
    assert_eq!(components.get_compound("more").unwrap().get_string("note").unwrap(), "deep");
    copy.put_int("id", 1);
    assert_eq!(compound.get_string("id").unwrap(), "minecraft:stick");
    assert_eq!(copy.get_int("id"), Some(1));
    let tag = NbtTag::Int(4).clone();
    assert!(matches!(tag, NbtTag::Int(4)));
}
