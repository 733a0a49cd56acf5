//! Item stacks: durability, tool rules and the persisted record of a stack.
//!
//! An [`item::ItemStack`] is a count of items of one kind together with the
//! wear of that stack. Its tool rules say how fast it mines a material and
//! whether it is the right tool for the material's drops ([`rules`]); rules
//! may name materials through tags, which a [`registry::Registry`] resolves.
//! A stack is kept as a record of named values ([`nbt`], [`codec`]).
//!
//! Every function states what it returns over the view of its arguments,
//! and the laws that relate the functions are proved beside them.

pub mod codec;
pub mod definition;
pub mod hoe;
pub mod item;
pub mod nbt;
pub mod pumpkin_item;
pub mod registry;
pub mod rules;
pub mod text;
