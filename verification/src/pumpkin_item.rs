//! What an item behaviour says of itself.

use vstd::prelude::*;
use crate::registry::{Registry, RegistryView};

verus! {

/// The item kinds that a behaviour is for.
pub trait ItemMetadata {
    /// Whether `registry` holds what `ids` looks up.
    spec fn ids_resolve(registry: RegistryView) -> bool;

    /// The ids of the kinds, as `registry` has them.
    spec fn spec_ids(registry: RegistryView) -> Seq<u16>;

    /// The ids of the kinds that the behaviour is for.
    fn ids(registry: &Registry) -> (ids: Box<[u16]>)
        requires
            Self::ids_resolve(registry@),
        ensures
            ids@ == Self::spec_ids(registry@),
    ;
}

} // verus!
