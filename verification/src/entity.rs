//! The remote presence record mirrored to the home-automation backend.

use vstd::prelude::*;

verus! {

/// The mathematical value of an [`EntityAttributes`].
pub ghost struct EntityAttributesView {
    pub friendly_name: Seq<char>,
    pub last_seen_local: u64,
    pub last_seen: u32,
    pub restart_count: u16,
}

/// The attribute mapping carried by a presence entity: a display name, and
/// the replay metadata of the richer sync variant.
#[derive(Clone, Debug, PartialEq)]
pub struct EntityAttributes {
    pub friendly_name: String,
    pub last_seen_local: u64,
    pub last_seen: u32,
    pub restart_count: u16,
}

impl View for EntityAttributes {
    type V = EntityAttributesView;

    open spec fn view(&self) -> EntityAttributesView {
        EntityAttributesView {
            friendly_name: self.friendly_name@,
            last_seen_local: self.last_seen_local,
            last_seen: self.last_seen,
            restart_count: self.restart_count,
        }
    }
}

/// The attribute mapping with an empty name and zero metadata.
pub open spec fn default_attributes_view() -> EntityAttributesView {
    EntityAttributesView {
        friendly_name: Seq::<char>::empty(),
        last_seen_local: 0,
        last_seen: 0,
        restart_count: 0,
    }
}

impl Default for EntityAttributes {
    fn default() -> (d: EntityAttributes)
        ensures
            d@ == default_attributes_view(),
    {
        EntityAttributes {
            friendly_name: String::new(),
            last_seen_local: 0,
            last_seen: 0,
            restart_count: 0,
        }
    }
}

/// The mathematical value of an [`Entity`].
pub ghost struct EntityView {
    pub entity_id: Seq<char>,
    pub state: Seq<char>,
    pub attributes: EntityAttributesView,
}

/// A remote presence record: created on first write if absent, otherwise
/// overwritten in place, never deleted by this system.
#[derive(Clone, Debug, PartialEq)]
pub struct Entity {
    pub entity_id: String,
    /// `"on"` or `"off"`.
    pub state: String,
    pub attributes: EntityAttributes,
}

impl View for Entity {
    type V = EntityView;

    open spec fn view(&self) -> EntityView {
        EntityView { entity_id: self.entity_id@, state: self.state@, attributes: self.attributes@ }
    }
}

/// The entity with empty identifiers and default attributes.
pub open spec fn default_entity_view() -> EntityView {
    EntityView {
        entity_id: Seq::<char>::empty(),
        state: Seq::<char>::empty(),
        attributes: default_attributes_view(),
    }
}

impl Default for Entity {
    fn default() -> (d: Entity)
        ensures
            d@ == default_entity_view(),
    {
        Entity {
            entity_id: String::new(),
            state: String::new(),
            attributes: EntityAttributes::default(),
        }
    }
}

} // verus!
