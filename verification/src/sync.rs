//! Planning of the presence-record reconciliation.
//!
//! The protocol against the backend is read-then-write: read the entity by
//! its canonical id (absent is not an error — a default entity is
//! synthesized), build the new record, write it back with upsert semantics.
//! The functions here take the outcome of the read and decide what to write;
//! performing the read and the write is the transport's business. A read
//! failure aborts the sync attempt; a write failure is best-effort telemetry
//! loss and must be swallowed by the caller.

use vstd::prelude::*;
use vstd::string::StrSliceExecFns;
use vstd::string::StringExecFns;

use crate::entity::{
    default_attributes_view, Entity, EntityAttributes, EntityAttributesView, EntityView,
};
use crate::error::{Error, ErrorKind};
use crate::strutil::push_char;

verus! {

/// The address with each colon replaced by an underscore.
pub open spec fn underscored(s: Seq<char>) -> Seq<char> {
    Seq::new(s.len(), |i: int| if s[i] == ':' { '_' } else { s[i] })
}

/// The canonical id of the presence entity of a device address.
pub open spec fn entity_id_chars(device: Seq<char>) -> Seq<char> {
    "binary_sensor."@ + underscored(device)
}

/// Formats the canonical entity id of a device address.
pub fn entity_id_for(device: &str) -> (r: String)
    ensures
        r@ == entity_id_chars(device@),
{
    let mut r = String::new();
    r.append("binary_sensor.");
    let len = device.unicode_len();
    let mut i: usize = 0;
    while i < len
        invariant
            len == device@.len(),
            i <= len,
            r@ == "binary_sensor."@ + underscored(device@).take(i as int),
        decreases len - i,
    {
        let c = device.get_char(i);
        let mapped = if c == ':' {
            '_'
        } else {
            c
        };
        push_char(&mut r, mapped);
        proof {
            assert(underscored(device@).take(i + 1) =~= underscored(device@).take(i as int).push(
                mapped,
            ));
        }
        i += 1;
    }
    proof {
        assert(underscored(device@).take(len as int) =~= underscored(device@));
    }
    r
}

/// What reading the remote entity produced: the entity, a 404 (the entity
/// does not yet exist — not an error), or a read failure.
pub enum ReadOutcome {
    Found(Entity),
    Absent,
    Failed(String),
}

/// The prior attributes a write builds on: the read entity's, or defaults.
pub open spec fn prior_attributes(prev: Option<EntityView>) -> EntityAttributesView {
    match prev {
        Some(e) => e.attributes,
        None => default_attributes_view(),
    }
}

/// The entity one `trigger on` write puts at the backend: the canonical id,
/// state `"on"`, the given display name, and whatever other attributes the
/// read observed.
pub open spec fn on_entity_view(
    prev: Option<EntityView>,
    device: Seq<char>,
    name: Seq<char>,
) -> EntityView {
    EntityView {
        entity_id: entity_id_chars(device),
        state: "on"@,
        attributes: EntityAttributesView {
            friendly_name: name,
            last_seen_local: prior_attributes(prev).last_seen_local,
            last_seen: prior_attributes(prev).last_seen,
            restart_count: prior_attributes(prev).restart_count,
        },
    }
}

/// The entity one `trigger off` write puts at the backend.
pub open spec fn off_entity_view(
    prev: Option<EntityView>,
    device: Seq<char>,
    name: Seq<char>,
) -> EntityView {
    EntityView {
        entity_id: entity_id_chars(device),
        state: "off"@,
        attributes: EntityAttributesView {
            friendly_name: name,
            last_seen_local: prior_attributes(prev).last_seen_local,
            last_seen: prior_attributes(prev).last_seen,
            restart_count: prior_attributes(prev).restart_count,
        },
    }
}

fn keep_attributes(prev: EntityAttributes, friendly_name: String) -> (a: EntityAttributes)
    ensures
        a@ == (EntityAttributesView {
            friendly_name: friendly_name@,
            last_seen_local: prev@.last_seen_local,
            last_seen: prev@.last_seen,
            restart_count: prev@.restart_count,
        }),
{
    EntityAttributes {
        friendly_name,
        last_seen_local: prev.last_seen_local,
        last_seen: prev.last_seen,
        restart_count: prev.restart_count,
    }
}

fn backend_read_error(message: String) -> (e: Error)
    ensures
        e.kind == ErrorKind::BackendRead,
        e.message@ == message@,
{
    Error::categorized(ErrorKind::BackendRead, message)
}

/// Plans the `trigger on` write for a device: the presence entity that must
/// be posted, or the read failure that aborts this sync attempt.
pub fn trigger_on(read: ReadOutcome, device: &str, friendly_name: String) -> (r: Result<
    Entity,
    Error,
>)
    ensures
        match read {
            ReadOutcome::Found(prev) => r matches Ok(ent) && ent@ == on_entity_view(
                Some(prev@),
                device@,
                friendly_name@,
            ),
            ReadOutcome::Absent => r matches Ok(ent) && ent@ == on_entity_view(
                None,
                device@,
                friendly_name@,
            ),
            ReadOutcome::Failed(_) => r matches Err(e) && e.kind == ErrorKind::BackendRead,
        },
{
    let prev = match read {
        ReadOutcome::Found(e) => e.attributes,
        ReadOutcome::Absent => EntityAttributes::default(),
        ReadOutcome::Failed(m) => {
            return Err(backend_read_error(m));
        },
    };
    Ok(
        Entity {
            entity_id: entity_id_for(device),
            state: "on".to_owned(),
            attributes: keep_attributes(prev, friendly_name),
        },
    )
}

/// Plans the `trigger off` write for a device: the presence entity that must
/// be posted, or the read failure that aborts this sync attempt.
pub fn trigger_off(read: ReadOutcome, device: &str, friendly_name: String) -> (r: Result<
    Entity,
    Error,
>)
    ensures
        match read {
            ReadOutcome::Found(prev) => r matches Ok(ent) && ent@ == off_entity_view(
                Some(prev@),
                device@,
                friendly_name@,
            ),
            ReadOutcome::Absent => r matches Ok(ent) && ent@ == off_entity_view(
                None,
                device@,
                friendly_name@,
            ),
            ReadOutcome::Failed(_) => r matches Err(e) && e.kind == ErrorKind::BackendRead,
        },
{
    let prev = match read {
        ReadOutcome::Found(e) => e.attributes,
        ReadOutcome::Absent => EntityAttributes::default(),
        ReadOutcome::Failed(m) => {
            return Err(backend_read_error(m));
        },
    };
    Ok(
        Entity {
            entity_id: entity_id_for(device),
            state: "off".to_owned(),
            attributes: keep_attributes(prev, friendly_name),
        },
    )
}

/// Interprets a read of the remote entity as its attribute mapping: absent
/// synthesizes default attributes carrying the display name, a failure
/// aborts.
pub fn get_entity_state(read: ReadOutcome, name: String) -> (r: Result<EntityAttributes, Error>)
    ensures
        match read {
            ReadOutcome::Found(prev) => r matches Ok(a) && a@ == prev@.attributes,
            ReadOutcome::Absent => r matches Ok(a) && a@ == (EntityAttributesView {
                friendly_name: name@,
                last_seen_local: 0,
                last_seen: 0,
                restart_count: 0,
            }),
            ReadOutcome::Failed(_) => r matches Err(e) && e.kind == ErrorKind::BackendRead,
        },
{
    match read {
        ReadOutcome::Found(e) => Ok(e.attributes),
        ReadOutcome::Absent => {
            let mut a = EntityAttributes::default();
            a.friendly_name = name;
            Ok(a)
        },
        ReadOutcome::Failed(m) => Err(backend_read_error(m)),
    }
}

/// Plans the write that replaces the remote entity's attributes wholesale:
/// an absent entity is synthesized with the canonical id and state `"off"`, a
/// found one keeps its id and state.
pub fn update_entity_state(read: ReadOutcome, attributes: EntityAttributes, device: &str) -> (r:
    Result<Entity, Error>)
    ensures
        match read {
            ReadOutcome::Found(prev) => r matches Ok(ent) && ent@ == (EntityView {
                entity_id: prev@.entity_id,
                state: prev@.state,
                attributes: attributes@,
            }),
            ReadOutcome::Absent => r matches Ok(ent) && ent@ == (EntityView {
                entity_id: entity_id_chars(device@),
                state: "off"@,
                attributes: attributes@,
            }),
            ReadOutcome::Failed(_) => r matches Err(e) && e.kind == ErrorKind::BackendRead,
        },
{
    match read {
        ReadOutcome::Found(e) => Ok(
            Entity { entity_id: e.entity_id, state: e.state, attributes },
        ),
        ReadOutcome::Absent => Ok(
            Entity { entity_id: entity_id_for(device), state: "off".to_owned(), attributes },
        ),
        ReadOutcome::Failed(m) => Err(backend_read_error(m)),
    }
}

/// Sync idempotence: a second `trigger on` write that observes the first
/// one's write plans the very same entity, in state `"on"` — consecutive
/// calls converge to one remote record.
pub proof fn lemma_trigger_on_idempotent(
    prev: Option<EntityView>,
    device: Seq<char>,
    name: Seq<char>,
)
    ensures
        on_entity_view(Some(on_entity_view(prev, device, name)), device, name) == on_entity_view(
            prev,
            device,
            name,
        ),
        on_entity_view(prev, device, name).state == "on"@,
{
}

/// The same convergence for `trigger off` writes.
pub proof fn lemma_trigger_off_idempotent(
    prev: Option<EntityView>,
    device: Seq<char>,
    name: Seq<char>,
)
    ensures
        off_entity_view(Some(off_entity_view(prev, device, name)), device, name) == off_entity_view(
            prev,
            device,
            name,
        ),
        off_entity_view(prev, device, name).state == "off"@,
{
}

} // verus!
