use tag_access::entity::{Entity, EntityAttributes};
use tag_access::error::ErrorKind;
use tag_access::sync::{
    entity_id_for, get_entity_state, trigger_off, trigger_on, update_entity_state, ReadOutcome,
};

#[test]
fn canonical_id_replaces_colons() {
    assert_eq!(
        entity_id_for("AA:BB:CC:DD:EE:FF"),
        "binary_sensor.AA_BB_CC_DD_EE_FF"
    );
}

#[test]
fn canonical_id_of_plain_name_keeps_it() {
    assert_eq!(entity_id_for("kitchen"), "binary_sensor.kitchen");
}

#[test]
fn trigger_on_synthesizes_absent_entity() {
    let ent = trigger_on(ReadOutcome::Absent, "AA:BB", "Alice's tag".to_string()).unwrap();
    assert_eq!(ent.entity_id, "binary_sensor.AA_BB");
    assert_eq!(ent.state, "on");
    assert_eq!(ent.attributes.friendly_name, "Alice's tag");
    assert_eq!(ent.attributes.last_seen_local, 0);
    assert_eq!(ent.attributes.last_seen, 0);
    assert_eq!(ent.attributes.restart_count, 0);
}

#[test]
fn trigger_on_keeps_observed_attributes() {
    let prev = Entity {
        entity_id: "binary_sensor.AA_BB".to_string(),
        state: "off".to_string(),
        attributes: EntityAttributes {
            friendly_name: "old name".to_string(),
            last_seen_local: 123,
            last_seen: 45,
            restart_count: 6,
        },
    };
    let ent = trigger_on(ReadOutcome::Found(prev), "AA:BB", "new name".to_string()).unwrap();
    assert_eq!(ent.state, "on");
    assert_eq!(ent.attributes.friendly_name, "new name");
    assert_eq!(ent.attributes.last_seen_local, 123);
    assert_eq!(ent.attributes.last_seen, 45);
    assert_eq!(ent.attributes.restart_count, 6);
}

#[test]
fn trigger_on_twice_converges() {
    let first = trigger_on(ReadOutcome::Absent, "AA:BB", "tag".to_string()).unwrap();
    let second = trigger_on(
        ReadOutcome::Found(first.clone()),
        "AA:BB",
        "tag".to_string(),
    )
    .unwrap();
    assert_eq!(first, second);
    assert_eq!(second.state, "on");
}

#[test]
fn trigger_off_plans_off_state() {
    let ent = trigger_off(ReadOutcome::Absent, "AA:BB", "tag".to_string()).unwrap();
    assert_eq!(ent.entity_id, "binary_sensor.AA_BB");
    assert_eq!(ent.state, "off");
    assert_eq!(ent.attributes.friendly_name, "tag");
}

#[test]
fn trigger_off_twice_converges() {
    let first = trigger_off(ReadOutcome::Absent, "AA:BB", "tag".to_string()).unwrap();
    let second = trigger_off(
        ReadOutcome::Found(first.clone()),
        "AA:BB",
        "tag".to_string(),
    )
    .unwrap();
    assert_eq!(first, second);
}

#[test]
fn read_failure_aborts_the_sync_attempt() {
    let e = trigger_on(
        ReadOutcome::Failed("connection refused".to_string()),
        "AA:BB",
        "tag".to_string(),
    )
    .unwrap_err();
    assert_eq!(e.kind, ErrorKind::BackendRead);
    assert_eq!(e.message, "connection refused");
}

#[test]
fn get_entity_state_defaults_when_absent() {
    let a = get_entity_state(ReadOutcome::Absent, "tag".to_string()).unwrap();
    assert_eq!(a.friendly_name, "tag");
    assert_eq!(a.last_seen_local, 0);
}

#[test]
fn get_entity_state_returns_found_attributes() {
    let prev = Entity {
        entity_id: "binary_sensor.x".to_string(),
        state: "on".to_string(),
        attributes: EntityAttributes {
            friendly_name: "kept".to_string(),
            last_seen_local: 9,
            last_seen: 8,
            restart_count: 7,
        },
    };
    let a = get_entity_state(ReadOutcome::Found(prev), "ignored".to_string()).unwrap();
    assert_eq!(a.friendly_name, "kept");
    assert_eq!(a.last_seen_local, 9);
}

#[test]
fn update_entity_state_replaces_attributes_wholesale() {
    let attrs = EntityAttributes {
        friendly_name: "tag".to_string(),
        last_seen_local: 1000,
        last_seen: 100,
        restart_count: 1,
    };
    let ent = update_entity_state(ReadOutcome::Absent, attrs.clone(), "AA:BB").unwrap();
    assert_eq!(ent.entity_id, "binary_sensor.AA_BB");
    assert_eq!(ent.state, "off");
    assert_eq!(ent.attributes, attrs);

    let prev = Entity {
        entity_id: "binary_sensor.kept".to_string(),
        state: "on".to_string(),
        attributes: EntityAttributes::default(),
    };
    let ent = update_entity_state(ReadOutcome::Found(prev), attrs.clone(), "AA:BB").unwrap();
    assert_eq!(ent.entity_id, "binary_sensor.kept");
    assert_eq!(ent.state, "on");
    assert_eq!(ent.attributes, attrs);
}

#[test]
fn update_entity_state_read_failure_aborts() {
    let e = update_entity_state(
        ReadOutcome::Failed("boom".to_string()),
        EntityAttributes::default(),
        "AA:BB",
    )
    .unwrap_err();
    assert_eq!(e.kind, ErrorKind::BackendRead);
}
