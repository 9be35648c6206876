use aes::cipher::{Array, BlockCipherEncrypt, KeyInit};
use aes::Aes128;

use tag_access::config::{Config, Device, HomeAssistant};
use tag_access::error::ErrorKind;
use tag_access::pipeline::{query_device, Advertisement, DenyReason};
use tag_access::policy::Weekday;
use tag_access::replay::ReplayStore;

const ADDRESS: &str = "AA:BB:CC:DD:EE:FF";
const KEY: [u8; 16] = [
    0x2b, 0x7e, 0x15, 0x16, 0x28, 0xae, 0xd2, 0xa6, 0xab, 0xf7, 0x15, 0x88, 0x09, 0xcf, 0x4f,
    0x3c,
];
const DEVICE_ID: [u8; 10] = [0xd0, 0xd1, 0xd2, 0xd3, 0xd4, 0xd5, 0xd6, 0xd7, 0xd8, 0xd9];
const MANUFACTURER: u16 = 89;

fn hex_tokens(bytes: &[u8]) -> String {
    bytes
        .iter()
        .map(|b| format!("0x{:02X}", b))
        .collect::<Vec<_>>()
        .join(", ")
}

/// `nonce || AES128_encrypt((id || reserved || timestamp) XOR (nonce || nonce))`.
fn seal(key: &[u8; 16], id: &[u8; 10], timestamp: u32) -> Vec<u8> {
    let nonce = [0x01, 0x23, 0x45, 0x67, 0x89, 0xab, 0xcd, 0xef];
    let mut plain = [0u8; 16];
    plain[0..10].copy_from_slice(id);
    plain[12..16].copy_from_slice(&timestamp.to_be_bytes());
    let mut whitened = [0u8; 16];
    for i in 0..16 {
        whitened[i] = plain[i] ^ nonce[i % 8];
    }
    let cipher = Aes128::new(&Array::from(*key));
    let mut block = Array::from(whitened);
    cipher.encrypt_block(&mut block);
    let mut payload = Vec::new();
    payload.extend_from_slice(&nonce);
    payload.extend_from_slice(block.as_slice());
    payload
}

fn config_with(key: String, device_id: String, schedule: Vec<(Weekday, Vec<String>)>) -> Config {
    Config {
        database_path: "/tmp/times.db".to_string(),
        home_assistant: HomeAssistant {
            url: "http://backend.local:8123/api/".to_string(),
            token: "SECRET-REDACTED".to_string(),
        },
        allowed_skew: 5,
        devices: vec![(
            ADDRESS.to_string(),
            Device {
                key,
                name: "front door tag".to_string(),
                device_id,
                manufacture: MANUFACTURER,
                allowed_times: schedule,
            },
        )],
    }
}

fn default_config() -> Config {
    config_with(
        hex_tokens(&KEY),
        hex_tokens(&DEVICE_ID),
        vec![(
            Weekday::Monday,
            vec!["00:00:00-23:59:59".to_string()],
        )],
    )
}

fn advertisement(payload: Vec<u8>) -> Advertisement {
    Advertisement {
        address: ADDRESS.to_string(),
        manufacturer_data: vec![(MANUFACTURER, payload)],
    }
}

#[test]
fn valid_token_in_schedule_grants_access() {
    let config = default_config();
    let adv = advertisement(seal(&KEY, &DEVICE_ID, 1000));
    let mut store = ReplayStore::new();
    let d = query_device(&config, &adv, &mut store, 1000, Weekday::Monday, 12 * 3600).unwrap();
    assert!(d.granted);
    assert_eq!(d.device, ADDRESS);
    assert_eq!(d.friendly_name, "front door tag");
    assert_eq!(d.reason, None);
    let rec = store.get_times(&ADDRESS.to_string());
    assert_eq!(rec.last_seen_local, 1000);
    assert_eq!(rec.last_seen, 1000);
}

#[test]
fn unknown_device_denies_under_its_own_address() {
    let mut config = default_config();
    config.devices.clear();
    let adv = advertisement(seal(&KEY, &DEVICE_ID, 1000));
    let mut store = ReplayStore::new();
    let d = query_device(&config, &adv, &mut store, 1000, Weekday::Monday, 12 * 3600).unwrap();
    assert!(!d.granted);
    assert_eq!(d.device, ADDRESS);
    assert_eq!(d.friendly_name, ADDRESS);
    assert_eq!(d.reason, Some(DenyReason::UnknownDevice));
    assert_eq!(store.get_times(&ADDRESS.to_string()).last_seen, 0);
}

#[test]
fn undecodable_key_denies() {
    let mut config = default_config();
    config.devices[0].1.key = "zz".to_string();
    let adv = advertisement(seal(&KEY, &DEVICE_ID, 1000));
    let mut store = ReplayStore::new();
    let d = query_device(&config, &adv, &mut store, 1000, Weekday::Monday, 12 * 3600).unwrap();
    assert_eq!(d.reason, Some(DenyReason::BadKeyEncoding));
    assert_eq!(d.friendly_name, "front door tag");
}

#[test]
fn short_key_denies() {
    let mut config = default_config();
    config.devices[0].1.key = hex_tokens(&KEY[0..8]);
    let adv = advertisement(seal(&KEY, &DEVICE_ID, 1000));
    let mut store = ReplayStore::new();
    let d = query_device(&config, &adv, &mut store, 1000, Weekday::Monday, 12 * 3600).unwrap();
    assert_eq!(d.reason, Some(DenyReason::BadKeyLength));
}

#[test]
fn missing_manufacturer_entry_denies() {
    let config = default_config();
    let mut adv = advertisement(seal(&KEY, &DEVICE_ID, 1000));
    adv.manufacturer_data[0].0 = MANUFACTURER + 1;
    let mut store = ReplayStore::new();
    let d = query_device(&config, &adv, &mut store, 1000, Weekday::Monday, 12 * 3600).unwrap();
    assert_eq!(d.reason, Some(DenyReason::MissingManufacturerData));
}

#[test]
fn wrong_payload_length_denies() {
    let config = default_config();
    let mut payload = seal(&KEY, &DEVICE_ID, 1000);
    payload.pop();
    let adv = advertisement(payload);
    let mut store = ReplayStore::new();
    let d = query_device(&config, &adv, &mut store, 1000, Weekday::Monday, 12 * 3600).unwrap();
    assert_eq!(d.reason, Some(DenyReason::BadPayloadLength));
}

#[test]
fn identity_mismatch_denies_without_store_write() {
    let config = default_config();
    let mut wrong_id = DEVICE_ID;
    wrong_id[9] ^= 0x01;
    let adv = advertisement(seal(&KEY, &wrong_id, 1000));
    let mut store = ReplayStore::new();
    let d = query_device(&config, &adv, &mut store, 1000, Weekday::Monday, 12 * 3600).unwrap();
    assert!(!d.granted);
    assert_eq!(d.reason, Some(DenyReason::WrongCredential));
    let rec = store.get_times(&ADDRESS.to_string());
    assert_eq!(rec.last_seen_local, 0);
    assert_eq!(rec.last_seen, 0);
}

#[test]
fn excessive_skew_denies_without_store_write() {
    let config = default_config();
    // Zero stored record: diffLocal = 100, diffTag = 80, skew = 20 > 5.
    let adv = advertisement(seal(&KEY, &DEVICE_ID, 80));
    let mut store = ReplayStore::new();
    let d = query_device(&config, &adv, &mut store, 100, Weekday::Monday, 12 * 3600).unwrap();
    assert_eq!(d.reason, Some(DenyReason::ClockSkew));
    assert_eq!(store.get_times(&ADDRESS.to_string()).last_seen, 0);
}

#[test]
fn unscheduled_weekday_denies() {
    let config = default_config();
    let adv = advertisement(seal(&KEY, &DEVICE_ID, 1000));
    let mut store = ReplayStore::new();
    let d = query_device(&config, &adv, &mut store, 1000, Weekday::Tuesday, 12 * 3600).unwrap();
    assert_eq!(d.reason, Some(DenyReason::NoScheduleForDay));
}

#[test]
fn outside_allowed_hours_denies() {
    let config = config_with(
        hex_tokens(&KEY),
        hex_tokens(&DEVICE_ID),
        vec![(Weekday::Monday, vec!["08:00:00-09:00:00".to_string()])],
    );
    let adv = advertisement(seal(&KEY, &DEVICE_ID, 1000));
    let mut store = ReplayStore::new();
    let d = query_device(&config, &adv, &mut store, 1000, Weekday::Monday, 12 * 3600).unwrap();
    assert_eq!(d.reason, Some(DenyReason::OutsideAllowedHours));
}

#[test]
fn monotonic_update_only_advances() {
    let config = default_config();
    let mut store = ReplayStore::new();
    let dev = ADDRESS.to_string();
    store.store_times(&dev, 1000, 100);
    // Newer timestamp within tolerance: the record advances.
    let adv = advertisement(seal(&KEY, &DEVICE_ID, 150));
    let d = query_device(&config, &adv, &mut store, 1050, Weekday::Monday, 12 * 3600).unwrap();
    assert!(d.granted);
    assert_eq!(store.get_times(&dev).last_seen, 150);
    assert_eq!(store.get_times(&dev).last_seen_local, 1050);
    // Repeating the same advertisement is within tolerance but not an
    // advance: the record must not regress or change.
    let adv = advertisement(seal(&KEY, &DEVICE_ID, 150));
    let d = query_device(&config, &adv, &mut store, 1052, Weekday::Monday, 12 * 3600).unwrap();
    assert!(d.granted);
    assert_eq!(store.get_times(&dev).last_seen, 150);
    assert_eq!(store.get_times(&dev).last_seen_local, 1050);
}

#[test]
fn malformed_device_id_is_a_config_error() {
    let mut config = default_config();
    config.devices[0].1.device_id = "0x1".to_string();
    let adv = advertisement(seal(&KEY, &DEVICE_ID, 1000));
    let mut store = ReplayStore::new();
    let e = query_device(&config, &adv, &mut store, 1000, Weekday::Monday, 12 * 3600)
        .unwrap_err();
    assert_eq!(e.kind, ErrorKind::Config);
}

#[test]
fn short_device_id_is_a_config_error() {
    let mut config = default_config();
    config.devices[0].1.device_id = hex_tokens(&DEVICE_ID[0..4]);
    let adv = advertisement(seal(&KEY, &DEVICE_ID, 1000));
    let mut store = ReplayStore::new();
    let e = query_device(&config, &adv, &mut store, 1000, Weekday::Monday, 12 * 3600)
        .unwrap_err();
    assert_eq!(e.kind, ErrorKind::Config);
}

#[test]
fn malformed_schedule_range_is_a_policy_error() {
    let config = config_with(
        hex_tokens(&KEY),
        hex_tokens(&DEVICE_ID),
        vec![(Weekday::Monday, vec!["nonsense".to_string()])],
    );
    let adv = advertisement(seal(&KEY, &DEVICE_ID, 1000));
    let mut store = ReplayStore::new();
    let e = query_device(&config, &adv, &mut store, 1000, Weekday::Monday, 12 * 3600)
        .unwrap_err();
    assert_eq!(e.kind, ErrorKind::Policy);
    // The guard ran before the policy: the monotonic advance stands.
    assert_eq!(store.get_times(&ADDRESS.to_string()).last_seen, 1000);
}
