use aes::cipher::{Array, BlockCipherEncrypt, KeyInit};
use librepods::advert::{
    interpret, last_block, proximity_pattern, read_advertisement, read_batteries, read_battery,
    read_wear, BatteryReading, BatteryStatus,
};
use std::collections::HashMap;

const KEY: [u8; 16] = [7; 16];

fn payload(status: u8, block: [u8; 16]) -> Vec<u8> {
    let mut bytes = vec![0x07, 0x19, 0x01, 0x0e, 0x20, status, 0x55, 0x44, 0x33, 0x22, 0x05];
    let cipher = aes::Aes128::new(&Array::from(KEY));
    let mut buffer = Array::from(block);
    cipher.encrypt_block(&mut buffer);
    let ciphered: [u8; 16] = buffer.into();
    bytes.extend_from_slice(&ciphered);
    bytes
}

fn block(primary: u8, other: u8, charging_case: u8) -> [u8; 16] {
    let mut b = [0xeeu8; 16];
    b[1] = primary;
    b[2] = other;
    b[3] = charging_case;
    b
}

fn reading(level: Option<u8>, status: BatteryStatus) -> BatteryReading {
    BatteryReading { level, status }
}

#[test]
fn listens_for_the_message_type_beside_the_company() {
    let pattern = proximity_pattern();
    assert_eq!(pattern.data_type, 0xFF);
    assert_eq!(pattern.start_position, 0);
    assert_eq!(pattern.content, vec![0x4C, 0x00, 0x07]);
}

#[test]
fn wear_of_every_status() {
    for status in 0..=255u8 {
        let wear = read_wear(status);
        let primary_left = (status >> 5) & 0x01 == 1;
        let this_in_case = (status >> 6) & 0x01 == 1;
        let xor_factor = primary_left ^ this_in_case;
        assert_eq!(wear.primary_left, primary_left);
        assert_eq!(wear.this_in_case, this_in_case);
        let (left, right) = if xor_factor { (0x02, 0x08) } else { (0x08, 0x02) };
        assert_eq!(wear.left_in_ear, status & left != 0);
        assert_eq!(wear.right_in_ear, status & right != 0);
        assert_eq!(wear.worn(), status & 0x0a != 0);
    }
}

#[test]
fn changing_the_primary_swaps_ears() {
    let a = read_wear(0x22);
    let b = read_wear(0x02);
    assert!(a.left_in_ear && !a.right_in_ear);
    assert!(b.right_in_ear && !b.left_in_ear);
}

#[test]
fn battery_octets() {
    assert_eq!(read_battery(0xff), reading(None, BatteryStatus::Disconnected));
    assert_eq!(read_battery(0), reading(Some(0), BatteryStatus::NotCharging));
    assert_eq!(read_battery(100), reading(Some(100), BatteryStatus::NotCharging));
    assert_eq!(read_battery(0x7f), reading(Some(127), BatteryStatus::NotCharging));
    assert_eq!(read_battery(0x80), reading(Some(0), BatteryStatus::Charging));
    assert_eq!(read_battery(0x80 | 55), reading(Some(55), BatteryStatus::Charging));
    assert_eq!(read_battery(0xfe), reading(Some(126), BatteryStatus::Charging));
}

#[test]
fn batteries_follow_the_primary_bud() {
    let b = block(10, 20, 0xff);
    let left_first = read_batteries(true, &b);
    assert_eq!(left_first.left.level, Some(10));
    assert_eq!(left_first.right.level, Some(20));
    assert_eq!(left_first.charging_case.level, None);
    let right_first = read_batteries(false, &b);
    assert_eq!(right_first.left.level, Some(20));
    assert_eq!(right_first.right.level, Some(10));
}

#[test]
fn reads_an_encrypted_advertisement() {
    let mut data = HashMap::new();
    data.insert(76u16, payload(0x22, block(42, 0x80 | 43, 0xff)));
    let advert = read_advertisement(&Some(KEY), &data).unwrap();
    assert!(advert.wear.worn());
    assert!(advert.wear.left_in_ear);
    assert_eq!(advert.connection_state, 0x05);
    assert_eq!(advert.batteries.left, reading(Some(42), BatteryStatus::NotCharging));
    assert_eq!(advert.batteries.right, reading(Some(43), BatteryStatus::Charging));
    assert_eq!(
        advert.batteries.charging_case,
        reading(None, BatteryStatus::Disconnected)
    );
}

#[test]
fn nothing_is_read_without_key_company_or_length() {
    let good = payload(0x22, block(1, 2, 3));
    let mut data = HashMap::new();
    data.insert(76u16, good.clone());
    assert!(read_advertisement(&None, &data).is_none());
    let mut other = HashMap::new();
    other.insert(77u16, good.clone());
    assert!(read_advertisement(&Some(KEY), &other).is_none());
    let mut short = HashMap::new();
    short.insert(76u16, good[..20].to_vec());
    assert!(read_advertisement(&Some(KEY), &short).is_none());
    let mut enough = HashMap::new();
    enough.insert(76u16, good[..21].to_vec());
    assert!(read_advertisement(&Some(KEY), &enough).is_some());
}

#[test]
fn interprets_a_clear_block() {
    let bytes: Vec<u8> = (0..30u8).collect();
    assert_eq!(last_block(&bytes)[0], 14);
    assert_eq!(last_block(&bytes)[15], 29);
    let advert = interpret(&bytes, &block(9, 8, 7));
    assert_eq!(advert.connection_state, 10);
    assert_eq!(advert.wear, read_wear(5));
    assert_eq!(advert.batteries, read_batteries(false, &block(9, 8, 7)));
}

#[test]
fn what_else_the_buds_are_connected_to_does_not_matter() {
    let mut bytes: Vec<u8> = (0..30u8).collect();
    let free = interpret(&bytes, &block(9, 8, 7));
    bytes[10] = 0xaa;
    let held = interpret(&bytes, &block(9, 8, 7));
    assert_eq!(held.connection_state, 0xaa);
    assert_eq!(free.wear, held.wear);
    assert_eq!(free.batteries, held.batteries);
}
