use librepods::crypto::{decrypt, e, read_key};
use librepods::rpa::{ah, carries_hash, verify_rpa};

const IRK: [u8; 16] = [
    0x9b, 0x7d, 0x39, 0x0a, 0xa6, 0x10, 0x10, 0x34, 0x05, 0xad, 0xc8, 0x57, 0xa3, 0x34, 0x02, 0xec,
];

fn counting() -> [u8; 16] {
    let mut key = [0u8; 16];
    for i in 0..16 {
        key[i] = i as u8;
    }
    key
}

fn plain() -> [u8; 16] {
    let mut block = [0u8; 16];
    for i in 0..16 {
        block[i] = (i as u8) * 0x11;
    }
    block
}

const CIPHERED: [u8; 16] = [
    0x69, 0xc4, 0xe0, 0xd8, 0x6a, 0x7b, 0x04, 0x30, 0xd8, 0xcd, 0xb7, 0x80, 0x70, 0xb4, 0xc5, 0x5a,
];

#[test]
fn decrypts_a_block() {
    assert_eq!(decrypt(&counting(), &CIPHERED), plain());
}

#[test]
fn e_works_on_reversed_numbers() {
    let mut key = counting();
    key.reverse();
    let mut data = plain();
    data.reverse();
    let mut expected = CIPHERED;
    expected.reverse();
    assert_eq!(e(&key, &data), expected);
}

#[test]
fn keys_are_thirty_two_hexadecimal_digits() {
    assert_eq!(read_key("000102030405060708090a0b0c0d0e0F"), Some(counting()));
    assert_eq!(read_key("000102030405060708090a0b0c0d0e"), None);
    assert_eq!(read_key("000102030405060708090a0b0c0d0e0f10"), None);
    assert_eq!(read_key("000102030405060708090a0b0c0d0e0"), None);
    assert_eq!(read_key("000102030405060708090a0b0c0d0e0g"), None);
    assert_eq!(read_key("00010203040506070809\u{e9}0b0c0d0e0f"), None);
    assert_eq!(read_key(""), None);
}

#[test]
fn hashes_the_random_part() {
    assert_eq!(ah(&IRK, &[0x94, 0x81, 0x70]), [0xaa, 0xfb, 0x0d]);
}

#[test]
fn an_address_made_with_the_key_resolves() {
    assert!(verify_rpa("70:81:94:0D:FB:AA", &IRK));
    assert!(verify_rpa("70:81:94:d:fb:aa", &IRK));
}

#[test]
fn an_address_made_otherwise_does_not_resolve() {
    assert!(!verify_rpa("70:81:94:0D:FB:AB", &IRK));
    assert!(!verify_rpa("70:81:95:0D:FB:AA", &IRK));
    let mut other = IRK;
    other[0] ^= 1;
    assert!(!verify_rpa("70:81:94:0D:FB:AA", &other));
}

#[test]
fn an_address_of_another_length_does_not_resolve() {
    assert!(!verify_rpa("70:81:94:0D:FB", &IRK));
    assert!(!verify_rpa("70:81:94:0D:FB:AA:00", &IRK));
}

#[test]
fn the_hash_is_the_lower_half() {
    let octets = [0x70, 0x81, 0x94, 0x0d, 0xfb, 0xaa];
    assert!(carries_hash(&octets, &[0xaa, 0xfb, 0x0d]));
    assert!(!carries_hash(&octets, &[0x0d, 0xfb, 0xaa]));
}

#[test]
fn every_random_part_makes_an_address_that_resolves() {
    for n in 0..=255u8 {
        let prand = [n, n.wrapping_mul(3), 0x40 | (n & 0x3f)];
        let hash = ah(&IRK, &prand);
        let octets = [prand[2], prand[1], prand[0], hash[2], hash[1], hash[0]];
        let address = librepods::address::Address { octets };
        assert!(verify_rpa(&address.to_text(), &IRK));
        let wrong = librepods::address::Address {
            octets: [octets[0], octets[1], octets[2], octets[3], octets[4], octets[5] ^ 1],
        };
        assert!(!verify_rpa(&wrong.to_text(), &IRK));
    }
}
