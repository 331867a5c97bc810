use librepods::address::{read_octets, Address};

fn address(octets: [u8; 6]) -> Address {
    Address { octets }
}

#[test]
fn text_is_six_upper_case_pairs() {
    let a = address([0x70, 0x81, 0x94, 0x0d, 0xfb, 0x0a]);
    assert_eq!(a.to_text(), "70:81:94:0D:FB:0A");
    assert_eq!(address([0; 6]).to_text(), "00:00:00:00:00:00");
    assert_eq!(address([0xff; 6]).to_text(), "FF:FF:FF:FF:FF:FF");
}

#[test]
fn text_is_that_of_the_bluetooth_stack() {
    for first in 0..=255u8 {
        let octets = [first, 255 - first, 0x10, 0x09, 0xa0, 0xbc];
        let stack = bluer::Address::new(octets);
        assert_eq!(address(octets).to_text(), stack.to_string());
        let back: bluer::Address = address(octets).to_text().parse().unwrap();
        assert_eq!(back.0, octets);
    }
}

#[test]
fn text_reads_back() {
    for n in 0..=255u8 {
        let octets = [n, n.wrapping_mul(7), 255 - n, 1, 0x2b, 0x3a];
        let read = Address::from_text(&address(octets).to_text()).unwrap();
        assert_eq!(read.octets, octets);
    }
}

#[test]
fn octets_are_read_leniently() {
    assert_eq!(read_octets("a:B:+c"), Some(vec![0x0a, 0x0b, 0x0c]));
    assert_eq!(read_octets("0001:ff"), Some(vec![1, 255]));
    assert_eq!(read_octets("7"), Some(vec![7]));
}

#[test]
fn malformed_octets_are_refused() {
    for text in ["", ":", "1:", ":1", "100", "+", "++1", "-1", "1g", "1 ", " 1", "1::2", "\u{e9}1"] {
        assert_eq!(read_octets(text), None, "{text:?}");
    }
}

#[test]
fn octets_are_read_as_the_standard_library_reads_them() {
    for text in ["0", "00", "ff", "FF", "fF", "100", "0ff", "+ff", "+", "", "-0", "g", "0x1", "1_0"] {
        let expected = u8::from_str_radix(text, 16).ok().map(|o| vec![o]);
        assert_eq!(read_octets(text), expected, "{text:?}");
    }
}

#[test]
fn an_address_has_six_fields() {
    assert!(Address::from_text("01:02:03:04:05").is_none());
    assert!(Address::from_text("01:02:03:04:05:06:07").is_none());
    assert!(Address::from_text("01:02:03:04:05:zz").is_none());
    assert_eq!(
        Address::from_text("01:02:03:04:05:06").unwrap().octets,
        [1, 2, 3, 4, 5, 6]
    );
}

#[test]
fn codes_tell_addresses_apart() {
    assert_eq!(address([1, 2, 3, 4, 5, 6]).code(), 0x0102_0304_0506);
    assert_eq!(address([0xff; 6]).code(), 0xffff_ffff_ffff);
    assert_ne!(
        address([0, 1, 0, 0, 0, 0]).code(),
        address([1, 0, 0, 0, 0, 0]).code()
    );
}
