use librepods::address::Address;
use librepods::devices::{
    read_enc_key, read_irk, AirPodsInformation, DeviceData, DeviceInformation, DeviceStore,
    DeviceType, LeKeys,
};
use librepods::resolver::Resolver;

const IRK: &str = "9b7d390aa610103405adc857a33402ec";
const ENC_KEY: &str = "000102030405060708090a0b0c0d0e0f";
const OURS: Address = Address { octets: [0x70, 0x81, 0x94, 0x0d, 0xfb, 0xaa] };
const STRANGER: Address = Address { octets: [0x70, 0x81, 0x94, 0x0d, 0xfb, 0xab] };

fn airpods(irk: &str, enc_key: &str) -> DeviceData {
    DeviceData {
        type_: DeviceType::AirPods,
        information: Some(DeviceInformation::AirPods(AirPodsInformation {
            le_keys: LeKeys { irk: irk.to_string(), enc_key: enc_key.to_string() },
        })),
    }
}

fn store(devices: Vec<(&str, DeviceData)>) -> DeviceStore {
    let mut store = DeviceStore::new();
    for (mac, device) in devices {
        store.insert(mac.to_string(), device);
    }
    store
}

#[test]
fn keys_need_the_right_kind() {
    assert!(read_irk(&airpods(IRK, "")).is_some());
    assert!(read_irk(&airpods("nonsense", ENC_KEY)).is_none());
    let mut odd = airpods(IRK, ENC_KEY);
    odd.type_ = DeviceType::Other;
    assert!(read_irk(&odd).is_none());
    assert!(read_enc_key(&odd).is_some());
    odd.information = Some(DeviceInformation::Other);
    assert!(read_enc_key(&odd).is_none());
    odd.information = None;
    assert!(read_enc_key(&odd).is_none());
}

#[test]
fn storing_twice_replaces() {
    let s = store(vec![
        ("A", airpods("", "")),
        ("B", airpods(IRK, ENC_KEY)),
        ("A", airpods(IRK, "")),
    ]);
    assert_eq!(s.len(), 2);
    assert!(read_irk(s.get("A").unwrap()).is_some());
    assert!(s.get("B").is_some());
    assert!(s.get("C").is_none());
}

#[test]
fn the_first_maker_is_the_owner() {
    let s = store(vec![
        ("A", airpods(ENC_KEY, "")),
        ("B", airpods(IRK, ENC_KEY)),
        ("C", airpods(IRK, "")),
    ]);
    assert_eq!(s.find_owner(&OURS).unwrap(), "B");
    assert!(s.find_owner(&STRANGER).is_none());
    assert!(s.find_enc_key("B").is_some());
    assert!(s.find_enc_key("C").is_none());
    assert!(s.find_enc_key("D").is_none());
}

#[test]
fn a_device_of_ours_is_found_with_its_key() {
    let s = store(vec![("AA:BB:CC:DD:EE:FF", airpods(IRK, ENC_KEY))]);
    let mut resolver = Resolver::new();
    let found = resolver.on_device_found(&OURS, &s).unwrap();
    assert_eq!(found.mac, "AA:BB:CC:DD:EE:FF");
    assert_eq!(found.enc_key.unwrap()[15], 0x0f);
    assert!(resolver.on_device_found(&STRANGER, &s).is_none());
}

#[test]
fn answers_are_remembered() {
    let s = store(vec![("B", airpods(IRK, ENC_KEY))]);
    let empty = DeviceStore::new();
    let mut resolver = Resolver::new();
    assert!(resolver.on_device_found(&OURS, &s).is_some());
    let again = resolver.on_device_found(&OURS, &empty).unwrap();
    assert_eq!(again.mac, "B");
    assert!(again.enc_key.is_none());

    let mut early = Resolver::new();
    assert!(early.on_device_found(&OURS, &empty).is_none());
    assert!(early.on_device_found(&OURS, &s).is_none());
}

#[test]
fn other_addresses_are_judged_for_themselves() {
    let s = store(vec![("B", airpods(IRK, ENC_KEY))]);
    let mut resolver = Resolver::new();
    assert!(resolver.on_device_found(&STRANGER, &s).is_none());
    assert!(resolver.on_device_found(&OURS, &s).is_some());
    assert!(resolver.on_device_found(&STRANGER, &s).is_none());
}

#[test]
fn what_is_remembered_is_recalled() {
    let mut resolver = Resolver::new();
    assert_eq!(resolver.recall(&OURS), None);
    resolver.remember(&OURS, &Some("B".to_string()));
    resolver.remember(&STRANGER, &None);
    assert_eq!(resolver.recall(&OURS), Some(Some("B".to_string())));
    assert_eq!(resolver.recall(&STRANGER), Some(None));
}

#[test]
fn a_sole_maker_owns_wherever_it_stands() {
    for ours_first in [true, false] {
        let s = if ours_first {
            store(vec![("A", airpods(IRK, "")), ("B", airpods(ENC_KEY, ""))])
        } else {
            store(vec![("B", airpods(ENC_KEY, "")), ("A", airpods(IRK, ""))])
        };
        assert_eq!(s.find_owner(&OURS).unwrap(), "A");
    }
}
