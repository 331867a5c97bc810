//! The devices that are known from earlier connections, with the keys that
//! they handed out.
use vstd::prelude::*;

use crate::address::{hex_digit, written_octets, written_text_reads_back, Address};
use crate::crypto::{keys_are_thirty_two_digits, read_key, written_key};
use crate::rpa::{rpa_resolves, verify_rpa};

verus! {

/// The kinds of device that matter here.
#[derive(Clone, Copy, Debug, PartialEq, Eq, Structural)]
pub enum DeviceType {
    AirPods,
    Other,
}

/// The keys of a device, in hexadecimal.
#[derive(Debug)]
pub struct LeKeys {
    /// The identity resolving key.
    pub irk: String,
    /// The key under which the device encrypts part of its advertisements.
    pub enc_key: String,
}

/// What is stored of a pair of AirPods.
#[derive(Debug)]
pub struct AirPodsInformation {
    pub le_keys: LeKeys,
}

/// What is stored of a device beyond its kind.
#[derive(Debug)]
pub enum DeviceInformation {
    AirPods(AirPodsInformation),
    Other,
}

/// A known device.
#[derive(Debug)]
pub struct DeviceData {
    pub type_: DeviceType,
    pub information: Option<DeviceInformation>,
}

/// The identity resolving key of a pair of AirPods, if a proper one is stored.
pub open spec fn irk_of(device: DeviceData) -> Option<Seq<u8>> {
    match device.information {
        Some(DeviceInformation::AirPods(info)) if device.type_ == DeviceType::AirPods => {
            written_key(info.le_keys.irk@)
        },
        _ => None,
    }
}

/// The advertisement key of a device, if a proper one is stored.
pub open spec fn enc_key_of(device: DeviceData) -> Option<Seq<u8>> {
    match device.information {
        Some(DeviceInformation::AirPods(info)) => written_key(info.le_keys.enc_key@),
        _ => None,
    }
}

/// Whether the device is one that makes addresses such as `octets`.
pub open spec fn makes_address(device: DeviceData, octets: Seq<u8>) -> bool {
    match irk_of(device) {
        Some(irk) => rpa_resolves(octets, irk),
        None => false,
    }
}

/// The advertisement key of a device is what its stored text writes: thirty-two
/// hexadecimal digits, two for each octet. Only AirPods have one, and every such
/// text gives one.
pub proof fn the_advertisement_key_is_the_stored_one(device: DeviceData)
    ensures
        match device.information {
            Some(DeviceInformation::AirPods(info)) => {
                &&& enc_key_of(device) is Some <==> info.le_keys.enc_key@.len() == 32 && forall|k: int|
                    0 <= k < 32 ==> hex_digit(#[trigger] info.le_keys.enc_key@[k]) is Some
                &&& enc_key_of(device) matches Some(key) ==> forall|k: int|
                    0 <= k < 16 ==> (#[trigger] key[k]) as int == 16 * hex_digit(info.le_keys.enc_key@[2 * k]).unwrap()
                        + hex_digit(info.le_keys.enc_key@[2 * k + 1]).unwrap()
            },
            _ => enc_key_of(device) is None,
        },
        enc_key_of(device) matches Some(key) ==> key.len() == 16,
{
    match device.information {
        Some(DeviceInformation::AirPods(info)) => {
            let text = info.le_keys.enc_key@;
            match written_key(text) {
                Some(key) => {
                    keys_are_thirty_two_digits(text, key);
                },
                None => {
                    keys_are_thirty_two_digits(text, Seq::empty());
                },
            }
        },
        _ => {},
    }
}

/// The identity resolving key of a device is what its stored text writes:
/// thirty-two hexadecimal digits, two for each octet. Only devices of the kind
/// AirPods have one, and every such text gives one.
pub proof fn the_identity_key_is_the_stored_one(device: DeviceData)
    ensures
        match device.information {
            Some(DeviceInformation::AirPods(info)) if device.type_ == DeviceType::AirPods => {
                &&& irk_of(device) is Some <==> info.le_keys.irk@.len() == 32 && forall|k: int|
                    0 <= k < 32 ==> hex_digit(#[trigger] info.le_keys.irk@[k]) is Some
                &&& irk_of(device) matches Some(key) ==> forall|k: int|
                    0 <= k < 16 ==> (#[trigger] key[k]) as int == 16 * hex_digit(info.le_keys.irk@[2 * k]).unwrap()
                        + hex_digit(info.le_keys.irk@[2 * k + 1]).unwrap()
            },
            _ => irk_of(device) is None,
        },
        irk_of(device) matches Some(key) ==> key.len() == 16,
{
    match device.information {
        Some(DeviceInformation::AirPods(info)) => {
            let text = info.le_keys.irk@;
            match written_key(text) {
                Some(key) => {
                    keys_are_thirty_two_digits(text, key);
                },
                None => {
                    keys_are_thirty_two_digits(text, Seq::empty());
                },
            }
        },
        _ => {},
    }
}

/// A device makes an address exactly if it has an identity resolving key and
/// the address resolves under that key.
pub proof fn a_device_makes_addresses_with_its_key(device: DeviceData, octets: Seq<u8>)
    ensures
        irk_of(device) is None ==> !makes_address(device, octets),
        irk_of(device) matches Some(irk) ==> (makes_address(device, octets) <==> rpa_resolves(
            octets,
            irk,
        )),
{
}

/// The identity resolving key of a pair of AirPods.
pub fn read_irk(device: &DeviceData) -> (r: Option<[u8; 16]>)
    ensures
        match r {
            Some(key) => irk_of(*device) == Some(key@),
            None => irk_of(*device) is None,
        },
        match device.information {
            Some(DeviceInformation::AirPods(info)) if device.type_ == DeviceType::AirPods => {
                &&& r is Some <==> info.le_keys.irk@.len() == 32 && forall|k: int|
                    0 <= k < 32 ==> hex_digit(#[trigger] info.le_keys.irk@[k]) is Some
                &&& r matches Some(key) ==> forall|k: int|
                    0 <= k < 16 ==> (#[trigger] key@[k]) as int == 16 * hex_digit(info.le_keys.irk@[2 * k]).unwrap()
                        + hex_digit(info.le_keys.irk@[2 * k + 1]).unwrap()
            },
            _ => r is None,
        },
{
    if device.type_ == DeviceType::AirPods {
        match &device.information {
            Some(DeviceInformation::AirPods(info)) => read_key(info.le_keys.irk.as_str()),
            _ => None,
        }
    } else {
        None
    }
}

/// The advertisement key of a device.
pub fn read_enc_key(device: &DeviceData) -> (r: Option<[u8; 16]>)
    ensures
        match r {
            Some(key) => enc_key_of(*device) == Some(key@),
            None => enc_key_of(*device) is None,
        },
        match device.information {
            Some(DeviceInformation::AirPods(info)) => {
                &&& r is Some <==> info.le_keys.enc_key@.len() == 32 && forall|k: int|
                    0 <= k < 32 ==> hex_digit(#[trigger] info.le_keys.enc_key@[k]) is Some
                &&& r matches Some(key) ==> forall|k: int|
                    0 <= k < 16 ==> (#[trigger] key@[k]) as int == 16 * hex_digit(info.le_keys.enc_key@[2 * k]).unwrap()
                        + hex_digit(info.le_keys.enc_key@[2 * k + 1]).unwrap()
            },
            _ => r is None,
        },
{
    match &device.information {
        Some(DeviceInformation::AirPods(info)) => read_key(info.le_keys.enc_key.as_str()),
        _ => None,
    }
}

/// The known devices by their public addresses, which are kept as texts. No
/// text occurs twice.
pub struct DeviceStore {
    entries: Vec<(String, DeviceData)>,
}

/// An entry of the store.
pub type Entry = (Seq<char>, DeviceData);

/// Whether no two entries have the same text.
pub open spec fn macs_are_distinct(entries: Seq<Entry>) -> bool {
    forall|i: int, j: int|
        0 <= i < j < entries.len() ==> (#[trigger] entries[i]).0 != (#[trigger] entries[j]).0
}

/// Whether the entry for `mac` stands at position `i`.
pub open spec fn is_at(entries: Seq<Entry>, mac: Seq<char>, i: int) -> bool {
    0 <= i < entries.len() && entries[i].0 == mac
}

/// The device stored for `mac`.
pub open spec fn device_for(entries: Seq<Entry>, mac: Seq<char>) -> Option<DeviceData> {
    if exists|i: int| is_at(entries, mac, i) {
        Some(entries[choose|i: int| is_at(entries, mac, i)].1)
    } else {
        None
    }
}

/// The public address of the first device that makes addresses such as `octets`.
pub open spec fn owner_of(entries: Seq<Entry>, octets: Seq<u8>) -> Option<Seq<char>>
    decreases entries.len(),
{
    if entries.len() == 0 {
        None
    } else {
        match owner_of(entries.drop_last(), octets) {
            Some(mac) => Some(mac),
            None => if makes_address(entries.last().1, octets) {
                Some(entries.last().0)
            } else {
                None
            },
        }
    }
}

/// The advertisement key stored for `mac`.
pub open spec fn enc_key_for(entries: Seq<Entry>, mac: Seq<char>) -> Option<Seq<u8>> {
    match device_for(entries, mac) {
        Some(device) => enc_key_of(device),
        None => None,
    }
}

impl View for DeviceStore {
    type V = Seq<Entry>;

    closed spec fn view(&self) -> Seq<Entry> {
        self.entries@.map_values(|e: (String, DeviceData)| (e.0@, e.1))
    }
}

impl DeviceStore {
    /// No text occurs twice.
    pub open spec fn wf(self) -> bool {
        macs_are_distinct(self@)
    }

    /// A store without devices.
    pub fn new() -> (store: DeviceStore)
        ensures
            store.wf(),
            store@ == Seq::<Entry>::empty(),
    {
        let store = DeviceStore { entries: Vec::new() };
        assert(store@ =~= Seq::<Entry>::empty());
        store
    }

    /// The number of devices.
    pub fn len(&self) -> (n: usize)
        ensures
            n == self@.len(),
    {
        self.entries.len()
    }

    fn position(&self, mac: &str) -> (r: Option<usize>)
        ensures
            match r {
                Some(i) => is_at(self@, mac@, i as int),
                None => forall|i: int| !is_at(self@, mac@, i),
            },
    {
        let key: String = mac.to_owned();
        let n: usize = self.entries.len();
        let mut i: usize = 0;
        while i < n
            invariant
                i <= n,
                n == self.entries@.len(),
                key@ == mac@,
                forall|j: int| 0 <= j < i ==> (#[trigger] self.entries@[j]).0@ != mac@,
            decreases n - i,
        {
            if self.entries[i].0 == key {
                return Some(i);
            }
            i = i + 1;
        }
        assert forall|j: int| !is_at(self@, mac@, j) by {
            if is_at(self@, mac@, j) {
                assert(self.entries@[j].0@ == mac@);
            }
        }
        None
    }

    /// The device stored for `mac`.
    pub fn get(&self, mac: &str) -> (r: Option<&DeviceData>)
        requires
            self.wf(),
        ensures
            match r {
                Some(device) => device_for(self@, mac@) == Some(*device),
                None => device_for(self@, mac@) is None,
            },
            r is Some <==> exists|i: int| 0 <= i < self@.len() && (#[trigger] self@[i]).0 == mac@,
            r matches Some(device) ==> forall|i: int|
                0 <= i < self@.len() && (#[trigger] self@[i]).0 == mac@ ==> self@[i].1 == *device,
    {
        match self.position(mac) {
            None => {
                assert forall|j: int| 0 <= j < self@.len() implies (#[trigger] self@[j]).0
                    != mac@ by {
                    assert(!is_at(self@, mac@, j));
                }
                None
            },
            Some(i) => {
                proof {
                    assert(self@[i as int].0 == mac@);
                    let j = choose|j: int| is_at(self@, mac@, j);
                    assert(is_at(self@, mac@, i as int));
                    assert(i == j);
                }
                Some(&self.entries[i].1)
            },
        }
    }

    /// The public address of the first device that makes addresses such as
    /// `addr`.
    pub fn find_owner(&self, addr: &Address) -> (r: Option<String>)
        ensures
            match r {
                Some(mac) => owner_of(self@, addr.octets@) == Some(mac@),
                None => owner_of(self@, addr.octets@) is None,
            },
            match r {
                Some(mac) => exists|i: int|
                    {
                        &&& 0 <= i < self@.len()
                        &&& (#[trigger] self@[i]).0 == mac@
                        &&& makes_address(self@[i].1, addr.octets@)
                        &&& forall|j: int|
                            0 <= j < i ==> !makes_address((#[trigger] self@[j]).1, addr.octets@)
                    },
                None => forall|j: int|
                    0 <= j < self@.len() ==> !makes_address((#[trigger] self@[j]).1, addr.octets@),
            },
    {
        proof {
            owner_is_the_first_maker(self@, addr.octets@);
        }
        let text = addr.to_text();
        let n: usize = self.entries.len();
        let mut i: usize = 0;
        proof {
            written_text_reads_back(addr.octets@);
        }
        assert(self@.take(0) =~= Seq::<Entry>::empty());
        while i < n
            invariant
                i <= n,
                n == self.entries@.len(),
                written_octets(text@) == Some(addr.octets@),
                owner_of(self@.take(i as int), addr.octets@) is None,
            decreases n - i,
        {
            let ghost next = self@.take(i + 1);
            assert(next.drop_last() =~= self@.take(i as int));
            proof {
                lemma_owner_keeps(self@, addr.octets@, i + 1);
            }
            match read_irk(&self.entries[i].1) {
                None => {},
                Some(irk) => {
                    if verify_rpa(text.as_str(), &irk) {
                        proof {
                            owner_is_the_first_maker(self@, addr.octets@);
                        }
                        return Some(self.entries[i].0.clone());
                    }
                },
            }
            i = i + 1;
        }
        assert(self@.take(n as int) =~= self@);
        None
    }

    /// The advertisement key stored for `mac`.
    pub fn find_enc_key(&self, mac: &str) -> (r: Option<[u8; 16]>)
        requires
            self.wf(),
        ensures
            match r {
                Some(key) => enc_key_for(self@, mac@) == Some(key@),
                None => enc_key_for(self@, mac@) is None,
            },
            forall|i: int|
                0 <= i < self@.len() && (#[trigger] self@[i]).0 == mac@ ==> match self@[i].1.information {
                    Some(DeviceInformation::AirPods(info)) => {
                        &&& r is Some <==> info.le_keys.enc_key@.len() == 32 && forall|k: int|
                            0 <= k < 32 ==> hex_digit(#[trigger] info.le_keys.enc_key@[k]) is Some
                        &&& r matches Some(key) ==> forall|k: int|
                            0 <= k < 16 ==> (#[trigger] key@[k]) as int == 16 * hex_digit(info.le_keys.enc_key@[2 * k]).unwrap()
                                + hex_digit(info.le_keys.enc_key@[2 * k + 1]).unwrap()
                    },
                    _ => r is None,
                },
            r is Some ==> exists|i: int| 0 <= i < self@.len() && (#[trigger] self@[i]).0 == mac@,
    {
        match self.get(mac) {
            None => None,
            Some(device) => read_enc_key(device),
        }
    }

    /// Stores a device. One that was stored under the same text is replaced.
    pub fn insert(&mut self, mac: String, device: DeviceData)
        requires
            old(self).wf(),
        ensures
            final(self).wf(),
            device_for(final(self)@, mac@) == Some(device),
            forall|other: Seq<char>|
                other != mac@ ==> #[trigger] device_for(final(self)@, other) == device_for(
                    old(self)@,
                    other,
                ),
            match device_for(old(self)@, mac@) {
                Some(_) => exists|i: int|
                    is_at(old(self)@, mac@, i) && final(self)@ == old(self)@.update(
                        i,
                        (mac@, device),
                    ),
                None => final(self)@ == old(self)@.push((mac@, device)),
            },
            final(self)@.contains((mac@, device)),
            forall|entry: Entry|
                entry.0 != mac@ ==> (#[trigger] final(self)@.contains(entry) <==> old(
                    self,
                )@.contains(entry)),
            forall|i: int, j: int|
                0 <= i < j < final(self)@.len() ==> (#[trigger] final(self)@[i]).0 != (
                #[trigger] final(self)@[j]).0,
    {
        let ghost before = self@;
        match self.position(mac.as_str()) {
            Some(i) => {
                let ghost entry = (mac@, device);
                self.entries.set(i, (mac, device));
                proof {
                    assert(self@ =~= before.update(i as int, entry));
                    lemma_store_by_position(before, self@, entry);
                }
            },
            None => {
                let ghost entry = (mac@, device);
                self.entries.push((mac, device));
                proof {
                    assert(self@ =~= before.push(entry));
                    lemma_store_by_position(before, self@, entry);
                }
            },
        }
    }
}

/// Whether the device at position `i` makes addresses such as `octets`.
pub open spec fn maker_at(entries: Seq<Entry>, octets: Seq<u8>, i: int) -> bool {
    0 <= i < entries.len() && makes_address(entries[i].1, octets)
}

/// The owner of an address is the first device in the store that makes such
/// addresses, and there is none only if no device makes them.
pub proof fn owner_is_the_first_maker(entries: Seq<Entry>, octets: Seq<u8>)
    ensures
        match owner_of(entries, octets) {
            Some(mac) => exists|i: int|
                {
                    &&& #[trigger] maker_at(entries, octets, i)
                    &&& entries[i].0 == mac
                    &&& forall|j: int| j < i ==> !#[trigger] maker_at(entries, octets, j)
                },
            None => forall|j: int| !#[trigger] maker_at(entries, octets, j),
        },
        match owner_of(entries, octets) {
            Some(mac) => exists|i: int|
                {
                    &&& 0 <= i < entries.len()
                    &&& (#[trigger] entries[i]).0 == mac
                    &&& makes_address(entries[i].1, octets)
                    &&& forall|j: int|
                        0 <= j < i ==> !makes_address((#[trigger] entries[j]).1, octets)
                },
            None => forall|j: int|
                0 <= j < entries.len() ==> !makes_address((#[trigger] entries[j]).1, octets),
        },
{
    lemma_first_maker(entries, octets);
    match owner_of(entries, octets) {
        Some(mac) => {
            let i = choose|i: int|
                {
                    &&& #[trigger] maker_at(entries, octets, i)
                    &&& entries[i].0 == mac
                    &&& forall|j: int| j < i ==> !#[trigger] maker_at(entries, octets, j)
                };
            assert(entries[i].0 == mac);
            assert forall|j: int| 0 <= j < i implies !makes_address(
                (#[trigger] entries[j]).1,
                octets,
            ) by {
                assert(!maker_at(entries, octets, j));
            }
        },
        None => {
            assert forall|j: int| 0 <= j < entries.len() implies !makes_address(
                (#[trigger] entries[j]).1,
                octets,
            ) by {
                assert(!maker_at(entries, octets, j));
            }
        },
    }
}

/// The owner of an address is the first maker, by position.
proof fn lemma_first_maker(entries: Seq<Entry>, octets: Seq<u8>)
    ensures
        match owner_of(entries, octets) {
            Some(mac) => exists|i: int|
                {
                    &&& #[trigger] maker_at(entries, octets, i)
                    &&& entries[i].0 == mac
                    &&& forall|j: int| j < i ==> !#[trigger] maker_at(entries, octets, j)
                },
            None => forall|j: int| !#[trigger] maker_at(entries, octets, j),
        },
    decreases entries.len(),
{
    if entries.len() > 0 {
        let before = entries.drop_last();
        let last = entries.len() - 1;
        lemma_first_maker(before, octets);
        assert forall|j: int| j < last implies maker_at(entries, octets, j) == #[trigger] maker_at(
            before,
            octets,
            j,
        ) by {
        }
        match owner_of(before, octets) {
            Some(mac) => {
                let i = choose|i: int|
                    {
                        &&& #[trigger] maker_at(before, octets, i)
                        &&& before[i].0 == mac
                        &&& forall|j: int| j < i ==> !#[trigger] maker_at(before, octets, j)
                    };
                assert(maker_at(entries, octets, i));
                assert forall|j: int| j < i implies !#[trigger] maker_at(entries, octets, j) by {
                    assert(!maker_at(before, octets, j));
                }
            },
            None => {
                assert forall|j: int| j < last implies !#[trigger] maker_at(
                    entries,
                    octets,
                    j,
                ) by {
                    assert(!maker_at(before, octets, j));
                }
                assert(maker_at(entries, octets, last) == makes_address(entries.last().1, octets));
            },
        }
    }
}

/// A device is found under the text that it is stored under, and its key with
/// it; under a text that nothing is stored under, nothing is found.
pub proof fn a_stored_device_is_found(entries: Seq<Entry>, mac: Seq<char>)
    requires
        forall|i: int, j: int|
            0 <= i < j < entries.len() ==> (#[trigger] entries[i]).0 != (#[trigger] entries[j]).0,
    ensures
        forall|i: int|
            0 <= i < entries.len() && (#[trigger] entries[i]).0 == mac ==> device_for(entries, mac)
                == Some(entries[i].1) && enc_key_for(entries, mac) == enc_key_of(entries[i].1),
        (forall|i: int| 0 <= i < entries.len() ==> (#[trigger] entries[i]).0 != mac) ==> device_for(
            entries,
            mac,
        ) is None && enc_key_for(entries, mac) is None,
{
    assert forall|i: int| 0 <= i < entries.len() && (#[trigger] entries[i]).0 == mac implies
        device_for(entries, mac) == Some(entries[i].1) by {
        assert(is_at(entries, mac, i));
        let j = choose|j: int| is_at(entries, mac, j);
        assert(is_at(entries, mac, j));
        assert(entries[j].0 == entries[i].0);
    }
    if forall|i: int| 0 <= i < entries.len() ==> (#[trigger] entries[i]).0 != mac {
        assert forall|i: int| !is_at(entries, mac, i) by {
        }
    }
}

/// A device that alone makes such addresses is their owner, wherever in the
/// store it stands.
pub proof fn a_sole_maker_is_the_owner(entries: Seq<Entry>, octets: Seq<u8>, i: int)
    requires
        maker_at(entries, octets, i),
        forall|j: int| #[trigger] maker_at(entries, octets, j) ==> j == i,
    ensures
        owner_of(entries, octets) == Some(entries[i].0),
{
    owner_is_the_first_maker(entries, octets);
}

/// An owner among the first entries is the owner among all.
proof fn lemma_owner_keeps(entries: Seq<Entry>, octets: Seq<u8>, n: int)
    requires
        0 <= n <= entries.len(),
    ensures
        owner_of(entries.take(n), octets) is Some ==> owner_of(entries, octets) == owner_of(
            entries.take(n),
            octets,
        ),
    decreases entries.len(),
{
    if n == entries.len() {
        assert(entries.take(n) =~= entries);
    } else {
        lemma_owner_keeps(entries.drop_last(), octets, n);
        assert(entries.drop_last().take(n) =~= entries.take(n));
    }
}

/// `after` is `before` with one entry written over the one of the same text,
/// or else behind all others.
proof fn lemma_store_by_position(before: Seq<Entry>, after: Seq<Entry>, entry: Entry)
    requires
        macs_are_distinct(before),
        ({
            ||| exists|i: int| is_at(before, entry.0, i) && after == before.update(i, entry)
            ||| (forall|i: int| !is_at(before, entry.0, i)) && after == before.push(entry)
        }),
    ensures
        macs_are_distinct(after),
        device_for(after, entry.0) == Some(entry.1),
        forall|other: Seq<char>|
            other != entry.0 ==> #[trigger] device_for(after, other) == device_for(before, other),
        after.contains(entry),
        forall|other: Entry|
            other.0 != entry.0 ==> (#[trigger] after.contains(other) <==> before.contains(other)),
{
    let at = if exists|i: int| is_at(before, entry.0, i) && after == before.update(i, entry) {
        choose|i: int| is_at(before, entry.0, i) && after == before.update(i, entry)
    } else {
        before.len() as int
    };
    assert(after[at] == entry);
    assert forall|i: int, j: int| 0 <= i < j < after.len() implies (#[trigger] after[i]).0 != (
    #[trigger] after[j]).0 by {
        if i != at && j != at {
            assert(before[i].0 != before[j].0);
        } else if i == at {
            assert(!is_at(before, entry.0, j) || before[j].0 != before[at].0 || j == at);
        } else {
            assert(!is_at(before, entry.0, i) || before[i].0 != before[at].0 || i == at);
        }
    }
    assert(is_at(after, entry.0, at));
    assert forall|other: Entry| other.0 != entry.0 implies (#[trigger] after.contains(other)
        <==> before.contains(other)) by {
        if after.contains(other) {
            let i = choose|i: int| 0 <= i < after.len() && after[i] == other;
            assert(before[i] == other);
        }
        if before.contains(other) {
            let i = choose|i: int| 0 <= i < before.len() && before[i] == other;
            assert(after[i] == other);
        }
    }
    assert forall|other: Seq<char>| other != entry.0 implies #[trigger] device_for(after, other)
        == device_for(before, other) by {
        assert forall|i: int| is_at(after, other, i) <==> is_at(before, other, i) by {
        }
        if exists|i: int| is_at(before, other, i) {
            let i = choose|i: int| is_at(before, other, i);
            let j = choose|j: int| is_at(after, other, j);
            assert(is_at(after, other, i));
            assert(is_at(before, other, j));
            assert(i == j);
        }
    }
}

} // verus!
