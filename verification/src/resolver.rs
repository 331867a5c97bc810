//! Telling our own devices from the strangers that advertise nearby.
//!
//! Working out whose address was seen means one hash per known device, so the
//! answer for an address is kept, whether it is one of ours or not.
use std::collections::{HashMap, HashSet};
use vstd::prelude::*;

use crate::address::{address_codes_are_distinct, hex_digit, Address};
use crate::devices::{
    enc_key_for, makes_address, owner_is_the_first_maker, owner_of, DeviceInformation, DeviceStore,
    Entry,
};

verus! {

broadcast use vstd::std_specs::hash::group_hash_axioms;

/// A device of ours that was seen.
pub struct Match {
    /// Its public address.
    pub mac: String,
    /// The key under which it encrypts part of its advertisements, if known.
    pub enc_key: Option<[u8; 16]>,
}

/// What the resolver remembers, by address code.
pub struct Memory {
    /// The public address of the device of ours that made the address.
    pub verified: Map<u64, Seq<char>>,
    /// The addresses that none of our devices made.
    pub failed: Set<u64>,
}

impl Memory {
    /// What is remembered of an address.
    pub open spec fn knows(self, code: u64) -> bool {
        self.verified.contains_key(code) || self.failed.contains(code)
    }

    /// No address is held to be both ours and not ours.
    pub open spec fn wf(self) -> bool {
        forall|code: u64|
            #[trigger] self.verified.contains_key(code) ==> !self.failed.contains(code)
    }

    /// What is remembered is what `entries` give.
    pub open spec fn agrees_with(self, entries: Seq<Entry>) -> bool {
        &&& forall|a: Address|
            self.verified.contains_key(#[trigger] a.spec_code()) ==> owner_of(entries, a.octets@)
                == Some(self.verified[a.spec_code()])
        &&& forall|a: Address|
            self.failed.contains(#[trigger] a.spec_code()) ==> owner_of(entries, a.octets@) is None
    }
}

/// Whose address was seen: from memory, or else from `entries`.
pub open spec fn owner_seen(memory: Memory, addr: Address, entries: Seq<Entry>) -> Option<
    Seq<char>,
> {
    let code = addr.spec_code();
    if memory.verified.contains_key(code) {
        Some(memory.verified[code])
    } else if memory.failed.contains(code) {
        None
    } else {
        owner_of(entries, addr.octets@)
    }
}

/// What is remembered after an address was seen.
pub open spec fn memory_after(memory: Memory, addr: Address, entries: Seq<Entry>) -> Memory {
    let code = addr.spec_code();
    if memory.knows(code) {
        memory
    } else {
        match owner_of(entries, addr.octets@) {
            Some(mac) => Memory { verified: memory.verified.insert(code, mac), ..memory },
            None => Memory { failed: memory.failed.insert(code), ..memory },
        }
    }
}

/// Remembers which addresses are ours.
pub struct Resolver {
    verified: HashMap<u64, String>,
    failed: HashSet<u64>,
}

impl View for Resolver {
    type V = Memory;

    closed spec fn view(&self) -> Memory {
        Memory {
            verified: self.verified@.map_values(|mac: String| mac@),
            failed: self.failed@,
        }
    }
}

impl Resolver {
    /// A resolver that has seen nothing.
    pub fn new() -> (r: Resolver)
        ensures
            r@.wf(),
            r@ == (Memory { verified: Map::empty(), failed: Set::empty() }),
    {
        let r = Resolver { verified: HashMap::new(), failed: HashSet::new() };
        assert(r@.verified =~= Map::<u64, Seq<char>>::empty());
        r
    }

    /// What is remembered of `addr`: nothing, that it is a stranger's, or whose
    /// of our devices it is.
    pub fn recall(&self, addr: &Address) -> (r: Option<Option<String>>)
        ensures
            match r {
                Some(Some(mac)) => {
                    &&& self@.verified.contains_key(addr.spec_code())
                    &&& self@.verified[addr.spec_code()] == mac@
                },
                Some(None) => {
                    &&& !self@.verified.contains_key(addr.spec_code())
                    &&& self@.failed.contains(addr.spec_code())
                },
                None => !self@.knows(addr.spec_code()),
            },
            r is None <==> !self@.verified.contains_key(addr.spec_code()) && !self@.failed.contains(
                addr.spec_code(),
            ),
    {
        let code: u64 = addr.code();
        match self.verified.get(&code) {
            Some(mac) => Some(Some(mac.clone())),
            None => if self.failed.contains(&code) {
                Some(None)
            } else {
                None
            },
        }
    }

    /// Remembers that `addr` is an address of the device `owner`, or that it is
    /// a stranger's.
    pub fn remember(&mut self, addr: &Address, owner: &Option<String>)
        requires
            old(self)@.wf(),
            !old(self)@.knows(addr.spec_code()),
        ensures
            final(self)@.wf(),
            final(self)@ == match *owner {
                Some(mac) => Memory {
                    verified: old(self)@.verified.insert(addr.spec_code(), mac@),
                    ..old(self)@
                },
                None => Memory { failed: old(self)@.failed.insert(addr.spec_code()), ..old(self)@ },
            },
    {
        let code: u64 = addr.code();
        let ghost before = *self;
        match owner {
            Some(mac) => {
                self.verified.insert(code, mac.clone());
                assert(self@.verified =~= before@.verified.insert(code, mac@));
            },
            None => {
                self.failed.insert(code);
                assert(self@.verified =~= before@.verified);
            },
        }
    }

    /// An advertiser was found at `addr`. The result is the device of ours
    /// that it is, if it is one.
    pub fn on_device_found(&mut self, addr: &Address, devices: &DeviceStore) -> (r: Option<Match>)
        requires
            old(self)@.wf(),
            devices.wf(),
        ensures
            final(self)@.wf(),
            final(self)@ == memory_after(old(self)@, *addr, devices@),
            match (r, owner_seen(old(self)@, *addr, devices@)) {
                (Some(found), Some(mac)) => {
                    &&& found.mac@ == mac
                    &&& match found.enc_key {
                        Some(key) => enc_key_for(devices@, mac) == Some(key@),
                        None => enc_key_for(devices@, mac) is None,
                    }
                },
                (None, None) => true,
                _ => false,
            },
            // An address that is held to be ours stays so.
            old(self)@.verified.contains_key(addr.spec_code()) ==> {
                &&& r is Some
                &&& r.unwrap().mac@ == old(self)@.verified[addr.spec_code()]
                &&& final(self)@ == old(self)@
            },
            // One that is held to be a stranger's stays so.
            !old(self)@.verified.contains_key(addr.spec_code()) && old(self)@.failed.contains(
                addr.spec_code(),
            ) ==> r is None && final(self)@ == old(self)@,
            // Of any other the devices decide, in their order, and it is remembered.
            !old(self)@.verified.contains_key(addr.spec_code()) && !old(self)@.failed.contains(
                addr.spec_code(),
            ) ==> match r {
                Some(found) => {
                    &&& exists|i: int|
                        {
                            &&& 0 <= i < devices@.len()
                            &&& (#[trigger] devices@[i]).0 == found.mac@
                            &&& makes_address(devices@[i].1, addr.octets@)
                            &&& forall|j: int|
                                0 <= j < i ==> !makes_address(
                                    (#[trigger] devices@[j]).1,
                                    addr.octets@,
                                )
                        }
                    &&& final(self)@.verified == old(self)@.verified.insert(
                        addr.spec_code(),
                        found.mac@,
                    )
                    &&& final(self)@.failed == old(self)@.failed
                },
                None => {
                    &&& forall|j: int|
                        0 <= j < devices@.len() ==> !makes_address(
                            (#[trigger] devices@[j]).1,
                            addr.octets@,
                        )
                    &&& final(self)@.verified == old(self)@.verified
                    &&& final(self)@.failed == old(self)@.failed.insert(addr.spec_code())
                },
            },
            // The key is the one that is stored for the device.
            r matches Some(found) ==> forall|i: int|
                0 <= i < devices@.len() && (#[trigger] devices@[i]).0 == found.mac@ ==> match devices@[i].1.information {
                    Some(DeviceInformation::AirPods(info)) => {
                        &&& found.enc_key is Some <==> info.le_keys.enc_key@.len() == 32 && forall|k: int|
                            0 <= k < 32 ==> hex_digit(#[trigger] info.le_keys.enc_key@[k]) is Some
                        &&& found.enc_key matches Some(key) ==> forall|k: int|
                            0 <= k < 16 ==> (#[trigger] key@[k]) as int == 16 * hex_digit(info.le_keys.enc_key@[2 * k]).unwrap()
                                + hex_digit(info.le_keys.enc_key@[2 * k + 1]).unwrap()
                    },
                    _ => found.enc_key is None,
                },
            r matches Some(found) ==> (found.enc_key is Some ==> exists|i: int|
                0 <= i < devices@.len() && (#[trigger] devices@[i]).0 == found.mac@),
            // Nothing is held to be both.
            forall|code: u64| #[trigger]
                final(self)@.verified.contains_key(code) ==> !final(self)@.failed.contains(code),
    {
        let owner: Option<String> = match self.recall(addr) {
            Some(owner) => owner,
            None => {
                let owner = devices.find_owner(addr);
                self.remember(addr, &owner);
                owner
            },
        };
        match owner {
            None => None,
            Some(mac) => {
                let enc_key = devices.find_enc_key(mac.as_str());
                Some(Match { mac, enc_key })
            },
        }
    }
}

/// How a sighting is answered and what is remembered of it: what memory holds of
/// the address is answered and kept. Else the first device that makes such
/// addresses is answered and remembered, or that there is none.
pub proof fn a_sighting_is_answered_so(memory: Memory, addr: Address, entries: Seq<Entry>)
    ensures
        memory.verified.contains_key(addr.spec_code()) ==> {
            &&& owner_seen(memory, addr, entries) == Some(memory.verified[addr.spec_code()])
            &&& memory_after(memory, addr, entries) == memory
        },
        !memory.verified.contains_key(addr.spec_code()) && memory.failed.contains(addr.spec_code())
            ==> {
            &&& owner_seen(memory, addr, entries) is None
            &&& memory_after(memory, addr, entries) == memory
        },
        !memory.verified.contains_key(addr.spec_code()) && !memory.failed.contains(
            addr.spec_code(),
        ) ==> match owner_seen(memory, addr, entries) {
            Some(mac) => {
                &&& exists|i: int|
                    {
                        &&& 0 <= i < entries.len()
                        &&& (#[trigger] entries[i]).0 == mac
                        &&& makes_address(entries[i].1, addr.octets@)
                        &&& forall|j: int|
                            0 <= j < i ==> !makes_address((#[trigger] entries[j]).1, addr.octets@)
                    }
                &&& memory_after(memory, addr, entries).verified == memory.verified.insert(
                    addr.spec_code(),
                    mac,
                )
                &&& memory_after(memory, addr, entries).failed == memory.failed
            },
            None => {
                &&& forall|j: int|
                    0 <= j < entries.len() ==> !makes_address(
                        (#[trigger] entries[j]).1,
                        addr.octets@,
                    )
                &&& memory_after(memory, addr, entries).verified == memory.verified
                &&& memory_after(memory, addr, entries).failed == memory.failed.insert(
                    addr.spec_code(),
                )
            },
        },
{
    owner_is_the_first_maker(entries, addr.octets@);
}

/// What a resolver has seen of an address settles every later sighting of it:
/// the answer and the memory stay, whatever devices become known meanwhile.
pub proof fn a_sighting_is_remembered(
    memory: Memory,
    addr: Address,
    entries: Seq<Entry>,
    later: Seq<Entry>,
)
    requires
        memory.wf(),
    ensures
        ({
            let after = memory_after(memory, addr, entries);
            &&& after.wf()
            &&& after.knows(addr.spec_code())
            &&& owner_seen(after, addr, later) == owner_seen(memory, addr, entries)
            &&& memory_after(after, addr, later) == after
        }),
{
}

/// Seeing one address does not change what is known of another.
pub proof fn a_sighting_leaves_other_addresses(
    memory: Memory,
    addr: Address,
    other: Address,
    entries: Seq<Entry>,
)
    requires
        addr.octets@ != other.octets@,
    ensures
        owner_seen(memory_after(memory, addr, entries), other, entries) == owner_seen(
            memory,
            other,
            entries,
        ),
{
    address_codes_are_distinct(addr, other);
}

/// While the known devices stay the same, as they do in one run of the monitor,
/// memory changes nothing: every answer is that of the devices themselves.
pub proof fn memory_changes_no_answer(memory: Memory, addr: Address, entries: Seq<Entry>)
    requires
        memory.agrees_with(entries),
    ensures
        owner_seen(memory, addr, entries) == owner_of(entries, addr.octets@),
        memory_after(memory, addr, entries).agrees_with(entries),
{
    let after = memory_after(memory, addr, entries);
    assert forall|a: Address|
        after.verified.contains_key(#[trigger] a.spec_code()) implies owner_of(entries, a.octets@)
        == Some(after.verified[a.spec_code()]) by {
        address_codes_are_distinct(a, addr);
        assert(memory.verified.contains_key(a.spec_code()) ==> owner_of(entries, a.octets@)
            == Some(memory.verified[a.spec_code()]));
    }
    assert forall|a: Address|
        after.failed.contains(#[trigger] a.spec_code()) implies owner_of(
        entries,
        a.octets@,
    ) is None by {
        address_codes_are_distinct(a, addr);
    }
}

/// What is remembered in a run after the advertisers at `seen` were found.
pub open spec fn memory_of_run(seen: Seq<Address>, entries: Seq<Entry>) -> Memory
    decreases seen.len(),
{
    if seen.len() == 0 {
        Memory { verified: Map::empty(), failed: Set::empty() }
    } else {
        memory_after(memory_of_run(seen.drop_last(), entries), seen.last(), entries)
    }
}

/// Whatever was found before in a run, an advertiser is taken for the device
/// of ours that makes its address, and for a stranger if none does.
pub proof fn every_answer_of_a_run(seen: Seq<Address>, addr: Address, entries: Seq<Entry>)
    ensures
        memory_of_run(seen, entries).wf(),
        memory_of_run(seen, entries).agrees_with(entries),
        owner_seen(memory_of_run(seen, entries), addr, entries) == owner_of(entries, addr.octets@),
    decreases seen.len(),
{
    if seen.len() > 0 {
        every_answer_of_a_run(seen.drop_last(), seen.last(), entries);
        memory_changes_no_answer(
            memory_of_run(seen.drop_last(), entries),
            seen.last(),
            entries,
        );
    }
    memory_changes_no_answer(memory_of_run(seen, entries), addr, entries);
}

} // verus!
