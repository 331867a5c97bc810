//! The proximity-pairing advertisements of AirPods: which of them to listen
//! for, and what they say of wear and batteries.
use std::collections::HashMap;
use vstd::prelude::*;

use crate::crypto::{aes128_decrypted, decrypt};

verus! {

broadcast use vstd::std_specs::hash::group_hash_axioms;

/// The company identifier under which the advertisements are made.
pub const APPLE_COMPANY_ID: u16 = 76;

/// The message type of proximity pairing.
pub const PROXIMITY_PAIRING: u8 = 0x07;

/// The advertising data type of manufacturer specific data.
pub const MANUFACTURER_DATA: u8 = 0xFF;

/// A pattern that an advertisement has to match to be reported.
pub struct AdvertPattern {
    /// The advertising data type in which to look.
    pub data_type: u8,
    /// Where in that data the content stands.
    pub start_position: u8,
    /// The content.
    pub content: Vec<u8>,
}

/// Whether `data` of the given type matches the pattern.
pub open spec fn pattern_matches(pattern: AdvertPattern, data_type: u8, data: Seq<u8>) -> bool {
    &&& data_type == pattern.data_type
    &&& pattern.start_position + pattern.content@.len() <= data.len()
    &&& data.subrange(
        pattern.start_position as int,
        pattern.start_position + pattern.content@.len(),
    ) == pattern.content@
}

/// Whether `data` of the given type is a proximity-pairing message: the
/// company identifier, least significant octet first, and the message type.
pub open spec fn is_proximity_pairing(data_type: u8, data: Seq<u8>) -> bool {
    &&& data_type == MANUFACTURER_DATA
    &&& data.len() >= 3
    &&& data[0] + 256 * data[1] == APPLE_COMPANY_ID
    &&& data[2] == PROXIMITY_PAIRING
}

/// The pattern to listen for. It names the message type beside the company,
/// since the company alone would match every device of that maker nearby.
pub fn proximity_pattern() -> (pattern: AdvertPattern)
    ensures
        pattern.data_type == MANUFACTURER_DATA,
        pattern.start_position == 0,
        pattern.content@ == seq![0x4Cu8, 0x00u8, PROXIMITY_PAIRING],
        forall|data_type: u8, data: Seq<u8>|
            pattern_matches(pattern, data_type, data) <==> #[trigger] is_proximity_pairing(
                data_type,
                data,
            ),
{
    let mut content: Vec<u8> = Vec::new();
    content.push(0x4C);
    content.push(0x00);
    content.push(PROXIMITY_PAIRING);
    let pattern = AdvertPattern { data_type: MANUFACTURER_DATA, start_position: 0, content };
    assert(content@ =~= seq![0x4Cu8, 0x00u8, PROXIMITY_PAIRING]);
    assert forall|data_type: u8, data: Seq<u8>|
        pattern_matches(pattern, data_type, data) <==> #[trigger] is_proximity_pairing(
            data_type,
            data,
        ) by {
        if data.len() >= 3 {
            let head = data.subrange(0, 3);
            assert(head[0] == data[0] && head[1] == data[1] && head[2] == data[2]);
            if is_proximity_pairing(data_type, data) {
                assert(head =~= content@);
            }
        }
    }
    pattern
}

/// How the buds are placed.
#[derive(Clone, Copy, Debug, PartialEq, Eq, Structural)]
pub struct WearState {
    /// The left bud is the primary one.
    pub primary_left: bool,
    /// The bud that advertises is in the case.
    pub this_in_case: bool,
    pub left_in_ear: bool,
    pub right_in_ear: bool,
}

impl WearState {
    /// At least one bud is in an ear.
    pub open spec fn spec_worn(self) -> bool {
        self.left_in_ear || self.right_in_ear
    }

    /// At least one bud is in an ear.
    pub fn worn(&self) -> (r: bool)
        ensures
            r == self.spec_worn(),
            r <==> self.left_in_ear || self.right_in_ear,
    {
        self.left_in_ear || self.right_in_ear
    }
}

/// Whether the bit of the given weight, a power of two, is set in an octet.
pub open spec fn bit(b: u8, weight: int) -> bool {
    (b as int / weight) % 2 == 1
}

/// What the status octet says: the bits of weight 32 and 64 say whether the
/// left bud is the primary one and whether the bud that advertises lies in the
/// case. Those of weight 2 and 8 are the in-ear bits; the former is that of the
/// left bud if exactly one of the first two is set, else that of the right bud.
pub open spec fn wear_of(status: u8) -> WearState {
    let crossed = bit(status, 32) != bit(status, 64);
    WearState {
        primary_left: bit(status, 32),
        this_in_case: bit(status, 64),
        left_in_ear: if crossed {
            bit(status, 2)
        } else {
            bit(status, 8)
        },
        right_in_ear: if crossed {
            bit(status, 8)
        } else {
            bit(status, 2)
        },
    }
}

/// Reads the status octet.
pub fn read_wear(status: u8) -> (r: WearState)
    ensures
        r == wear_of(status),
        r.primary_left <==> (status as int / 32) % 2 == 1,
        r.this_in_case <==> (status as int / 64) % 2 == 1,
        r.primary_left != r.this_in_case ==> {
            &&& r.left_in_ear <==> (status as int / 2) % 2 == 1
            &&& r.right_in_ear <==> (status as int / 8) % 2 == 1
        },
        r.primary_left == r.this_in_case ==> {
            &&& r.left_in_ear <==> (status as int / 8) % 2 == 1
            &&& r.right_in_ear <==> (status as int / 2) % 2 == 1
        },
{
    assert((status & 0x02 != 0) == ((status / 2) % 2 == 1)) by (bit_vector);
    assert((status & 0x08 != 0) == ((status / 8) % 2 == 1)) by (bit_vector);
    assert((status >> 5) & 0x01 == (status / 32) % 2) by (bit_vector);
    assert((status >> 6) & 0x01 == (status / 64) % 2) by (bit_vector);
    let primary_left = (status >> 5) & 0x01 == 1;
    let this_in_case = (status >> 6) & 0x01 == 1;
    let crossed = primary_left != this_in_case;
    let low = (status & 0x02) != 0;
    let high = (status & 0x08) != 0;
    WearState {
        primary_left,
        this_in_case,
        left_in_ear: if crossed { low } else { high },
        right_in_ear: if crossed { high } else { low },
    }
}

/// The buds are worn exactly if one of the two in-ear bits is set, whichever
/// bud is primary and wherever it lies.
pub proof fn worn_if_an_ear_bit_is_set(status: u8)
    ensures
        wear_of(status).spec_worn() <==> bit(status, 2) || bit(status, 8),
        wear_of(status).spec_worn() <==> (status as int / 2) % 2 == 1 || (status as int / 8) % 2
            == 1,
{
}

/// Each ear has a bit of the status octet of its own: the left one that of
/// weight 2 and the right one that of weight 8, or the other way round, which
/// depends on the bits of weight 32 and 64 alone.
pub proof fn each_ear_has_its_bit(status: u8)
    ensures
        wear_of(status).primary_left <==> (status as int / 32) % 2 == 1,
        wear_of(status).this_in_case <==> (status as int / 64) % 2 == 1,
        (status as int / 32) % 2 != (status as int / 64) % 2 ==> {
            &&& wear_of(status).left_in_ear <==> (status as int / 2) % 2 == 1
            &&& wear_of(status).right_in_ear <==> (status as int / 8) % 2 == 1
        },
        (status as int / 32) % 2 == (status as int / 64) % 2 ==> {
            &&& wear_of(status).left_in_ear <==> (status as int / 8) % 2 == 1
            &&& wear_of(status).right_in_ear <==> (status as int / 2) % 2 == 1
        },
{
}

/// Two octets that agree on the in-ear bits, and of which one says that the
/// primary bud is the left one and the other that it is the right one, place
/// the buds in opposite ears.
pub proof fn changing_the_primary_swaps_the_ears(a: u8, b: u8)
    requires
        bit(a, 2) == bit(b, 2),
        bit(a, 8) == bit(b, 8),
        bit(a, 64) == bit(b, 64),
        bit(a, 32) != bit(b, 32),
    ensures
        wear_of(a).left_in_ear == wear_of(b).right_in_ear,
        wear_of(a).right_in_ear == wear_of(b).left_in_ear,
{
}

/// Whether a battery is there and charging.
#[derive(Clone, Copy, Debug, PartialEq, Eq, Structural)]
pub enum BatteryStatus {
    Charging,
    NotCharging,
    Disconnected,
}

/// What is known of one battery.
#[derive(Clone, Copy, Debug, PartialEq, Eq, Structural)]
pub struct BatteryReading {
    /// The charge in percent, unless the part is disconnected.
    pub level: Option<u8>,
    pub status: BatteryStatus,
}

/// What a battery octet says: `0xff` for a part that is not there, else the
/// charge in the low seven bits and the charging flag above them.
pub open spec fn battery_of(octet: u8) -> BatteryReading {
    if octet == 0xff {
        BatteryReading { level: None, status: BatteryStatus::Disconnected }
    } else if octet >= 128 {
        BatteryReading { level: Some((octet - 128) as u8), status: BatteryStatus::Charging }
    } else {
        BatteryReading { level: Some(octet), status: BatteryStatus::NotCharging }
    }
}

/// Reads a battery octet.
pub fn read_battery(octet: u8) -> (r: BatteryReading)
    ensures
        r == battery_of(octet),
        octet == 0xff <==> r.status == BatteryStatus::Disconnected,
        octet == 0xff <==> r.level is None,
        octet != 0xff ==> r.level.unwrap() as int == octet as int % 128,
        128 <= octet < 0xff <==> r.status == BatteryStatus::Charging,
        octet < 128 <==> r.status == BatteryStatus::NotCharging,
{
    assert((octet & 0x80 != 0) == (octet >= 128)) by (bit_vector);
    assert(octet >= 128 ==> octet & 0x7F == octet - 128) by (bit_vector);
    assert(octet < 128 ==> octet & 0x7F == octet) by (bit_vector);
    if octet == 0xff {
        BatteryReading { level: None, status: BatteryStatus::Disconnected }
    } else {
        BatteryReading {
            level: Some(octet & 0x7F),
            status: if (octet & 0x80) != 0 {
                BatteryStatus::Charging
            } else {
                BatteryStatus::NotCharging
            },
        }
    }
}

/// What a battery octet says: a part is disconnected, and then has no level,
/// exactly if its octet is `0xff`. Else the level is the octet without its top
/// bit, and the part charges exactly if that bit is set.
pub proof fn a_battery_octet_says_so(octet: u8)
    ensures
        octet == 0xff <==> battery_of(octet).status == BatteryStatus::Disconnected,
        octet == 0xff <==> battery_of(octet).level is None,
        octet != 0xff ==> battery_of(octet).level.unwrap() as int == octet as int % 128,
        128 <= octet < 0xff <==> battery_of(octet).status == BatteryStatus::Charging,
        octet < 128 <==> battery_of(octet).status == BatteryStatus::NotCharging,
{
}

/// The batteries of both buds and of the case.
#[derive(Clone, Copy, Debug, PartialEq, Eq, Structural)]
pub struct BatteryReport {
    pub left: BatteryReading,
    pub right: BatteryReading,
    pub charging_case: BatteryReading,
}

/// What a decrypted block says of the batteries. Octet 1 is that of the
/// primary bud, octet 2 that of the other one, octet 3 that of the case.
pub open spec fn batteries_of(primary_left: bool, block: Seq<u8>) -> BatteryReport {
    BatteryReport {
        left: battery_of(
            if primary_left {
                block[1]
            } else {
                block[2]
            },
        ),
        right: battery_of(
            if primary_left {
                block[2]
            } else {
                block[1]
            },
        ),
        charging_case: battery_of(block[3]),
    }
}

/// Reads the batteries from a decrypted block.
pub fn read_batteries(primary_left: bool, block: &[u8; 16]) -> (r: BatteryReport)
    ensures
        r == batteries_of(primary_left, block@),
        ({
            let left = if primary_left {
                block@[1]
            } else {
                block@[2]
            };
            let right = if primary_left {
                block@[2]
            } else {
                block@[1]
            };
            &&& left == 0xff <==> r.left.status == BatteryStatus::Disconnected
            &&& left == 0xff <==> r.left.level is None
            &&& left != 0xff ==> r.left.level.unwrap() as int == left as int % 128
            &&& 128 <= left < 0xff <==> r.left.status == BatteryStatus::Charging
            &&& left < 128 <==> r.left.status == BatteryStatus::NotCharging
            &&& right == 0xff <==> r.right.status == BatteryStatus::Disconnected
            &&& right == 0xff <==> r.right.level is None
            &&& right != 0xff ==> r.right.level.unwrap() as int == right as int % 128
            &&& 128 <= right < 0xff <==> r.right.status == BatteryStatus::Charging
            &&& right < 128 <==> r.right.status == BatteryStatus::NotCharging
            &&& block@[3] == 0xff <==> r.charging_case.status == BatteryStatus::Disconnected
            &&& block@[3] == 0xff <==> r.charging_case.level is None
            &&& block@[3] != 0xff ==> r.charging_case.level.unwrap() as int == block@[3] as int % 128
            &&& 128 <= block@[3] < 0xff <==> r.charging_case.status == BatteryStatus::Charging
            &&& block@[3] < 128 <==> r.charging_case.status == BatteryStatus::NotCharging
        }),
{
    let left_index: usize = if primary_left {
        1
    } else {
        2
    };
    let right_index: usize = if primary_left {
        2
    } else {
        1
    };
    BatteryReport {
        left: read_battery(block[left_index]),
        right: read_battery(block[right_index]),
        charging_case: read_battery(block[3]),
    }
}

/// A block says of each battery what its octet says: that of the primary bud is
/// octet 1, that of the other bud octet 2, that of the case octet 3, whichever
/// bud is primary.
pub proof fn each_battery_has_its_octet(primary_left: bool, block: Seq<u8>)
    ensures
        ({
            let report = batteries_of(primary_left, block);
            let left = if primary_left {
                block[1]
            } else {
                block[2]
            };
            let right = if primary_left {
                block[2]
            } else {
                block[1]
            };
            &&& left == 0xff <==> report.left.status == BatteryStatus::Disconnected
            &&& left == 0xff <==> report.left.level is None
            &&& left != 0xff ==> report.left.level.unwrap() as int == left as int % 128
            &&& 128 <= left < 0xff <==> report.left.status == BatteryStatus::Charging
            &&& left < 128 <==> report.left.status == BatteryStatus::NotCharging
            &&& right == 0xff <==> report.right.status == BatteryStatus::Disconnected
            &&& right == 0xff <==> report.right.level is None
            &&& right != 0xff ==> report.right.level.unwrap() as int == right as int % 128
            &&& 128 <= right < 0xff <==> report.right.status == BatteryStatus::Charging
            &&& right < 128 <==> report.right.status == BatteryStatus::NotCharging
            &&& block[3] == 0xff <==> report.charging_case.status == BatteryStatus::Disconnected
            &&& block[3] == 0xff <==> report.charging_case.level is None
            &&& block[3] != 0xff ==> report.charging_case.level.unwrap() as int == block[3] as int % 128
            &&& 128 <= block[3] < 0xff <==> report.charging_case.status == BatteryStatus::Charging
            &&& block[3] < 128 <==> report.charging_case.status == BatteryStatus::NotCharging
        }),
{
}

/// Naming the other bud as primary swaps the readings of the buds and keeps that
/// of the case.
pub proof fn changing_the_primary_swaps_the_batteries(block: Seq<u8>)
    ensures
        batteries_of(true, block).left == batteries_of(false, block).right,
        batteries_of(true, block).right == batteries_of(false, block).left,
        batteries_of(true, block).charging_case == batteries_of(false, block).charging_case,
{
}

/// What one advertisement says.
#[derive(Clone, Copy, Debug, PartialEq, Eq, Structural)]
pub struct Advertisement {
    pub wear: WearState,
    /// The octet that tells what the buds are connected to.
    pub connection_state: u8,
    pub batteries: BatteryReport,
}

/// Whether a payload is long enough to hold a status and an encrypted block.
pub open spec fn is_long_enough(payload: Seq<u8>) -> bool {
    payload.len() > 20
}

/// The encrypted block of a payload: its last sixteen octets.
pub open spec fn encrypted_block(payload: Seq<u8>) -> Seq<u8> {
    payload.subrange(payload.len() - 16, payload.len() as int)
}

/// What a payload says whose encrypted block is `block` in clear.
pub open spec fn advertisement_of(payload: Seq<u8>, block: Seq<u8>) -> Advertisement {
    Advertisement {
        wear: wear_of(payload[5]),
        connection_state: payload[10],
        batteries: batteries_of(wear_of(payload[5]).primary_left, block),
    }
}

/// Payloads with the same status octet say the same of wear and batteries,
/// whatever else the buds are connected to.
pub proof fn other_connections_do_not_matter(a: Seq<u8>, b: Seq<u8>, block: Seq<u8>)
    requires
        a.len() > 20,
        b.len() > 20,
        a[5] == b[5],
    ensures
        advertisement_of(a, block).wear == advertisement_of(b, block).wear,
        advertisement_of(a, block).batteries == advertisement_of(b, block).batteries,
{
}

/// What a payload says of wear stands in its status octet, what it says of the
/// batteries in its block, and which bud is primary decides both alike.
pub proof fn an_advertisement_says_what_its_octets_say(payload: Seq<u8>, block: Seq<u8>)
    requires
        payload.len() > 20,
    ensures
        ({
            let advert = advertisement_of(payload, block);
            let primary_left = (payload[5] as int / 32) % 2 == 1;
            let left = if primary_left {
                block[1]
            } else {
                block[2]
            };
            let right = if primary_left {
                block[2]
            } else {
                block[1]
            };
            &&& left == 0xff <==> advert.batteries.left.status == BatteryStatus::Disconnected
            &&& left == 0xff <==> advert.batteries.left.level is None
            &&& left != 0xff ==> advert.batteries.left.level.unwrap() as int == left as int % 128
            &&& 128 <= left < 0xff <==> advert.batteries.left.status == BatteryStatus::Charging
            &&& left < 128 <==> advert.batteries.left.status == BatteryStatus::NotCharging
            &&& right == 0xff <==> advert.batteries.right.status == BatteryStatus::Disconnected
            &&& right == 0xff <==> advert.batteries.right.level is None
            &&& right != 0xff ==> advert.batteries.right.level.unwrap() as int == right as int % 128
            &&& 128 <= right < 0xff <==> advert.batteries.right.status == BatteryStatus::Charging
            &&& right < 128 <==> advert.batteries.right.status == BatteryStatus::NotCharging
            &&& block[3] == 0xff <==> advert.batteries.charging_case.status == BatteryStatus::Disconnected
            &&& block[3] == 0xff <==> advert.batteries.charging_case.level is None
            &&& block[3] != 0xff ==> advert.batteries.charging_case.level.unwrap() as int == block[3] as int % 128
            &&& 128 <= block[3] < 0xff <==> advert.batteries.charging_case.status == BatteryStatus::Charging
            &&& block[3] < 128 <==> advert.batteries.charging_case.status == BatteryStatus::NotCharging
            &&& advert.wear.primary_left <==> (payload[5] as int / 32) % 2 == 1
            &&& advert.wear.this_in_case <==> (payload[5] as int / 64) % 2 == 1
            &&& (payload[5] as int / 32) % 2 != (payload[5] as int / 64) % 2 ==> {
                &&& advert.wear.left_in_ear <==> (payload[5] as int / 2) % 2 == 1
                &&& advert.wear.right_in_ear <==> (payload[5] as int / 8) % 2 == 1
            }
            &&& (payload[5] as int / 32) % 2 == (payload[5] as int / 64) % 2 ==> {
                &&& advert.wear.left_in_ear <==> (payload[5] as int / 8) % 2 == 1
                &&& advert.wear.right_in_ear <==> (payload[5] as int / 2) % 2 == 1
            }
            &&& advert.wear.left_in_ear || advert.wear.right_in_ear <==> (payload[5] as int / 2) % 2 == 1 || (payload[5] as int / 8)
                % 2 == 1
            &&& advert.connection_state == payload[10]
        }),
{
}

/// There is a payload to read exactly if the company with the number 76 made
/// one of more than twenty octets, and it is that one. Its block is what stands
/// at its end.
pub proof fn the_payload_is_that_of_the_company(data: Map<u16, Vec<u8>>)
    ensures
        payload_in(data) is Some <==> data.contains_key(76) && data[76]@.len() > 20,
        payload_in(data) matches Some(payload) ==> {
            &&& payload == data[76]@
            &&& encrypted_block(payload).len() == 16
            &&& forall|i: int|
                0 <= i < 16 ==> #[trigger] encrypted_block(payload)[i] == payload[payload.len() - 16
                    + i]
        },
{
}

/// The payload made under the company identifier, if it is long enough.
pub open spec fn payload_in(data: Map<u16, Vec<u8>>) -> Option<Seq<u8>> {
    if data.contains_key(APPLE_COMPANY_ID) && is_long_enough(data[APPLE_COMPANY_ID]@) {
        Some(data[APPLE_COMPANY_ID]@)
    } else {
        None
    }
}

/// Puts together what a payload says, given its encrypted block in clear.
pub fn interpret(payload: &Vec<u8>, block: &[u8; 16]) -> (r: Advertisement)
    requires
        is_long_enough(payload@),
    ensures
        r == advertisement_of(payload@, block@),
        ({
            let primary_left = (payload@[5] as int / 32) % 2 == 1;
            let left = if primary_left {
                block@[1]
            } else {
                block@[2]
            };
            let right = if primary_left {
                block@[2]
            } else {
                block@[1]
            };
            &&& left == 0xff <==> r.batteries.left.status == BatteryStatus::Disconnected
            &&& left == 0xff <==> r.batteries.left.level is None
            &&& left != 0xff ==> r.batteries.left.level.unwrap() as int == left as int % 128
            &&& 128 <= left < 0xff <==> r.batteries.left.status == BatteryStatus::Charging
            &&& left < 128 <==> r.batteries.left.status == BatteryStatus::NotCharging
            &&& right == 0xff <==> r.batteries.right.status == BatteryStatus::Disconnected
            &&& right == 0xff <==> r.batteries.right.level is None
            &&& right != 0xff ==> r.batteries.right.level.unwrap() as int == right as int % 128
            &&& 128 <= right < 0xff <==> r.batteries.right.status == BatteryStatus::Charging
            &&& right < 128 <==> r.batteries.right.status == BatteryStatus::NotCharging
            &&& block@[3] == 0xff <==> r.batteries.charging_case.status == BatteryStatus::Disconnected
            &&& block@[3] == 0xff <==> r.batteries.charging_case.level is None
            &&& block@[3] != 0xff ==> r.batteries.charging_case.level.unwrap() as int == block@[3] as int % 128
            &&& 128 <= block@[3] < 0xff <==> r.batteries.charging_case.status == BatteryStatus::Charging
            &&& block@[3] < 128 <==> r.batteries.charging_case.status == BatteryStatus::NotCharging
            &&& r.wear.primary_left <==> (payload@[5] as int / 32) % 2 == 1
            &&& r.wear.this_in_case <==> (payload@[5] as int / 64) % 2 == 1
            &&& (payload@[5] as int / 32) % 2 != (payload@[5] as int / 64) % 2 ==> {
                &&& r.wear.left_in_ear <==> (payload@[5] as int / 2) % 2 == 1
                &&& r.wear.right_in_ear <==> (payload@[5] as int / 8) % 2 == 1
            }
            &&& (payload@[5] as int / 32) % 2 == (payload@[5] as int / 64) % 2 ==> {
                &&& r.wear.left_in_ear <==> (payload@[5] as int / 8) % 2 == 1
                &&& r.wear.right_in_ear <==> (payload@[5] as int / 2) % 2 == 1
            }
            &&& r.wear.left_in_ear || r.wear.right_in_ear <==> (payload@[5] as int / 2) % 2 == 1 || (payload@[5] as int / 8)
                % 2 == 1
            &&& r.connection_state == payload@[10]
        }),
{
    let wear = read_wear(payload[5]);
    Advertisement {
        wear,
        connection_state: payload[10],
        batteries: read_batteries(wear.primary_left, block),
    }
}

/// The encrypted block of a payload.
pub fn last_block(payload: &Vec<u8>) -> (block: [u8; 16])
    requires
        payload@.len() >= 16,
    ensures
        block@ == encrypted_block(payload@),
        forall|i: int| 0 <= i < 16 ==> #[trigger] block@[i] == payload@[payload@.len() - 16 + i],
{
    let mut block: [u8; 16] = [0;16];
    let n: usize = payload.len();
    let start: usize = n - 16;
    let mut i: usize = 0;
    while i < 16
        invariant
            i <= 16,
            start + 16 == n,
            n == payload@.len(),
            forall|j: int| 0 <= j < i ==> block@[j] == payload@[start + j],
        decreases 16 - i,
    {
        block[i] = payload[start + i];
        i = i + 1;
    }
    assert(block@ =~= encrypted_block(payload@));
    block
}

/// Reads what manufacturer data say of our buds. There is nothing to read
/// without a key, without a payload of the right company, and from one that is
/// too short.
pub fn read_advertisement(enc_key: &Option<[u8; 16]>, data: &HashMap<u16, Vec<u8>>) -> (r: Option<
    Advertisement,
>)
    ensures
        r == match (*enc_key, payload_in(data@)) {
            (Some(key), Some(payload)) => Some(
                advertisement_of(payload, aes128_decrypted(key@, encrypted_block(payload))),
            ),
            _ => None,
        },
        r is Some <==> *enc_key is Some && data@.contains_key(76) && data@[76]@.len() > 20,
        r matches Some(advert) ==> ({
            let payload = data@[76]@;
            let block = aes128_decrypted(
                enc_key.unwrap()@,
                payload.subrange(payload.len() - 16, payload.len() as int),
            );
            let primary_left = (payload[5] as int / 32) % 2 == 1;
            let left = if primary_left {
                block[1]
            } else {
                block[2]
            };
            let right = if primary_left {
                block[2]
            } else {
                block[1]
            };
            &&& left == 0xff <==> advert.batteries.left.status == BatteryStatus::Disconnected
            &&& left == 0xff <==> advert.batteries.left.level is None
            &&& left != 0xff ==> advert.batteries.left.level.unwrap() as int == left as int % 128
            &&& 128 <= left < 0xff <==> advert.batteries.left.status == BatteryStatus::Charging
            &&& left < 128 <==> advert.batteries.left.status == BatteryStatus::NotCharging
            &&& right == 0xff <==> advert.batteries.right.status == BatteryStatus::Disconnected
            &&& right == 0xff <==> advert.batteries.right.level is None
            &&& right != 0xff ==> advert.batteries.right.level.unwrap() as int == right as int % 128
            &&& 128 <= right < 0xff <==> advert.batteries.right.status == BatteryStatus::Charging
            &&& right < 128 <==> advert.batteries.right.status == BatteryStatus::NotCharging
            &&& block[3] == 0xff <==> advert.batteries.charging_case.status == BatteryStatus::Disconnected
            &&& block[3] == 0xff <==> advert.batteries.charging_case.level is None
            &&& block[3] != 0xff ==> advert.batteries.charging_case.level.unwrap() as int == block[3] as int % 128
            &&& 128 <= block[3] < 0xff <==> advert.batteries.charging_case.status == BatteryStatus::Charging
            &&& block[3] < 128 <==> advert.batteries.charging_case.status == BatteryStatus::NotCharging
            &&& advert.wear.primary_left <==> (payload[5] as int / 32) % 2 == 1
            &&& advert.wear.this_in_case <==> (payload[5] as int / 64) % 2 == 1
            &&& (payload[5] as int / 32) % 2 != (payload[5] as int / 64) % 2 ==> {
                &&& advert.wear.left_in_ear <==> (payload[5] as int / 2) % 2 == 1
                &&& advert.wear.right_in_ear <==> (payload[5] as int / 8) % 2 == 1
            }
            &&& (payload[5] as int / 32) % 2 == (payload[5] as int / 64) % 2 ==> {
                &&& advert.wear.left_in_ear <==> (payload[5] as int / 8) % 2 == 1
                &&& advert.wear.right_in_ear <==> (payload[5] as int / 2) % 2 == 1
            }
            &&& advert.wear.left_in_ear || advert.wear.right_in_ear <==> (payload[5] as int / 2) % 2 == 1 || (payload[5] as int / 8)
                % 2 == 1
            &&& advert.connection_state == payload[10]
        }),
{
    match enc_key {
        None => None,
        Some(key) => match data.get(&APPLE_COMPANY_ID) {
            None => None,
            Some(payload) => {
                if payload.len() > 20 {
                    let block = decrypt(key, &last_block(payload));
                    Some(interpret(payload, &block))
                } else {
                    None
                }
            },
        },
    }
}

} // verus!
