//! Resolvable private addresses: telling whether an address was made with a
//! given identity resolving key.
use vstd::prelude::*;

use crate::address::{written_octets, Address};
use crate::crypto::{aes128_encrypted, e, e_result};

verus! {

/// The random address hash `ah`: the low 24 bits of `e` on the padded random
/// part. All numbers are held least significant octet first.
pub open spec fn ah_result(irk: Seq<u8>, prand: Seq<u8>) -> Seq<u8> {
    e_result(irk, prand + Seq::new(13, |i: int| 0u8)).take(3)
}

/// The hash of the random part of a resolvable private address under an
/// identity resolving key.
pub fn ah(irk: &[u8; 16], prand: &[u8; 3]) -> (hash: [u8; 3])
    ensures
        hash@ == ah_result(irk@, prand@),
        ({
            let block = seq![
                0u8, 0, 0, 0, 0, 0, 0, 0, 0, 0, 0, 0, 0, prand@[2], prand@[1], prand@[0],
            ];
            let out = aes128_encrypted(irk@.reverse(), block);
            hash@[0] == out[15] && hash@[1] == out[14] && hash@[2] == out[13]
        }),
{
    let padded: [u8; 16] = [prand[0], prand[1], prand[2], 0, 0, 0, 0, 0, 0, 0, 0, 0, 0, 0, 0, 0];
    assert(padded@ =~= prand@ + Seq::new(13, |i: int| 0u8));
    assert(padded@.reverse() =~= seq![
        0u8, 0, 0, 0, 0, 0, 0, 0, 0, 0, 0, 0, 0, prand@[2], prand@[1], prand@[0],
    ]);
    let encrypted = e(irk, &padded);
    let hash: [u8; 3] = [encrypted[0], encrypted[1], encrypted[2]];
    assert(hash@ =~= encrypted@.take(3));
    hash
}

/// The random part of an address, least significant octet first: its upper half.
pub open spec fn prand_part(octets: Seq<u8>) -> Seq<u8> {
    octets.take(3).reverse()
}

/// The hash part of an address, least significant octet first: its lower half.
pub open spec fn hash_part(octets: Seq<u8>) -> Seq<u8> {
    octets.skip(3).reverse()
}

/// Whether an address of these octets was made with this identity resolving key.
pub open spec fn rpa_resolves(octets: Seq<u8>, irk: Seq<u8>) -> bool {
    octets.len() == 6 && hash_part(octets) == ah_result(irk, prand_part(octets))
}

/// Whatever random part a device chooses, the address that it makes of that part
/// and its hash resolves under the key, and with any other hash it does not.
pub proof fn only_the_right_hash_resolves(irk: Seq<u8>, prand: Seq<u8>, hash: Seq<u8>)
    requires
        prand.len() == 3,
        hash.len() == 3,
    ensures
        rpa_resolves(prand.reverse() + hash.reverse(), irk) <==> hash == ah_result(irk, prand),
{
    let octets = prand.reverse() + hash.reverse();
    assert(prand_part(octets) =~= prand);
    assert(hash_part(octets) =~= hash);
}

/// An address resolves under a key exactly if it has six octets of which the
/// last three are the last three that the cipher makes, under the key written
/// most significant octet first, of a block that is zero but for the first three
/// octets of the address at its end. (The cipher makes blocks of sixteen octets.)
pub proof fn an_address_resolves_by_the_cipher(octets: Seq<u8>, irk: Seq<u8>)
    ensures
        ({
            let block = seq![
                0u8, 0, 0, 0, 0, 0, 0, 0, 0, 0, 0, 0, 0, octets[0], octets[1], octets[2],
            ];
            let out = aes128_encrypted(irk.reverse(), block);
            out.len() == 16 ==> (rpa_resolves(octets, irk) <==> octets.len() == 6 && octets[3]
                == out[13] && octets[4] == out[14] && octets[5] == out[15])
        }),
{
    let block = seq![0u8, 0, 0, 0, 0, 0, 0, 0, 0, 0, 0, 0, 0, octets[0], octets[1], octets[2]];
    let out = aes128_encrypted(irk.reverse(), block);
    if octets.len() == 6 && out.len() == 16 {
        let prand = prand_part(octets);
        assert((prand + Seq::new(13, |i: int| 0u8)).reverse() =~= block);
        assert(ah_result(irk, prand) =~= seq![out[15], out[14], out[13]]);
        assert(hash_part(octets) =~= seq![octets[5], octets[4], octets[3]]);
        let a = hash_part(octets);
        let b = ah_result(irk, prand);
        if a == b {
            assert(a[0] == b[0] && a[1] == b[1] && a[2] == b[2]);
        }
    }
}

/// The hash of a random part is the end of what the cipher makes of a block that
/// is zero but for all three octets of that part. (The cipher makes blocks of
/// sixteen octets.)
pub proof fn the_whole_random_part_is_hashed(irk: Seq<u8>, prand: Seq<u8>)
    requires
        prand.len() == 3,
    ensures
        ({
            let block = seq![
                0u8, 0, 0, 0, 0, 0, 0, 0, 0, 0, 0, 0, 0, prand[2], prand[1], prand[0],
            ];
            let out = aes128_encrypted(irk.reverse(), block);
            out.len() == 16 ==> ah_result(irk, prand) == seq![out[15], out[14], out[13]]
        }),
{
    let block = seq![0u8, 0, 0, 0, 0, 0, 0, 0, 0, 0, 0, 0, 0, prand[2], prand[1], prand[0]];
    assert((prand + Seq::new(13, |i: int| 0u8)).reverse() =~= block);
    let out = aes128_encrypted(irk.reverse(), block);
    if out.len() == 16 {
        assert(ah_result(irk, prand) =~= seq![out[15], out[14], out[13]]);
    }
}

/// Whether the hash part of six octets is `computed`.
pub fn carries_hash(octets: &[u8; 6], computed: &[u8; 3]) -> (r: bool)
    ensures
        r == (hash_part(octets@) == computed@),
        r == (octets@[5] == computed@[0] && octets@[4] == computed@[1] && octets@[3]
            == computed@[2]),
{
    let hash: [u8; 3] = [octets[5], octets[4], octets[3]];
    assert(hash@ =~= hash_part(octets@));
    let same: bool = hash[0] == computed[0] && hash[1] == computed[1] && hash[2] == computed[2];
    if same {
        assert(hash@ =~= computed@);
    }
    same
}

/// Whether the resolvable private address written in `addr` was made with the
/// identity resolving key `irk`. A text of other than six octets was not.
pub fn verify_rpa(addr: &str, irk: &[u8; 16]) -> (r: bool)
    requires
        written_octets(addr@) is Some,
    ensures
        r == rpa_resolves(written_octets(addr@).unwrap(), irk@),
        ({
            let o = written_octets(addr@).unwrap();
            let block = seq![0u8, 0, 0, 0, 0, 0, 0, 0, 0, 0, 0, 0, 0, o[0], o[1], o[2]];
            let out = aes128_encrypted(irk@.reverse(), block);
            r == (o.len() == 6 && o[3] == out[13] && o[4] == out[14] && o[5] == out[15])
        }),
{
    match Address::from_text(addr) {
        None => false,
        Some(address) => {
            let o = address.octets;
            let prand: [u8; 3] = [o[2], o[1], o[0]];
            assert(prand@ =~= prand_part(o@));
            proof {
                an_address_resolves_by_the_cipher(o@, irk@);
            }
            carries_hash(&o, &ah(irk, &prand))
        },
    }
}

} // verus!
