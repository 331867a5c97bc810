//! Keys and the AES block cipher.
use aes::cipher::{Array, BlockCipherDecrypt, BlockCipherEncrypt, KeyInit};
use aes::Aes128;
use vstd::prelude::*;

use crate::address::hex_digit;

verus! {

/// The block that AES-128 under `key` makes of `block`, as the `aes` crate
/// computes it.
pub uninterp spec fn aes128_encrypted(key: Seq<u8>, block: Seq<u8>) -> Seq<u8>;

/// The block that inverse AES-128 under `key` makes of `block`, as the `aes`
/// crate computes it.
pub uninterp spec fn aes128_decrypted(key: Seq<u8>, block: Seq<u8>) -> Seq<u8>;

/// Calls `encrypt_block` of `aes::Aes128`. Trusted: the result depends on the
/// key and the block alone. What the cipher computes is not stated.
#[verifier::external_body]
fn aes128_encrypt_block(key: &[u8; 16], block: &[u8; 16]) -> (out: [u8; 16])
    ensures
        out@ == aes128_encrypted(key@, block@),
{
    let cipher = Aes128::new(&Array::from(*key));
    let mut buffer = Array::from(*block);
    cipher.encrypt_block(&mut buffer);
    buffer.into()
}

/// Calls `decrypt_block` of `aes::Aes128`. Trusted: the result depends on the
/// key and the block alone. What the cipher computes is not stated.
#[verifier::external_body]
fn aes128_decrypt_block(key: &[u8; 16], block: &[u8; 16]) -> (out: [u8; 16])
    ensures
        out@ == aes128_decrypted(key@, block@),
{
    let cipher = Aes128::new(&Array::from(*key));
    let mut buffer = Array::from(*block);
    cipher.decrypt_block(&mut buffer);
    buffer.into()
}

/// Decrypts one block with AES-128.
pub fn decrypt(key: &[u8; 16], data: &[u8; 16]) -> (block: [u8; 16])
    ensures
        block@ == aes128_decrypted(key@, data@),
{
    aes128_decrypt_block(key, data)
}

/// The bytes that `s` writes as hexadecimal pairs, if it consists of such pairs.
pub open spec fn hex_bytes(s: Seq<char>) -> Option<Seq<u8>> {
    if s.len() % 2 == 0 && forall|i: int| 0 <= i < s.len() ==> hex_digit(#[trigger] s[i]) is Some {
        Some(
            Seq::new(
                s.len() / 2,
                |i: int| (16 * hex_digit(s[2 * i]).unwrap() + hex_digit(s[2 * i + 1]).unwrap()) as u8,
            ),
        )
    } else {
        None
    }
}

/// Calls `hex::decode`. Trusted: it succeeds exactly on an even number of
/// hexadecimal digits of either case, and then gives one byte for each pair,
/// the first digit being the high half.
#[verifier::external_body]
fn hex_decode(text: &str) -> (r: Option<Vec<u8>>)
    ensures
        match r {
            Some(bytes) => hex_bytes(text@) == Some(bytes@),
            None => hex_bytes(text@) is None,
        },
{
    hex::decode(text).ok()
}

/// The 128-bit key that `s` writes in hexadecimal, if it writes one.
pub open spec fn written_key(s: Seq<char>) -> Option<Seq<u8>> {
    match hex_bytes(s) {
        Some(bytes) if bytes.len() == 16 => Some(bytes),
        _ => None,
    }
}

/// A key is written by exactly thirty-two hexadecimal digits: each octet by two
/// digits that follow each other, the first being the high half.
pub proof fn keys_are_thirty_two_digits(text: Seq<char>, key: Seq<u8>)
    ensures
        written_key(text) == Some(key) <==> {
            &&& text.len() == 32
            &&& forall|i: int| 0 <= i < 32 ==> hex_digit(#[trigger] text[i]) is Some
            &&& key.len() == 16
            &&& forall|i: int|
                0 <= i < 16 ==> (#[trigger] key[i]) as int == 16 * hex_digit(text[2 * i]).unwrap()
                    + hex_digit(text[2 * i + 1]).unwrap()
        },
        written_key(text) is Some <==> text.len() == 32 && forall|i: int|
            0 <= i < 32 ==> hex_digit(#[trigger] text[i]) is Some,
{
    if text.len() == 32 && forall|i: int| 0 <= i < 32 ==> hex_digit(#[trigger] text[i]) is Some {
        let bytes = hex_bytes(text).unwrap();
        assert forall|i: int| 0 <= i < 16 implies (#[trigger] bytes[i]) as int == 16 * hex_digit(
            text[2 * i],
        ).unwrap() + hex_digit(text[2 * i + 1]).unwrap() by {
            assert(hex_digit(text[2 * i]) is Some);
            assert(hex_digit(text[2 * i + 1]) is Some);
        }
        if key.len() == 16 && forall|i: int|
            0 <= i < 16 ==> (#[trigger] key[i]) as int == 16 * hex_digit(text[2 * i]).unwrap()
                + hex_digit(text[2 * i + 1]).unwrap() {
            assert forall|i: int| 0 <= i < 16 implies key[i] == bytes[i] by {
                assert(key[i] as int == bytes[i] as int);
            }
            assert(key =~= bytes);
        }
    }
}

/// Reads a 128-bit key from hexadecimal digits.
pub fn read_key(text: &str) -> (r: Option<[u8; 16]>)
    ensures
        match r {
            Some(key) => written_key(text@) == Some(key@),
            None => written_key(text@) is None,
        },
        r is Some <==> text@.len() == 32 && forall|i: int|
            0 <= i < 32 ==> hex_digit(#[trigger] text@[i]) is Some,
        r matches Some(key) ==> forall|i: int|
            0 <= i < 16 ==> (#[trigger] key@[i]) as int == 16 * hex_digit(text@[2 * i]).unwrap()
                + hex_digit(text@[2 * i + 1]).unwrap(),
{
    proof {
        if written_key(text@) is Some {
            keys_are_thirty_two_digits(text@, written_key(text@).unwrap());
        }
        if text@.len() == 32 && forall|i: int|
            0 <= i < 32 ==> hex_digit(#[trigger] text@[i]) is Some {
            assert(written_key(text@) is Some);
        }
    }
    match hex_decode(text) {
        None => None,
        Some(bytes) => {
            if bytes.len() != 16 {
                return None;
            }
            let mut key: [u8; 16] = [0;16];
            let mut i: usize = 0;
            while i < 16
                invariant
                    i <= 16,
                    bytes@.len() == 16,
                    forall|j: int| 0 <= j < i ==> key@[j] == bytes@[j],
                decreases 16 - i,
            {
                key[i] = bytes[i];
                i = i + 1;
            }
            assert(key@ =~= bytes@);
            Some(key)
        },
    }
}

/// The security function `e` on numbers held least significant octet first.
pub open spec fn e_result(key: Seq<u8>, data: Seq<u8>) -> Seq<u8> {
    aes128_encrypted(key.reverse(), data.reverse()).reverse()
}

fn reversed(a: &[u8; 16]) -> (r: [u8; 16])
    ensures
        r@ == a@.reverse(),
{
    let mut r: [u8; 16] = [0;16];
    let mut i: usize = 0;
    while i < 16
        invariant
            i <= 16,
            forall|j: int| 0 <= j < i ==> r@[j] == a@[15 - j],
        decreases 16 - i,
    {
        r[i] = a[15 - i];
        i = i + 1;
    }
    assert(r@ =~= a@.reverse());
    r
}

/// The security function `e` on numbers held least significant octet first.
pub fn e(key: &[u8; 16], data: &[u8; 16]) -> (r: [u8; 16])
    ensures
        r@ == e_result(key@, data@),
        forall|i: int|
            0 <= i < 16 ==> #[trigger] r@[i] == aes128_encrypted(
                key@.reverse(),
                data@.reverse(),
            )[15 - i],
{
    reversed(&aes128_encrypt_block(&reversed(key), &reversed(data)))
}

} // verus!
