//! Account addresses as plain 32-byte arrays, their base58 text form and
//! the SHA-256 digest that the program computes over them.

use solana_program::pubkey::Pubkey;
use std::str::FromStr;
use vstd::prelude::*;

verus! {

/// True when every byte of the address is zero: the value `Pubkey::default()` has.
pub open spec fn is_zero_key(k: Seq<u8>) -> bool {
    forall|i: int| 0 <= i < k.len() ==> k[i] == 0
}

/// A character of the base58 alphabet: the ASCII digits `1`..`9` and the letters
/// other than `I`, `O` and `l` (the codes below).
pub open spec fn is_base58_char(c: u8) -> bool {
    ||| (49 <= c <= 57)
    ||| (65 <= c <= 72)
    ||| (74 <= c <= 78)
    ||| (80 <= c <= 90)
    ||| (97 <= c <= 107)
    ||| (109 <= c <= 122)
}

/// Whether the address is the all-zero address.
pub fn key_is_zero(k: &[u8; 32]) -> (res: bool)
    ensures
        res == is_zero_key(k@),
{
    let mut i: usize = 0;
    while i < 32
        invariant
            0 <= i <= 32,
            forall|j: int| 0 <= j < i ==> k@[j] == 0,
        decreases 32 - i,
    {
        if k[i] != 0 {
            return false;
        }
        i = i + 1;
    }
    true
}

/// Byte-wise comparison of two addresses.
pub fn keys_equal(a: &[u8; 32], b: &[u8; 32]) -> (res: bool)
    ensures
        res == (a@ == b@),
{
    let mut i: usize = 0;
    while i < 32
        invariant
            0 <= i <= 32,
            forall|j: int| 0 <= j < i ==> a@[j] == b@[j],
        decreases 32 - i,
    {
        if a[i] != b[i] {
            return false;
        }
        i = i + 1;
    }
    assert(a@ =~= b@);
    true
}

/// What `Pubkey::from_str` gives for the text whose UTF-8 bytes are `text`:
/// the 32 bytes of the address, or `None` where it returns an error.
pub uninterp spec fn pubkey_from_text(text: Seq<u8>) -> Option<Seq<u8>>;

/// The bytes of the base58 text that `Pubkey`'s `Display` writes for the address `key`.
pub uninterp spec fn pubkey_text(key: Seq<u8>) -> Seq<u8>;

/// SHA-256 digest of `data`, as `solana_program::hash::hash` computes it.
pub uninterp spec fn sha256(data: Seq<u8>) -> Seq<u8>;

/// Calls `Pubkey::from_str` on the text whose UTF-8 bytes are `text` (bytes that are no
/// UTF-8 text give `None`). Claimed: the result is the one `pubkey_from_text` names.
#[verifier::external_body]
pub(crate) fn parse_pubkey(text: &[u8]) -> (res: Option<[u8; 32]>)
    ensures
        res is Some <==> pubkey_from_text(text@) is Some,
        res matches Some(k) ==> pubkey_from_text(text@) == Some(k@),
{
    match std::str::from_utf8(text) {
        Ok(s) => match Pubkey::from_str(s) {
            Ok(k) => Some(k.to_bytes()),
            Err(_) => None,
        },
        Err(_) => None,
    }
}

/// Calls `Pubkey`'s `Display` (`bs58` encoding of the 32 bytes) and returns the text's bytes.
/// Claimed, from the source of `Display` and `FromStr` (base58 encoding and decoding
/// are inverse, and 32 bytes encode in at most 44 characters): the text consists of base58
/// characters only, and `Pubkey::from_str` on it gives back the same address.
#[verifier::external_body]
pub(crate) fn format_pubkey(key: &[u8; 32]) -> (res: Vec<u8>)
    ensures
        res@ == pubkey_text(key@),
        forall|i: int| 0 <= i < res@.len() ==> is_base58_char(#[trigger] res@[i]),
        pubkey_from_text(res@) == Some(key@),
{
    Pubkey::new_from_array(*key).to_string().into_bytes()
}

/// Calls `solana_program::hash::hash` (SHA-256). Claimed: the 32 bytes of the digest are
/// the ones `sha256` names for `data`.
#[verifier::external_body]
pub(crate) fn hash(data: &[u8]) -> (res: [u8; 32])
    ensures
        res@ == sha256(data@),
{
    solana_program::hash::hash(data).to_bytes()
}

} // verus!
