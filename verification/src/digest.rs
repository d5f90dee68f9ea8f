//! SHA-256, and message authentication with it.

use crate::hex::{hex_encode, hex_spec};
use sha2::Digest;
use vstd::prelude::*;

verus! {

/// The SHA-256 digest of a byte string.
pub uninterp spec fn sha256_spec(bytes: Seq<u8>) -> Seq<u8>;

/// Calls `sha2::Sha256::digest`. Believed of it: the digest is a function of
/// the bytes and has 32 bytes.
#[verifier::external_body]
pub(crate) fn sha256(bytes: &[u8]) -> (res: Vec<u8>)
    ensures
        res@ == sha256_spec(bytes@),
        res@.len() == 32,
{
    sha2::Sha256::digest(bytes).to_vec()
}

/// The SHA-256 digest of `bytes` in lower-case hexadecimal.
pub fn hex_sha256(bytes: &[u8]) -> (res: String)
    ensures
        res@ == hex_spec(sha256_spec(bytes@)),
        res@.len() == 64,
{
    let digest = sha256(bytes);
    hex_encode(&digest)
}

/// How many bytes SHA-256 takes in at a time.
pub const BLOCK: usize = 64;

/// A key filled up with zeros to one block; a longer one is digested first.
pub open spec fn key_block(key: Seq<u8>) -> Seq<u8> {
    let short = if key.len() > BLOCK {
        sha256_spec(key)
    } else {
        key
    };
    Seq::new(
        BLOCK as nat,
        |i: int|
            if i < short.len() {
                short[i]
            } else {
                0u8
            },
    )
}

/// A block with each of its bytes combined with `pad`.
pub open spec fn masked(block: Seq<u8>, pad: u8) -> Seq<u8> {
    Seq::new(block.len(), |i: int| block[i] ^ pad)
}

/// The HMAC-SHA256 of a message under a key.
pub open spec fn hmac_spec(key: Seq<u8>, message: Seq<u8>) -> Seq<u8> {
    sha256_spec(
        masked(key_block(key), 0x5c) + sha256_spec(masked(key_block(key), 0x36) + message),
    )
}

/// A key filled up with zeros to one block.
fn to_key_block(key: &[u8]) -> (res: Vec<u8>)
    ensures
        res@ == key_block(key@),
{
    let mut block: Vec<u8> = if key.len() > BLOCK {
        sha256(key)
    } else {
        vstd::slice::slice_to_vec(key)
    };
    let ghost short = block@;
    while block.len() < BLOCK
        invariant
            short.len() <= block@.len() <= BLOCK,
            forall|i: int| 0 <= i < short.len() ==> block@[i] == short[i],
            forall|i: int| short.len() <= i < block@.len() ==> block@[i] == 0,
        decreases BLOCK - block@.len(),
    {
        block.push(0);
    }
    assert(block@ =~= key_block(key@));
    block
}

/// A block, masked with `pad`, and `rest` after it.
fn masked_before(block: &Vec<u8>, pad: u8, rest: &[u8]) -> (res: Vec<u8>)
    ensures
        res@ == masked(block@, pad) + rest@,
{
    let mut res: Vec<u8> = Vec::new();
    let mut i: usize = 0;
    while i < block.len()
        invariant
            i <= block@.len(),
            res@ == masked(block@, pad).take(i as int),
        decreases block@.len() - i,
    {
        res.push(block[i] ^ pad);
        assert(res@ =~= masked(block@, pad).take(i + 1));
        i = i + 1;
    }
    assert(res@ =~= masked(block@, pad));
    res.extend_from_slice(rest);
    assert(res@ =~= masked(block@, pad) + rest@);
    res
}

/// The HMAC-SHA256 of `message` under `key`.
pub fn hmac_sha256(key: &[u8], message: &[u8]) -> (res: Vec<u8>)
    ensures
        res@ == hmac_spec(key@, message@),
        res@.len() == 32,
{
    let block = to_key_block(key);
    let inner = sha256(&masked_before(&block, 0x36, message));
    sha256(&masked_before(&block, 0x5c, &inner))
}

/// A key of up to one block is kept and filled up with zeros, so that a key with
/// zeros behind it stands for the same block; masking twice with one pad gives a
/// block back.
pub proof fn law_keys_are_filled_up_with_zeros(key: Seq<u8>, pad: u8)
    ensures
        key_block(key).len() == 64,
        key.len() <= 64 ==> key_block(key).take(key.len() as int) == key && forall|i: int|
            key.len() <= i < 64 ==> #[trigger] key_block(key)[i] == 0,
        key.len() < 64 ==> key_block(key.push(0)) == key_block(key),
        masked(masked(key_block(key), pad), pad) == key_block(key),
{
    let block = key_block(key);
    if key.len() <= 64 {
        assert(block.take(key.len() as int) =~= key);
    }
    if key.len() < 64 {
        assert(key_block(key.push(0)) =~= block);
    }
    assert forall|i: int| 0 <= i < block.len() implies (#[trigger] block[i] ^ pad) ^ pad
        == block[i] by {
        let b = block[i];
        assert((b ^ pad) ^ pad == b) by (bit_vector);
    }
    assert(masked(masked(block, pad), pad) =~= block);
}

/// A message is authenticated as the standard for it says: its digest behind the
/// key's block under one pad, and the digest of that behind the block under the
/// other.
pub proof fn law_messages_are_digested_twice(key: Seq<u8>, message: Seq<u8>)
    ensures
        ({
            let inner = Seq::new(64, |i: int| key_block(key)[i] ^ 0x36);
            let outer = Seq::new(64, |i: int| key_block(key)[i] ^ 0x5c);
            hmac_spec(key, message) == sha256_spec(outer + sha256_spec(inner + message))
        }),
{
    let inner = Seq::new(64, |i: int| key_block(key)[i] ^ 0x36);
    let outer = Seq::new(64, |i: int| key_block(key)[i] ^ 0x5c);
    assert(masked(key_block(key), 0x36) =~= inner);
    assert(masked(key_block(key), 0x5c) =~= outer);
}

} // verus!
