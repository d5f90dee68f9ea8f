//! Random bytes from the operating system.

use crate::hex::{hex_encode, hex_spec};
use vstd::prelude::*;

verus! {

/// Calls `getrandom::getrandom`. Believed of it: it fills a buffer of `n`
/// bytes, or fails. Nothing is claimed of what the bytes are.
#[verifier::external_body]
pub(crate) fn random_bytes(n: usize) -> (res: Option<Vec<u8>>)
    ensures
        res matches Some(bytes) ==> bytes@.len() == n,
{
    let mut bytes = vec![0u8; n];
    match getrandom::getrandom(&mut bytes) {
        Ok(()) => Some(bytes),
        Err(_) => None,
    }
}

/// The secret text that drawn bytes make: the bytes in lower-case hexadecimal,
/// and none where none could be drawn.
pub fn secret_text(drawn: Option<Vec<u8>>) -> (res: Option<String>)
    ensures
        match drawn {
            Some(bytes) => res matches Some(text) && text@ == hex_spec(bytes@),
            None => res is None,
        },
{
    match drawn {
        Some(bytes) => Some(hex_encode(&bytes)),
        None => None,
    }
}

} // verus!
