//! Base64 and JSON text.

use base64::Engine;
use vstd::prelude::*;

verus! {

/// The bytes that a text stands for in padded standard Base64; `None` where it
/// stands for none.
pub uninterp spec fn base64_bytes(text: Seq<char>) -> Option<Seq<u8>>;

/// Calls `decode` of `base64::engine::general_purpose::STANDARD`. Believed of
/// it: what it gives depends on the text alone.
#[verifier::external_body]
pub(crate) fn base64_decode(text: &str) -> (res: Option<Vec<u8>>)
    ensures
        match res {
            Some(bytes) => base64_bytes(text@) == Some(bytes@),
            None => base64_bytes(text@) is None,
        },
{
    match base64::engine::general_purpose::STANDARD.decode(text) {
        Ok(bytes) => Some(bytes),
        Err(_) => None,
    }
}

/// The unpadded URL-safe Base64 of a byte string.
pub uninterp spec fn base64_url(bytes: Seq<u8>) -> Seq<char>;

/// Calls `encode` of `base64::engine::general_purpose::URL_SAFE_NO_PAD`.
/// Believed of it: what it gives depends on the bytes alone, has four characters
/// for each three bytes, two more for one byte left and three more for two, and
/// never holds a dot.
#[verifier::external_body]
pub(crate) fn base64_url_encode(bytes: &[u8]) -> (res: String)
    ensures
        res@ == base64_url(bytes@),
        res@.len() == (4 * bytes@.len() + 2) / 3,
        !res@.contains('.'),
{
    base64::engine::general_purpose::URL_SAFE_NO_PAD.encode(bytes)
}

/// A value in a flat JSON object.
#[derive(Debug)]
pub enum Scalar {
    Text(String),
    Number(i64),
}

/// The model of a value in a flat JSON object.
pub enum ScalarView {
    Text(Seq<char>),
    Number(i64),
}

impl DeepView for Scalar {
    type V = ScalarView;

    open spec fn deep_view(&self) -> ScalarView {
        match *self {
            Scalar::Text(s) => ScalarView::Text(s@),
            Scalar::Number(n) => ScalarView::Number(n),
        }
    }
}

/// The compact JSON text of an object with these members.
pub uninterp spec fn object_text(members: Seq<(Seq<char>, ScalarView)>) -> Seq<char>;

/// Calls `to_string` of `serde_json::Value` on an object. Believed of it: the
/// text depends on the members alone.
#[verifier::external_body]
pub(crate) fn json_object(members: &Vec<(String, Scalar)>) -> (res: String)
    ensures
        res@ == object_text(members.deep_view()),
{
    let mut object = serde_json::Map::new();
    for (name, value) in members {
        let value = match value {
            Scalar::Text(s) => serde_json::Value::from(s.as_str()),
            Scalar::Number(n) => serde_json::Value::from(*n),
        };
        object.insert(name.clone(), value);
    }
    serde_json::Value::Object(object).to_string()
}

} // verus!
