use vstd::prelude::*;
use vstd::utf8::{decode_utf8, valid_utf8};

verus! {

/// What `encoding_rs::GBK.decode_without_bom_handling` gives for a byte
/// sequence: the text, and whether malformed sequences were replaced.
pub uninterp spec fn gbk_decoding(bytes: Seq<u8>) -> (Seq<char>, bool);

/// What `String::from_utf8_lossy` gives for a byte sequence.
pub uninterp spec fn utf8_lossy_text(bytes: Seq<u8>) -> Seq<char>;

/// Relies on `std::str::from_utf8`: it succeeds exactly on well-formed UTF-8,
/// and the text it gives is that decoding.
#[verifier::external_body]
pub(crate) fn utf8_text(bytes: &[u8]) -> (r: Option<String>)
    ensures
        r.is_some() == valid_utf8(bytes@),
        r matches Some(s) ==> s@ == decode_utf8(bytes@),
{
    std::str::from_utf8(bytes).ok().map(|s| s.to_string())
}

/// Relies on `encoding_rs::Encoding::decode_without_bom_handling` for GBK:
/// the text and the malformed-input flag depend on the bytes alone.
#[verifier::external_body]
pub(crate) fn gbk_decode(bytes: &[u8]) -> (r: (String, bool))
    ensures
        (r.0@, r.1) == gbk_decoding(bytes@),
{
    let (text, had_errors) = encoding_rs::GBK.decode_without_bom_handling(bytes);
    (text.into_owned(), had_errors)
}

/// Relies on `String::from_utf8_lossy`: well-formed UTF-8 is decoded as it
/// stands.
#[verifier::external_body]
pub(crate) fn utf8_lossy(bytes: &[u8]) -> (r: String)
    ensures
        r@ == utf8_lossy_text(bytes@),
        valid_utf8(bytes@) ==> r@ == decode_utf8(bytes@),
{
    String::from_utf8_lossy(bytes).into_owned()
}

/// The encoding under which a byte buffer was read as text.
#[derive(Clone, Copy, Debug, PartialEq, Eq, Structural)]
pub enum TextEncoding {
    Utf8,
    Gbk,
}

/// Text recovered from a byte buffer.
pub struct DecodedText {
    pub text: String,
    pub encoding: TextEncoding,
}

/// The fixed fallback chain: strict UTF-8, then GBK; `None` when GBK
/// reports malformed input as well.
pub open spec fn decoded_spec(bytes: Seq<u8>) -> Option<(Seq<char>, TextEncoding)> {
    if valid_utf8(bytes) {
        Some((decode_utf8(bytes), TextEncoding::Utf8))
    } else if gbk_decoding(bytes).1 {
        None
    } else {
        Some((gbk_decoding(bytes).0, TextEncoding::Gbk))
    }
}

/// Reads a byte buffer as text: UTF-8 when it is well-formed UTF-8, else GBK
/// unless GBK finds malformed sequences too.
pub fn decode_text(bytes: &[u8]) -> (r: Option<DecodedText>)
    ensures
        r.is_some() == decoded_spec(bytes@).is_some(),
        r matches Some(d) ==> decoded_spec(bytes@) == Some((d.text@, d.encoding)),
{
    match utf8_text(bytes) {
        Some(text) => Some(DecodedText { text, encoding: TextEncoding::Utf8 }),
        None => {
            let (text, had_errors) = gbk_decode(bytes);
            if had_errors {
                None
            } else {
                Some(DecodedText { text, encoding: TextEncoding::Gbk })
            }
        },
    }
}

/// Reads a name as text: UTF-8 when well-formed, else GBK with replacement
/// characters for what GBK cannot map.
pub open spec fn name_text_spec(bytes: Seq<u8>) -> Seq<char> {
    if valid_utf8(bytes) {
        decode_utf8(bytes)
    } else {
        gbk_decoding(bytes).0
    }
}

pub fn decode_name(bytes: &[u8]) -> (r: String)
    ensures
        r@ == name_text_spec(bytes@),
{
    match utf8_text(bytes) {
        Some(text) => text,
        None => gbk_decode(bytes).0,
    }
}

} // verus!
