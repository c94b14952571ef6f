use vstd::prelude::*;

verus! {

/// The text with a leading byte-order mark removed.
pub open spec fn spec_strip_bom(s: Seq<char>) -> Seq<char> {
    if s.len() > 0 && s[0] == '\u{FEFF}' {
        s.skip(1)
    } else {
        s
    }
}

/// Relies on encoding_rs::UTF_8::decode_with_bom_removal: on input that is
/// already valid UTF-8 text it removes the three-byte prefix that encodes
/// the byte-order mark character, where present, and decodes the rest to
/// itself.
#[verifier::external_body]
pub fn decode_utf8_with_bom_removal(text: &str) -> (r: String)
    ensures
        r@ == spec_strip_bom(text@),
{
    let (cow, _) = encoding_rs::UTF_8.decode_with_bom_removal(text.as_bytes());
    cow.into_owned()
}

} // verus!
