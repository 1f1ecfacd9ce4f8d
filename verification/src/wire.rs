//! The byte layout of the pieces that messages are made of.
//!
//! A message is a variant tag followed by the variant's fields. A tag is a
//! `u32` in little-endian order. A text field is its length in bytes as a
//! little-endian `u64`, followed by its UTF-8 encoding. Text fields are
//! written and read by `bincode`; tags are written and read here.

use vstd::bytes::*;
use vstd::prelude::*;
use vstd::slice::slice_subrange;
use vstd::utf8::*;

verus! {

/// `bincode::ErrorKind`, the reason `bincode` gives when it fails. Nothing is
/// known of its contents.
#[verifier::external_type_specification]
#[verifier::external_body]
pub struct ExErrorKind(bincode::ErrorKind);

/// Number of bytes of a variant tag.
pub const TAG_LEN: usize = 4;

/// Number of bytes of the length that precedes a text.
pub const LEN_LEN: usize = 8;

/// The bytes of a variant tag.
pub open spec fn tag_bytes(tag: u32) -> Seq<u8> {
    spec_u32_to_le_bytes(tag)
}

/// The tag that `bytes` start with, if they hold one.
pub open spec fn parse_tag(bytes: Seq<u8>) -> Option<u32> {
    if bytes.len() >= 4 {
        Some(spec_u32_from_le_bytes(bytes.subrange(0, 4)))
    } else {
        None
    }
}

/// Whether the length of `text` in bytes can be written down.
pub open spec fn text_fits(text: Seq<char>) -> bool {
    encode_utf8(text).len() <= u64::MAX
}

/// The bytes of a text field.
pub open spec fn text_bytes(text: Seq<char>) -> Seq<u8> {
    spec_u64_to_le_bytes(encode_utf8(text).len() as u64) + encode_utf8(text)
}

/// A text field found at the start of some bytes.
pub struct ParsedText {
    /// The text.
    pub text: Seq<char>,
    /// The number of bytes that the field takes.
    pub used: int,
}

/// The text field that `bytes` start with, if they start with one: a length,
/// then at least that many bytes, of which the first that many are valid
/// UTF-8. What follows them is not looked at.
pub open spec fn parse_text(bytes: Seq<u8>) -> Option<ParsedText> {
    if bytes.len() >= 8 {
        let len = spec_u64_from_le_bytes(bytes.subrange(0, 8)) as int;
        if len <= bytes.len() - 8 && valid_utf8(bytes.subrange(8, 8 + len)) {
            Some(ParsedText { text: decode_utf8(bytes.subrange(8, 8 + len)), used: 8 + len })
        } else {
            None
        }
    } else {
        None
    }
}

/// Calls `bincode::serialize` on a string. With the configuration of that
/// function (fixed-width integers, little-endian, no size limit) it cannot
/// fail on a string and yields the string's length in bytes as eight
/// little-endian bytes, followed by the string's bytes.
#[verifier::external_body]
pub(crate) fn write_text(text: &str) -> (written: Result<Vec<u8>, bincode::Error>)
    ensures
        written is Ok,
        written->Ok_0@ == text_bytes(text@),
{
    bincode::serialize(text)
}

/// Calls `bincode::deserialize` for a `String`. With the configuration of that
/// function (fixed-width integers, little-endian, no size limit, trailing
/// bytes allowed) it succeeds exactly when the slice starts with eight bytes
/// of little-endian length, holds at least that many bytes after them, and
/// those are valid UTF-8; it then yields the string they encode.
#[verifier::external_body]
pub(crate) fn read_text(bytes: &[u8]) -> (read: Result<String, bincode::Error>)
    ensures
        read is Ok <==> parse_text(bytes@) is Some,
        read matches Ok(text) ==> text@ == parse_text(bytes@)->Some_0.text,
{
    bincode::deserialize(bytes)
}

/// A tag is read back from what was written for it, whatever follows.
pub proof fn tag_round_trip(tag: u32, rest: Seq<u8>)
    ensures
        tag_bytes(tag).len() == 4,
        parse_tag(tag_bytes(tag) + rest) == Some(tag),
        (tag_bytes(tag) + rest).subrange(4, (tag_bytes(tag) + rest).len() as int) == rest,
{
    lemma_auto_spec_u32_to_from_le_bytes();
    let all = tag_bytes(tag) + rest;
    assert(all.subrange(0, 4) =~= tag_bytes(tag));
    assert(all.subrange(4, all.len() as int) =~= rest);
}

/// A text is read back from what was written for it, whatever follows, and
/// the reader takes exactly the bytes that were written.
pub proof fn text_round_trip(text: Seq<char>, rest: Seq<u8>)
    requires
        text_fits(text),
    ensures
        parse_text(text_bytes(text) + rest) == Some(
            ParsedText { text, used: text_bytes(text).len() as int },
        ),
        (text_bytes(text) + rest).subrange(
            text_bytes(text).len() as int,
            (text_bytes(text) + rest).len() as int,
        ) == rest,
{
    lemma_auto_spec_u64_to_from_le_bytes();
    encode_utf8_valid_utf8(text);
    encode_utf8_decode_utf8(text);
    let payload = encode_utf8(text);
    let len = payload.len() as u64;
    let all = text_bytes(text) + rest;
    assert(all.subrange(0, 8) =~= spec_u64_to_le_bytes(len));
    assert(all.subrange(8, 8 + len) =~= payload);
    assert(all.subrange(text_bytes(text).len() as int, all.len() as int) =~= rest);
}

/// The bytes that a text was read from are exactly the bytes that writing it
/// gives back.
pub proof fn parsed_text_bytes(bytes: Seq<u8>)
    requires
        parse_text(bytes) is Some,
    ensures
        text_fits(parse_text(bytes)->Some_0.text),
        8 <= parse_text(bytes)->Some_0.used <= bytes.len(),
        text_bytes(parse_text(bytes)->Some_0.text) == bytes.subrange(
            0,
            parse_text(bytes)->Some_0.used,
        ),
        encode_utf8(parse_text(bytes)->Some_0.text).len() + 8 == parse_text(bytes)->Some_0.used,
{
    lemma_auto_spec_u64_to_from_le_bytes();
    let head = bytes.subrange(0, 8);
    let len = spec_u64_from_le_bytes(head);
    let payload = bytes.subrange(8, 8 + len);
    decode_utf8_encode_utf8(payload);
    assert(spec_u64_to_le_bytes(len) == head);
    assert(head + payload =~= bytes.subrange(0, 8 + len));
}

/// Appends a variant tag to `out`.
pub(crate) fn put_tag(out: &mut Vec<u8>, tag: u32)
    ensures
        final(out)@ == old(out)@ + tag_bytes(tag),
{
    let mut piece = u32_to_le_bytes(tag);
    out.append(&mut piece);
}

/// Appends a text field to `out`.
pub(crate) fn put_text(out: &mut Vec<u8>, text: &str)
    ensures
        final(out)@ == old(out)@ + text_bytes(text@),
        text_fits(text@),
{
    let len = text.as_bytes().len();
    assert(encode_utf8(text@).len() == len);
    let mut piece = write_text(text).unwrap();
    out.append(&mut piece);
}

/// Reads the variant tag that `bytes` start with.
pub(crate) fn take_tag(bytes: &[u8]) -> (tag: Option<u32>)
    ensures
        tag == parse_tag(bytes@),
{
    if bytes.len() < TAG_LEN {
        None
    } else {
        Some(u32_from_le_bytes(slice_subrange(bytes, 0, TAG_LEN)))
    }
}

/// Reads the text field that `bytes` start with, and says how many bytes it
/// takes.
pub(crate) fn take_text(bytes: &[u8]) -> (taken: Option<(String, usize)>)
    ensures
        match taken {
            Some((text, used)) => parse_text(bytes@) == Some(
                ParsedText { text: text@, used: used as int },
            ),
            None => parse_text(bytes@) is None,
        },
{
    match read_text(bytes) {
        Ok(text) => {
            let total = bytes.len();
            proof {
                parsed_text_bytes(bytes@);
                assert(encode_utf8(text@).len() + 8 <= total);
            }
            let used = LEN_LEN + text.as_str().len();
            Some((text, used))
        },
        Err(_) => None,
    }
}

} // verus!
