//! The wire form of a command: a JSON array of strings in UTF-8.

use crate::text::words;
use vstd::prelude::*;
use vstd::string::StrSliceExecFns;
use vstd::utf8::{decode_utf8, encode_utf8, valid_utf8};

verus! {

/// `serde_json::Error`: carried, unread, from the parser to where it is
/// turned into a `CodecError`.
#[verifier::external_type_specification]
#[verifier::external_body]
pub struct ExJsonError(serde_json::Error);

/// The JSON text that `serde_json::to_string` writes for a list of strings.
pub uninterp spec fn json_text(list: Seq<Seq<char>>) -> Seq<char>;

/// What `serde_json::from_str` reads from a text as a list of strings, or
/// `None` where it refuses the text.
pub uninterp spec fn json_words(text: Seq<char>) -> Option<Seq<Seq<char>>>;

/// The text that `String::from_utf8_lossy` makes of any bytes.
pub uninterp spec fn lossy_text(bytes: Seq<u8>) -> Seq<char>;

/// Why a datagram was not taken for a command.
#[derive(Debug, Clone, Copy, PartialEq, Eq, Structural)]
pub enum CodecError {
    /// The payload is not a JSON array of strings.
    MalformedCommand,
}

/// The payload that carries `list`.
pub open spec fn encoded(list: Seq<Seq<char>>) -> Seq<u8> {
    encode_utf8(json_text(list))
}

/// The text that a payload is read as: what it encodes where it is valid
/// UTF-8, and a lossy reading otherwise.
pub open spec fn wire_text(payload: Seq<u8>) -> Seq<char> {
    if valid_utf8(payload) {
        decode_utf8(payload)
    } else {
        lossy_text(payload)
    }
}

/// The command that a payload carries, if it carries one.
pub open spec fn decoded(payload: Seq<u8>) -> Option<Seq<Seq<char>>> {
    json_words(wire_text(payload))
}

/// `serde_json::to_string` on a list of strings. A list of strings has no
/// map keys and its serialisation cannot decline, so the call succeeds; the
/// text it writes is a function of the strings alone, and reading that text
/// back with `serde_json::from_str` gives the same strings.
#[verifier::external_body]
fn to_json(list: &Vec<String>) -> (r: Result<String, serde_json::Error>)
    ensures
        r is Ok,
        r->Ok_0@ == json_text(words(list@)),
        json_words(r->Ok_0@) == Some(words(list@)),
{
    serde_json::to_string(list)
}

/// `serde_json::from_str` reading a list of strings: the list that the text
/// denotes, or the crate's error where the text is not a JSON array of strings.
#[verifier::external_body]
fn from_json(text: &str) -> (r: Result<Vec<String>, serde_json::Error>)
    ensures
        match r {
            Ok(list) => json_words(text@) == Some(words(list@)),
            Err(_) => json_words(text@) is None,
        },
{
    serde_json::from_str(text)
}

/// `String::from_utf8_lossy`: the text of the bytes, with each invalid
/// sequence replaced. Valid UTF-8 is returned as the string it encodes.
#[verifier::external_body]
fn text_of(bytes: &[u8]) -> (r: String)
    ensures
        valid_utf8(bytes@) ==> r@ == decode_utf8(bytes@),
        !valid_utf8(bytes@) ==> r@ == lossy_text(bytes@),
{
    String::from_utf8_lossy(bytes).into_owned()
}

/// The text of a received datagram, for printing: what the bytes encode
/// where they are valid UTF-8, and a lossy reading otherwise.
pub fn printable(chunk: &[u8]) -> (text: String)
    ensures
        text@ == wire_text(chunk@),
{
    text_of(chunk)
}

/// Serialises a command for the wire.
///
/// The payload is the UTF-8 form of the JSON array of the arguments, and
/// decoding it gives the arguments back.
pub fn encode(args: &Vec<String>) -> (payload: Vec<u8>)
    ensures
        payload@ == encoded(words(args@)),
        decoded(payload@) == Some(words(args@)),
{
    let payload = match to_json(args) {
        Ok(text) => text.as_str().as_bytes_vec(),
        Err(_) => vstd::pervasive::unreached(),
    };
    proof {
        lemma_wire_text_of_encoding(json_text(words(args@)));
    }
    payload
}

/// Reads a command from a datagram's payload.
pub fn decode(payload: &[u8]) -> (r: Result<Vec<String>, CodecError>)
    ensures
        match r {
            Ok(args) => decoded(payload@) == Some(words(args@)),
            Err(e) => decoded(payload@) is None && e == CodecError::MalformedCommand,
        },
{
    let text = printable(payload);
    match from_json(text.as_str()) {
        Ok(args) => Ok(args),
        Err(_) => Err(CodecError::MalformedCommand),
    }
}

/// The UTF-8 form of any text is read back as that text.
pub proof fn lemma_wire_text_of_encoding(text: Seq<char>)
    ensures
        wire_text(encode_utf8(text)) == text,
{
    vstd::utf8::encode_utf8_valid_utf8(text);
    vstd::utf8::encode_utf8_decode_utf8(text);
}

} // verus!
