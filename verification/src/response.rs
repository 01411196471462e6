//! Wire encodings of sampled bytes and colors.
//!
//! A result goes out as a map with one entry, whose key says what the result
//! is: `bytes` or `color`. In JSON the bytes are written as base64 text; in
//! CBOR they are a byte string and appear as they are. A color is written as
//! its text in both.

use crate::b64;
use crate::b64::base64_text;
use crate::b64::encodable_len;
use crate::color::black;
use crate::color::color_text;
use crate::color::hex_text;
use crate::color::white;
use crate::color::Color;
use crate::text::equals;
use vstd::prelude::*;
use vstd::string::StrSliceExecFns;
use vstd::string::StringExecFns;
use vstd::string::StringSliceAdditionalSpecFns;
use vstd::utf8::encode_utf8;

verus! {

/// A wire format for results.
#[derive(Clone, Copy, Debug, PartialEq, Eq, Structural)]
pub enum Format {
    Json,
    Cbor,
}

/// Why a result could not be encoded.
#[derive(Clone, Debug, PartialEq, Eq)]
pub enum EncodeError {
    /// The selector names no known format. `format` is the selector as it was
    /// given.
    UnsupportedFormat { format: String },
}

/// The selector of the JSON format.
pub open spec fn json_selector() -> Seq<char> {
    seq!['j', 's', 'o', 'n']
}

/// The selector of the CBOR format.
pub open spec fn cbor_selector() -> Seq<char> {
    seq!['c', 'b', 'o', 'r']
}

/// The format that a selector names, if it names one.
pub open spec fn format_of(selector: Seq<char>) -> Option<Format> {
    if selector == json_selector() {
        Some(Format::Json)
    } else if selector == cbor_selector() {
        Some(Format::Cbor)
    } else {
        None
    }
}

/// The key of a result that is a byte sequence.
pub open spec fn bytes_key() -> Seq<char> {
    seq!['b', 'y', 't', 'e', 's']
}

/// The key of a result that is a color.
pub open spec fn color_key() -> Seq<char> {
    seq!['c', 'o', 'l', 'o', 'r']
}

/// Whether a text can stand between the quotes of a JSON string as it is:
/// printable ASCII without a quote or a backslash.
pub open spec fn is_plain(text: Seq<char>) -> bool {
    forall|i: int|
        0 <= i < text.len() ==> ' ' <= #[trigger] text[i] <= '~' && text[i] != '"' && text[i]
            != '\\'
}

/// The JSON object with the one entry `key`, whose value is the string
/// `text`. Neither is escaped, so this is JSON where both are plain.
pub open spec fn json_entry(key: Seq<char>, text: Seq<char>) -> Seq<char> {
    seq!['{', '"'] + key + seq!['"', ':', '"'] + text + seq!['"', '}']
}

/// The JSON encoding of a byte sequence.
pub open spec fn json_bytes(data: Seq<u8>) -> Seq<u8> {
    encode_utf8(json_entry(bytes_key(), base64_text(data)))
}

/// The JSON encoding of a color.
pub open spec fn json_color(c: Color) -> Seq<u8> {
    encode_utf8(json_entry(color_key(), color_text(c)))
}

/// The head of a CBOR item: its major type and its length or value `n`, in
/// the shortest of the five forms that holds `n`, big-endian.
pub open spec fn cbor_head(major: u8, n: nat) -> Seq<u8>
    recommends
        major < 8,
        n <= u64::MAX,
{
    let m = major as int * 32;
    if n < 24 {
        seq![(m + n) as u8]
    } else if n < 0x100 {
        seq![(m + 24) as u8, n as u8]
    } else if n < 0x1_0000 {
        seq![(m + 25) as u8, (n / 0x100) as u8, (n % 0x100) as u8]
    } else if n < 0x1_0000_0000 {
        seq![
            (m + 26) as u8,
            (n / 0x100_0000) as u8,
            (n / 0x1_0000 % 0x100) as u8,
            (n / 0x100 % 0x100) as u8,
            (n % 0x100) as u8,
        ]
    } else {
        seq![
            (m + 27) as u8,
            (n / 0x100_0000_0000_0000 % 0x100) as u8,
            (n / 0x1_0000_0000_0000 % 0x100) as u8,
            (n / 0x100_0000_0000 % 0x100) as u8,
            (n / 0x1_0000_0000 % 0x100) as u8,
            (n / 0x100_0000 % 0x100) as u8,
            (n / 0x1_0000 % 0x100) as u8,
            (n / 0x100 % 0x100) as u8,
            (n % 0x100) as u8,
        ]
    }
}

/// A CBOR text string: major type 3, the number of UTF-8 bytes, the bytes.
pub open spec fn cbor_text(text: Seq<char>) -> Seq<u8> {
    cbor_head(3, encode_utf8(text).len()) + encode_utf8(text)
}

/// A CBOR byte string: major type 2, the number of bytes, the bytes.
pub open spec fn cbor_byte_string(data: Seq<u8>) -> Seq<u8> {
    cbor_head(2, data.len()) + data
}

/// The CBOR map with the one entry `key`, whose value is the item `value`.
pub open spec fn cbor_entry(key: Seq<char>, value: Seq<u8>) -> Seq<u8> {
    seq![0xA1u8] + cbor_text(key) + value
}

/// The CBOR encoding of a byte sequence.
pub open spec fn cbor_bytes(data: Seq<u8>) -> Seq<u8> {
    cbor_entry(bytes_key(), cbor_byte_string(data))
}

/// The CBOR encoding of a color.
pub open spec fn cbor_color(c: Color) -> Seq<u8> {
    cbor_entry(color_key(), cbor_text(color_text(c)))
}

/// The encoding of a byte sequence in a format.
pub open spec fn encoded_bytes(data: Seq<u8>, format: Format) -> Seq<u8> {
    match format {
        Format::Json => json_bytes(data),
        Format::Cbor => cbor_bytes(data),
    }
}

/// The encoding of a color in a format.
pub open spec fn encoded_color(c: Color, format: Format) -> Seq<u8> {
    match format {
        Format::Json => json_color(c),
        Format::Cbor => cbor_color(c),
    }
}

impl Format {
    /// Reads a format from its selector: `json` or `cbor`, in lower case.
    /// Every other selector is handed back unchanged inside the error.
    pub fn from_selector(selector: &str) -> (r: Result<Format, EncodeError>)
        ensures
            match format_of(selector@) {
                Some(f) => r == Ok::<Format, EncodeError>(f),
                None => r matches Err(EncodeError::UnsupportedFormat { format }) && format@
                    == selector@,
            },
    {
        proof {
            reveal_strlit("json");
            reveal_strlit("cbor");
            assert("json"@ =~= json_selector());
            assert("cbor"@ =~= cbor_selector());
        }
        if equals(selector, "json") {
            Ok(Format::Json)
        } else if equals(selector, "cbor") {
            Ok(Format::Cbor)
        } else {
            Err(EncodeError::UnsupportedFormat { format: selector.to_owned() })
        }
    }

    /// Reads a format from a selector that may be absent. No selector means
    /// JSON; a selector that is present is read as `from_selector` reads it.
    pub fn from_query(selector: Option<&str>) -> (r: Result<Format, EncodeError>)
        ensures
            match selector {
                None => r == Ok::<Format, EncodeError>(Format::Json),
                Some(s) => match format_of(s@) {
                    Some(f) => r == Ok::<Format, EncodeError>(f),
                    None => r matches Err(EncodeError::UnsupportedFormat { format }) && format@
                        == s@,
                },
            },
    {
        match selector {
            None => Ok(Format::Json),
            Some(s) => Format::from_selector(s),
        }
    }
}

/// Builds the JSON object with the one entry `key`, whose value is the string
/// `text`, as UTF-8.
fn json_object(key: &str, text: &str) -> (out: Vec<u8>)
    ensures
        out@ == encode_utf8(json_entry(key@, text@)),
{
    proof {
        reveal_strlit("{\"");
        reveal_strlit("\":\"");
        reveal_strlit("\"}");
    }
    let mut object = String::from_str("{\"");
    object.append(key);
    object.append("\":\"");
    object.append(text);
    object.append("\"}");
    assert(object@ =~= json_entry(key@, text@));
    object.as_str().as_bytes_vec()
}

/// Appends the head of a CBOR item.
fn push_head(out: &mut Vec<u8>, major: u8, n: u64)
    requires
        major < 8,
    ensures
        final(out)@ == old(out)@ + cbor_head(major, n as nat),
{
    let m: u8 = major * 32;
    if n < 24 {
        out.push(m + n as u8);
    } else if n < 0x100 {
        out.push(m + 24);
        out.push(n as u8);
    } else if n < 0x1_0000 {
        out.push(m + 25);
        out.push((n / 0x100) as u8);
        out.push((n % 0x100) as u8);
    } else if n < 0x1_0000_0000 {
        out.push(m + 26);
        out.push((n / 0x100_0000) as u8);
        out.push((n / 0x1_0000 % 0x100) as u8);
        out.push((n / 0x100 % 0x100) as u8);
        out.push((n % 0x100) as u8);
    } else {
        out.push(m + 27);
        out.push((n / 0x100_0000_0000_0000 % 0x100) as u8);
        out.push((n / 0x1_0000_0000_0000 % 0x100) as u8);
        out.push((n / 0x100_0000_0000 % 0x100) as u8);
        out.push((n / 0x1_0000_0000 % 0x100) as u8);
        out.push((n / 0x100_0000 % 0x100) as u8);
        out.push((n / 0x1_0000 % 0x100) as u8);
        out.push((n / 0x100 % 0x100) as u8);
        out.push((n % 0x100) as u8);
    }
    assert(final(out)@ =~= old(out)@ + cbor_head(major, n as nat));
}

/// Appends a CBOR text string.
fn push_text(out: &mut Vec<u8>, text: &str)
    ensures
        final(out)@ == old(out)@ + cbor_text(text@),
{
    let mut bytes: Vec<u8> = text.as_bytes_vec();
    push_head(out, 3, bytes.len() as u64);
    out.append(&mut bytes);
    assert(final(out)@ =~= old(out)@ + cbor_text(text@));
}

/// Encodes a sampled byte sequence.
///
/// In JSON the result is `{"bytes":"..."}` with the bytes in standard
/// base64; the bytes must then be few enough for the length of that text to
/// fit a `usize`. In CBOR it is a map of one entry whose value is a byte
/// string, so the bytes themselves end the encoding.
pub fn encode_bytes(data: Vec<u8>, format: Format) -> (out: Vec<u8>)
    requires
        format == Format::Json ==> encodable_len(data@.len()),
    ensures
        out@ == encoded_bytes(data@, format),
{
    proof {
        reveal_strlit("bytes");
        assert("bytes"@ =~= bytes_key());
    }
    match format {
        Format::Json => {
            let text = b64::encode(&data);
            json_object("bytes", text.as_str())
        },
        Format::Cbor => {
            let mut rest: Vec<u8> = data;
            let mut out: Vec<u8> = Vec::new();
            out.push(0xA1);
            push_text(&mut out, "bytes");
            push_head(&mut out, 2, rest.len() as u64);
            out.append(&mut rest);
            assert(out@ =~= cbor_bytes(data@));
            out
        },
    }
}

/// Encodes a sampled color.
///
/// The color goes out as its text, a name or `#RRGGBB`: in JSON as
/// `{"color":"..."}`, in CBOR as a map of one entry whose value is a text
/// string.
pub fn encode_color(color: Color, format: Format) -> (out: Vec<u8>)
    ensures
        out@ == encoded_color(color, format),
{
    proof {
        reveal_strlit("color");
        assert("color"@ =~= color_key());
    }
    let text = color.to_string();
    match format {
        Format::Json => json_object("color", text.as_str()),
        Format::Cbor => {
            let mut out: Vec<u8> = Vec::new();
            out.push(0xA1);
            push_text(&mut out, "color");
            push_text(&mut out, text.as_str());
            assert(out@ =~= cbor_color(color));
            out
        },
    }
}

/// In CBOR the sampled bytes appear as they are: the encoding of a byte
/// sequence ends with that sequence.
pub proof fn lemma_cbor_bytes_ends_with_data(data: Seq<u8>)
    ensures
        cbor_bytes(data).len() >= data.len(),
        cbor_bytes(data).subrange(cbor_bytes(data).len() - data.len(), cbor_bytes(data).len() as int)
            == data,
{
    let e = cbor_bytes(data);
    assert(e.subrange(e.len() - data.len(), e.len() as int) =~= data);
}

/// The text of a color needs no escaping in JSON, nor do the two keys.
pub proof fn lemma_color_text_is_plain(c: Color)
    ensures
        is_plain(color_text(c)),
        is_plain(color_key()),
        is_plain(bytes_key()),
{
    let text = color_text(c);
    assert forall|i: int| 0 <= i < text.len() implies ' ' <= #[trigger] text[i] <= '~' && text[i]
        != '"' && text[i] != '\\' by {
        if c == white() || c == black() {
            assert(text.len() == 5);
            if i == 0 || i == 1 || i == 2 || i == 3 {
            } else {
                assert(i == 4);
            }
        } else {
            assert(text == hex_text(c));
            assert(text.len() == 7);
            if i == 0 || i == 1 || i == 2 || i == 3 || i == 4 || i == 5 {
            } else {
                assert(i == 6);
            }
        }
    }
    assert forall|i: int| 0 <= i < color_key().len() implies ' ' <= #[trigger] color_key()[i]
        <= '~' && color_key()[i] != '"' && color_key()[i] != '\\' by {
        if i == 0 || i == 1 || i == 2 || i == 3 {
        } else {
            assert(i == 4);
        }
    }
    assert forall|i: int| 0 <= i < bytes_key().len() implies ' ' <= #[trigger] bytes_key()[i]
        <= '~' && bytes_key()[i] != '"' && bytes_key()[i] != '\\' by {
        if i == 0 || i == 1 || i == 2 || i == 3 {
        } else {
            assert(i == 4);
        }
    }
}

} // verus!
