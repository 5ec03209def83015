//! Calls into std, serde_json and image whose results this library names
//! but does not compute itself.
use vstd::prelude::*;

verus! {

/// A lowercase hexadecimal digit.
pub open spec fn hex_digit(d: nat) -> char {
    if d < 10 {
        crate::text::digit_char(d)
    } else if d == 10 {
        'a'
    } else if d == 11 {
        'b'
    } else if d == 12 {
        'c'
    } else if d == 13 {
        'd'
    } else if d == 14 {
        'e'
    } else {
        'f'
    }
}

/// How `serde_json` writes one character inside a string literal: quote
/// and backslash escaped, the short escapes for backspace, form feed, line
/// feed, carriage return and tab, `\u00xx` (lowercase hex) for the other
/// control characters below 0x20, and every other character as it is.
pub open spec fn json_char_escape(c: char) -> Seq<char> {
    let n = c as nat;
    if c == '"' {
        seq!['\\', '"']
    } else if c == '\\' {
        seq!['\\', '\\']
    } else if n == 8 {
        seq!['\\', 'b']
    } else if n == 12 {
        seq!['\\', 'f']
    } else if c == '\n' {
        seq!['\\', 'n']
    } else if c == '\r' {
        seq!['\\', 'r']
    } else if c == '\t' {
        seq!['\\', 't']
    } else if n < 32 {
        seq!['\\', 'u', '0', '0', hex_digit(n / 16), hex_digit(n % 16)]
    } else {
        seq![c]
    }
}

/// The escaped characters of `s`, one after the other.
pub open spec fn json_escaped(s: Seq<char>) -> Seq<char>
    decreases s.len(),
{
    if s.len() == 0 {
        Seq::empty()
    } else {
        json_escaped(s.drop_last()) + json_char_escape(s.last())
    }
}

/// The JSON string literal `serde_json` writes for `s`: the escaped
/// characters between double quotes.
pub open spec fn json_string_text(s: Seq<char>) -> Seq<char> {
    seq!['"'] + json_escaped(s) + seq!['"']
}

/// `str::to_lowercase`: the Unicode lowercase mapping of `s`.
pub uninterp spec fn lowercase(s: Seq<char>) -> Seq<char>;

/// Whether a character is ASCII.
pub open spec fn is_ascii_char(c: char) -> bool {
    (c as u32) < 128
}

/// Whether every character of `s` is ASCII.
pub open spec fn is_ascii_text(s: Seq<char>) -> bool {
    forall|k: int| 0 <= k < s.len() ==> is_ascii_char(#[trigger] s[k])
}

/// ASCII lowercasing of one character: `A`-`Z` to `a`-`z`, every other
/// character kept.
pub open spec fn ascii_lower_char(c: char) -> char {
    if 'A' <= c && c <= 'Z' {
        ((c as u32) + 32) as char
    } else {
        c
    }
}

/// Every character of `s` lowercased as `ascii_lower_char` says.
pub open spec fn ascii_lowered(s: Seq<char>) -> Seq<char> {
    s.map_values(|c: char| ascii_lower_char(c))
}

/// What `str::to_lowercase` gives for `s`: for ASCII text, each character
/// lowercased as `ascii_lower_char` says, at the same length; for other
/// text, the Unicode mapping `lowercase`.
pub open spec fn lowered(s: Seq<char>) -> Seq<char> {
    if is_ascii_text(s) {
        ascii_lowered(s)
    } else {
        lowercase(s)
    }
}

/// `serde_json::to_string` on a string slice: the JSON string literal.
///
/// Claimed: the result is `json_string_text(s@)`: `format_escaped_str`
/// writes a quote, each character escaped as `json_char_escape` says (its
/// `ESCAPE` table), and a quote. Serialising a `str` cannot fail, so the
/// error arm is never taken.
#[verifier::external_body]
pub(crate) fn json_quote(s: &str) -> (r: String)
    ensures
        r@ == json_string_text(s@),
{
    match serde_json::to_string(s) {
        Ok(t) => t,
        Err(_) => String::new(),
    }
}

/// `str::to_lowercase`.
///
/// Claimed: the result is `lowered(s@)`, written as its two cases. An ASCII
/// text comes back character by character, at the same length, with `A`-`Z`
/// mapped to `a`-`z` and every other character as it is (the Unicode
/// lowercase mapping of an ASCII character is its ASCII lowercase). Any
/// other text comes back as `lowercase(s@)`, a function of `s` alone (the
/// mapping does not depend on a locale). And the result holds no ASCII
/// uppercase letter (every such letter maps to its lowercase one, and no
/// other character maps to one).
#[verifier::external_body]
pub(crate) fn to_lowercase(s: &str) -> (r: String)
    ensures
        is_ascii_text(s@) ==> r@ == ascii_lowered(s@),
        !is_ascii_text(s@) ==> r@ == lowercase(s@),
        forall|k: int| 0 <= k < r@.len() ==> !('A' <= #[trigger] r@[k] && r@[k] <= 'Z'),
{
    s.to_lowercase()
}

/// What `serde_json` makes of `text` read as a JSON value and written back
/// compactly (`None` when `text` is no JSON).
pub uninterp spec fn json_rewritten(text: Seq<char>) -> Option<Seq<char>>;

/// The text of the empty JSON object, `{}`.
pub open spec fn empty_object_text() -> Seq<char> {
    seq!['{', '}']
}

/// Whether `serde_json` reads `text` as a JSON value that is an object.
pub uninterp spec fn json_is_object(text: Seq<char>) -> bool;

/// What `serde_json` makes of `text` read as a JSON value, with the string
/// member `key` set to `value` when the value is an object, written back
/// compactly (`None` when `text` is no JSON).
pub uninterp spec fn json_member_set(text: Seq<char>, key: Seq<char>, value: Seq<char>) -> Option<Seq<char>>;

/// The string member `key` of the JSON object `text` holds (`None` when
/// `text` is no JSON, is no object, lacks the member, or the member is not
/// a string).
pub uninterp spec fn json_str_member(text: Seq<char>, key: Seq<char>) -> Option<Seq<char>>;

/// Width and height the `image` crate reads from the header of `bytes`
/// (format guessed from the content), or the text of its error.
pub uninterp spec fn header_dimensions(bytes: Seq<u8>) -> Result<(u32, u32), Seq<char>>;

/// The image in `bytes` decoded by the `image` crate and converted to 8-bit
/// RGBA: width, height and the row-major pixel bytes; or the text of the
/// decoder's error.
pub uninterp spec fn rgba_decoding(bytes: Seq<u8>) -> Result<(u32, u32, Seq<u8>), Seq<char>>;

/// `serde_json::from_str::<Value>` followed by `serde_json::to_string`.
///
/// Claimed: the result is `json_rewritten(text@)`, a function of `text`
/// alone; `None` exactly when `text` does not parse, so never for a JSON
/// object.
#[verifier::external_body]
pub(crate) fn rewrite_json(text: &str) -> (r: Option<String>)
    ensures
        crate::text::opt_text(r) == json_rewritten(text@),
        match r {
            Some(_) => true,
            None => !json_is_object(text@),
        },
{
    match serde_json::from_str::<serde_json::Value>(text) {
        Ok(v) => match serde_json::to_string(&v) {
            Ok(t) => Some(t),
            Err(_) => None,
        },
        Err(_) => None,
    }
}

/// `serde_json::from_str::<Value>`, then `Map::insert` of the string
/// `value` under `key` when the value is an object, then
/// `serde_json::to_string`.
///
/// Claimed: the result is `json_member_set(text@, key@, value@)`, a
/// function of the three arguments alone. When `text` is a JSON object
/// (`json_is_object`), the text is written and holds the string member
/// `key` = `value` (read back by `json_str_member`); when it is other JSON,
/// the text is the value rewritten unchanged (`json_rewritten`); when it is
/// no JSON, nothing is written. For the empty object `{}` the text is
/// always written, with the member.
#[verifier::external_body]
pub(crate) fn set_json_member(text: &str, key: &str, value: &str) -> (r: Option<String>)
    ensures
        crate::text::opt_text(r) == json_member_set(text@, key@, value@),
        match r {
            Some(t) => (json_is_object(text@) ==> json_str_member(t@, key@) == Some(value@)) && (!json_is_object(
                text@,
            ) ==> json_rewritten(text@) == Some(t@)),
            None => !json_is_object(text@),
        },
        match r {
            Some(t) => text@ == empty_object_text() ==> json_str_member(t@, key@) == Some(value@),
            None => text@ != empty_object_text(),
        },
{
    match serde_json::from_str::<serde_json::Value>(text) {
        Ok(mut v) => {
            if let Some(obj) = v.as_object_mut() {
                obj.insert(key.to_string(), serde_json::Value::String(value.to_string()));
            }
            match serde_json::to_string(&v) {
                Ok(t) => Some(t),
                Err(_) => None,
            }
        },
        Err(_) => None,
    }
}

/// `serde_json::from_str::<Value>`, then `Value::get(key)` and
/// `Value::as_str`.
///
/// Claimed: the result is `json_str_member(text@, key@)`, a function of
/// the two arguments alone.
#[verifier::external_body]
pub(crate) fn read_json_str_member(text: &str, key: &str) -> (r: Option<String>)
    ensures
        crate::text::opt_text(r) == json_str_member(text@, key@),
{
    match serde_json::from_str::<serde_json::Value>(text) {
        Ok(v) => match v.get(key) {
            Some(m) => match m.as_str() {
                Some(t) => Some(t.to_string()),
                None => None,
            },
            None => None,
        },
        Err(_) => None,
    }
}

/// `image::ImageReader::new(Cursor::new(bytes)).with_guessed_format()`
/// then `into_dimensions()`; an error of either step comes back as its
/// display text.
///
/// Claimed: the result is `header_dimensions(bytes@)`, a function of the
/// bytes alone (no format hooks are registered, and the reader's limits
/// are the crate's fixed defaults).
#[verifier::external_body]
pub(crate) fn read_header_dimensions(bytes: &Vec<u8>) -> (r: Result<(u32, u32), String>)
    ensures
        match r {
            Ok(d) => header_dimensions(bytes@) == Ok::<(u32, u32), Seq<char>>(d),
            Err(t) => header_dimensions(bytes@) == Err::<(u32, u32), Seq<char>>(t@),
        },
{
    match image::ImageReader::new(std::io::Cursor::new(bytes.as_slice())).with_guessed_format() {
        Ok(reader) => match reader.into_dimensions() {
            Ok(d) => Ok(d),
            Err(e) => Err(e.to_string()),
        },
        Err(e) => Err(e.to_string()),
    }
}

/// `image::load_from_memory`, then `DynamicImage::to_rgba8` and
/// `ImageBuffer::into_raw`; a decoding error comes back as its display
/// text.
///
/// Claimed: the result is `rgba_decoding(bytes@)`, a function of the bytes
/// alone.
#[verifier::external_body]
pub(crate) fn decode_rgba(bytes: &Vec<u8>) -> (r: Result<(u32, u32, Vec<u8>), String>)
    ensures
        match r {
            Ok(p) => rgba_decoding(bytes@) == Ok::<(u32, u32, Seq<u8>), Seq<char>>((p.0, p.1, p.2@)),
            Err(t) => rgba_decoding(bytes@) == Err::<(u32, u32, Seq<u8>), Seq<char>>(t@),
        },
{
    match image::load_from_memory(bytes.as_slice()) {
        Ok(img) => {
            let rgba = img.to_rgba8();
            let (w, h) = rgba.dimensions();
            Ok((w, h, rgba.into_raw()))
        },
        Err(e) => Err(e.to_string()),
    }
}

} // verus!
