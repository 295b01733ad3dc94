//! Everything the library takes on trust: contracts for functions of `std` and of outside crates.
use vstd::prelude::*;
use vstd::utf8::encode_utf8;

use crate::filename::may_be_name;
use crate::text::{ascii_lower_text, is_ascii_text};

verus! {

// ---------------------------------------------------------------------------
// std
// ---------------------------------------------------------------------------

/// `String::push` appends one character to the end of the string.
pub assume_specification[ String::push ](text: &mut String, c: char)
    ensures
        final(text)@ == old(text)@.push(c),
;

/// The lower-case form of a text by the rules of Unicode.
pub uninterp spec fn lowercase_text(text: Seq<char>) -> Seq<char>;

/// `str::to_lowercase`: the text in lower case by the rules of Unicode.
///
/// The contract claims that the result depends on the text alone, and that of an ASCII text only
/// the capitals change, each to its small letter. The rules for other texts are left unsaid.
#[verifier::external_body]
pub(crate) fn to_lowercase(text: &str) -> (lowered: String)
    ensures
        lowered@ == lowercase_text(text@),
        is_ascii_text(text@) ==> lowered@ == ascii_lower_text(text@),
{
    text.to_lowercase()
}

/// `std::path::Path::file_name`, for a path that is given and wanted as text.
///
/// The contract claims that it gives the last component of the path, if that is a name, by the
/// rules of Unix or by those of Windows: separators at the end, repeated separators and `.` do not
/// count, a path that ends in `..` has no name, and on Windows `\\` separates as `/` does and a
/// drive or a share is no name. Of paths that Windows reads in yet another way (devices, verbatim
/// paths, shares alone) it claims that the path ends in the name. Which of the two sets of rules
/// applies depends on the machine and is left unsaid.
#[verifier::external_body]
pub(crate) fn file_name_of(path: &str) -> (name: Option<String>)
    ensures
        may_be_name(path@, name.deep_view()),
{
    match std::path::Path::new(path).file_name() {
        Some(name) => name.to_str().map(str::to_owned),
        None => None,
    }
}

// ---------------------------------------------------------------------------
// serde_json
// ---------------------------------------------------------------------------

/// The hexadecimal digit `d`, `a` to `f` for ten to fifteen.
pub open spec fn hex_digit(d: int) -> char {
    if d < 10 {
        ('0' as int + d) as char
    } else {
        ('a' as int + d - 10) as char
    }
}

/// How a character is written in a JSON string.
pub open spec fn json_escaped_char(c: char) -> Seq<char> {
    if c == '"' || c == '\\' {
        seq!['\\', c]
    } else if c == '\u{8}' {
        seq!['\\', 'b']
    } else if c == '\t' {
        seq!['\\', 't']
    } else if c == '\n' {
        seq!['\\', 'n']
    } else if c == '\u{c}' {
        seq!['\\', 'f']
    } else if c == '\r' {
        seq!['\\', 'r']
    } else if (c as int) < 32 {
        seq!['\\', 'u', '0', '0', hex_digit(c as int / 16), hex_digit(c as int % 16)]
    } else {
        seq![c]
    }
}

/// The JSON string literal for `text`.
pub open spec fn json_quoted(text: Seq<char>) -> Seq<char> {
    seq!['"'] + text.map_values(|c: char| json_escaped_char(c)).flatten() + seq!['"']
}

/// `serde_json::Value::to_string` on a string value.
///
/// The contract claims that it prints the string in double quotes, with quotes, backslashes and
/// control characters escaped and every other character as it is.
#[verifier::external_body]
pub(crate) fn json_quote(text: &str) -> (quoted: String)
    ensures
        quoted@ == json_quoted(text@),
{
    serde_json::Value::String(text.to_owned()).to_string()
}

// ---------------------------------------------------------------------------
// urlencoding
// ---------------------------------------------------------------------------

/// Whether a byte stands for itself in a URL component.
pub open spec fn is_unreserved(b: u8) -> bool {
    ||| '0' as u8 <= b <= '9' as u8
    ||| 'A' as u8 <= b <= 'Z' as u8
    ||| 'a' as u8 <= b <= 'z' as u8
    ||| b == '-' as u8
    ||| b == '.' as u8
    ||| b == '_' as u8
    ||| b == '~' as u8
}

/// The hexadecimal digit `d`, `A` to `F` for ten to fifteen.
pub open spec fn upper_hex_digit(d: int) -> char {
    if d < 10 {
        ('0' as int + d) as char
    } else {
        ('A' as int + d - 10) as char
    }
}

/// How a byte is written in a URL component.
pub open spec fn percent_encoded_byte(b: u8) -> Seq<char> {
    if is_unreserved(b) {
        seq![b as char]
    } else {
        seq!['%', upper_hex_digit(b as int / 16), upper_hex_digit(b as int % 16)]
    }
}

/// How a text is written in a URL component.
pub open spec fn percent_encoded(text: Seq<char>) -> Seq<char> {
    encode_utf8(text).map_values(|b: u8| percent_encoded_byte(b)).flatten()
}

/// `urlencoding::encode`.
///
/// The contract claims what its documentation says: every byte of the UTF-8 form is
/// percent-encoded, except letters, digits and `-`, `_`, `.`, `~`.
#[verifier::external_body]
pub(crate) fn url_encode(text: &str) -> (encoded: String)
    ensures
        encoded@ == percent_encoded(text@),
{
    urlencoding::encode(text).into_owned()
}

// ---------------------------------------------------------------------------
// regex
// ---------------------------------------------------------------------------

/// Whether a character may stand in a nickname.
pub open spec fn is_nickname_char(c: char) -> bool {
    ||| 'A' <= c <= 'Z'
    ||| 'a' <= c <= 'z'
    ||| '0' <= c <= '9'
    ||| c == '_'
}

/// Whether a text is a nickname: 3 to 16 letters, digits and underscores.
pub open spec fn is_nickname(text: Seq<char>) -> bool {
    &&& 3 <= text.len() <= 16
    &&& forall|i: int| 0 <= i < text.len() ==> is_nickname_char(#[trigger] text[i])
}

/// `regex::Regex::new` and `Regex::is_match`, for the pattern of nicknames alone.
///
/// The contract claims that the pattern compiles, and that it matches exactly the texts of 3 to 16
/// characters that are ASCII letters, ASCII digits or underscores: `^` and `$` are the beginning
/// and the end of the whole text.
#[verifier::external_body]
pub(crate) fn regex_is_match(pattern: &str, text: &str) -> (matches: bool)
    requires
        pattern@ == "^[A-Za-z0-9_]{3,16}$"@,
    ensures
        matches == is_nickname(text@),
{
    match regex::Regex::new(pattern) {
        Ok(regex) => regex.is_match(text),
        Err(_) => false,
    }
}

// ---------------------------------------------------------------------------
// uuid
// ---------------------------------------------------------------------------

/// Whether a character is a hexadecimal digit in lower case.
pub open spec fn is_lower_hex(c: char) -> bool {
    '0' <= c <= '9' || 'a' <= c <= 'f'
}

/// Whether a text is a hyphenated UUID of the given version in lower case.
pub open spec fn is_uuid_text(text: Seq<char>, version: char) -> bool {
    &&& text.len() == 36
    &&& forall|i: int|
        0 <= i < 36 ==> if i == 8 || i == 13 || i == 18 || i == 23 {
            #[trigger] text[i] == '-'
        } else {
            is_lower_hex(text[i])
        }
    &&& text[14] == version
    &&& text[19] == '8' || text[19] == '9' || text[19] == 'a' || text[19] == 'b'
}

/// The name-based UUID of `name` in the OID namespace, hyphenated.
pub uninterp spec fn oid_name_uuid(name: Seq<u8>) -> Seq<char>;

/// `uuid::Uuid::new_v5` with `Uuid::NAMESPACE_OID`, printed by `Uuid::as_hyphenated`.
///
/// The contract claims that the result depends on the name alone, and that it is the text of a
/// version 5 UUID. The hash behind it is left unsaid.
#[verifier::external_body]
pub(crate) fn uuid_from_name(name: &[u8]) -> (id: String)
    ensures
        id@ == oid_name_uuid(name@),
        is_uuid_text(id@, '5'),
{
    uuid::Uuid::new_v5(&uuid::Uuid::NAMESPACE_OID, name).as_hyphenated().to_string()
}

/// `uuid::Uuid::new_v4`, printed.
///
/// The contract claims that every outcome is the text of a version 4 UUID. Which one is chance.
/// The call needs the random numbers of the operating system and panics where there are none.
#[verifier::external_body]
pub(crate) fn random_uuid() -> (id: String)
    ensures
        is_uuid_text(id@, '4'),
{
    uuid::Uuid::new_v4().to_string()
}

// ---------------------------------------------------------------------------
// sha1
// ---------------------------------------------------------------------------

/// The SHA-1 digest of `bytes` in hexadecimal.
pub uninterp spec fn sha1_hex(bytes: Seq<u8>) -> Seq<char>;

/// `sha1::Sha1`, fed with `bytes`, its digest printed in lower-case hexadecimal.
///
/// The contract claims that the result depends on the bytes alone, and that it is 40 lower-case
/// hexadecimal digits. The hash itself is left unsaid.
#[verifier::external_body]
pub(crate) fn sha1_digest(bytes: &[u8]) -> (digest: String)
    ensures
        digest@ == sha1_hex(bytes@),
        digest@.len() == 40,
        forall|i: int| 0 <= i < 40 ==> is_lower_hex(#[trigger] digest@[i]),
{
    format!("{:x}", <sha1::Sha1 as sha1::Digest>::digest(bytes))
}

} // verus!
