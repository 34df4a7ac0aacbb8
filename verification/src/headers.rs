//! HTTP header names, values and maps, as the `http` crate understands them.

use std::str::FromStr;

use vstd::prelude::*;

verus! {

/// The error of `http::HeaderName::from_str`.
#[verifier::external_type_specification]
#[verifier::external_body]
pub struct ExInvalidHeaderName(http::header::InvalidHeaderName);

/// The error of `http::HeaderValue::from_bytes`.
#[verifier::external_type_specification]
#[verifier::external_body]
pub struct ExInvalidHeaderValue(http::header::InvalidHeaderValue);

/// A value in a header map.
#[verifier::external_type_specification]
#[verifier::external_body]
pub struct ExHeaderValue(http::HeaderValue);

/// The header multimap of a request.
#[verifier::external_type_specification]
#[verifier::external_body]
#[verifier::reject_recursive_types(T)]
pub struct ExHeaderMap<T>(http::HeaderMap<T>);

/// What a header map holds: for each lower-case name its values in order, each with its bytes
/// and its sensitivity mark.
pub uninterp spec fn header_entries(headers: http::HeaderMap<http::HeaderValue>) -> Map<
    Seq<char>,
    Seq<(Seq<u8>, bool)>,
>;

/// The entries of a header map.
pub type HeaderEntries = Map<Seq<char>, Seq<(Seq<u8>, bool)>>;

/// The longest header name that the `http` crate accepts.
pub const MAX_NAME_LEN: usize = 65_535;

/// The number of distinct names up to which a header map is sure to take one more.
pub const SURE_ROOM: usize = 6_553;

/// Whether `c` may stand in a header name.
pub open spec fn is_name_char(c: char) -> bool {
    ||| 'a' <= c <= 'z'
    ||| 'A' <= c <= 'Z'
    ||| '0' <= c <= '9'
    ||| c == '!' || c == '#' || c == '$' || c == '%' || c == '&' || c == '\'' || c == '*'
    ||| c == '+' || c == '-' || c == '.' || c == '^' || c == '_' || c == '`' || c == '|'
    ||| c == '~'
}

/// Whether `text` is the text of a header name.
pub open spec fn is_header_name(text: Seq<char>) -> bool {
    &&& 0 < text.len() <= MAX_NAME_LEN
    &&& forall|i: int| 0 <= i < text.len() ==> is_name_char(#[trigger] text[i])
}

/// ASCII lower case of one character.
pub open spec fn lower(c: char) -> char {
    if 'A' <= c <= 'Z' {
        ((c as u32) + 32) as char
    } else {
        c
    }
}

/// ASCII lower case of a text.
pub open spec fn lowercase(text: Seq<char>) -> Seq<char> {
    text.map_values(|c: char| lower(c))
}

/// Whether `byte` may stand in a header value.
pub open spec fn is_value_byte(byte: u8) -> bool {
    byte == 9 || (byte >= 32 && byte != 127)
}

/// Whether `bytes` are the bytes of a header value.
pub open spec fn is_header_value(bytes: Seq<u8>) -> bool {
    forall|i: int| 0 <= i < bytes.len() ==> is_value_byte(#[trigger] bytes[i])
}

/// Calls `http::HeaderName::from_str`. It accepts a non-empty text of at most `MAX_NAME_LEN`
/// token characters, and hands back its lower case.
#[verifier::external_body]
pub(crate) fn parse_header_name(text: &str) -> (name: Result<
    String,
    http::header::InvalidHeaderName,
>)
    ensures
        name is Ok <==> is_header_name(text@),
        name matches Ok(n) ==> n@ == lowercase(text@),
{
    http::HeaderName::from_str(text).map(|name| name.as_str().to_owned())
}

/// Calls `Display` of `http::header::InvalidHeaderName`, which writes one fixed text.
#[verifier::external_body]
pub(crate) fn invalid_name_text(error: &http::header::InvalidHeaderName) -> (text: String)
    ensures
        text@ == "invalid HTTP header name"@,
{
    error.to_string()
}

/// Calls `http::HeaderValue::from_bytes`. It accepts bytes without control characters (a
/// horizontal tab may stand) and keeps them as they are.
#[verifier::external_body]
pub(crate) fn parse_header_value(bytes: &[u8]) -> (value: Result<
    Vec<u8>,
    http::header::InvalidHeaderValue,
>)
    ensures
        value is Ok <==> is_header_value(bytes@),
        value matches Ok(v) ==> v@ == bytes@,
{
    http::HeaderValue::from_bytes(bytes).map(|value| value.as_bytes().to_vec())
}

/// Calls `Display` of `http::header::InvalidHeaderValue`, which writes one fixed text.
#[verifier::external_body]
pub(crate) fn invalid_value_text(error: &http::header::InvalidHeaderValue) -> (text: String)
    ensures
        text@ == "failed to parse header value"@,
{
    error.to_string()
}

/// Calls `http::HeaderMap::try_insert` with a value marked as `sensitive` says. Where the map takes
/// it, the value replaces every earlier one of that name and no other name changes. Where the map
/// has reached its size limit it keeps what it held; up to `SURE_ROOM` names it always has room.
/// At which larger size it refuses is left unsaid: that depends on how the names hash.
#[verifier::external_body]
pub(crate) fn insert_header(
    headers: &mut http::HeaderMap<http::HeaderValue>,
    name: &str,
    value: &[u8],
    sensitive: bool,
) -> (taken: bool)
    requires
        is_header_name(name@),
        is_header_value(value@),
    ensures
        taken ==> header_entries(*final(headers)) == header_entries(*old(headers)).insert(
            lowercase(name@),
            seq![(value@, sensitive)],
        ),
        !taken ==> header_entries(*final(headers)) == header_entries(*old(headers)),
        !taken ==> header_entries(*final(headers)).dom().len() > SURE_ROOM,
{
    let mut entry = http::HeaderValue::from_bytes(value).unwrap();
    entry.set_sensitive(sensitive);
    headers.try_insert(http::HeaderName::from_str(name).unwrap(), entry).is_ok()
}

/// The lower case of a header name is a header name, and its own lower case.
pub proof fn lemma_lowercase_name(text: Seq<char>)
    requires
        is_header_name(text),
    ensures
        is_header_name(lowercase(text)),
        lowercase(lowercase(text)) == lowercase(text),
{
    let name = lowercase(text);
    assert forall|i: int| 0 <= i < name.len() implies is_name_char(#[trigger] name[i]) && lower(
        name[i],
    ) == name[i] by {
        assert(is_name_char(text[i]));
        assert(name[i] == lower(text[i]));
    }
    assert(lowercase(name) == name);
}

/// A header name is between 1 and 65535 characters long, and each is a letter, a digit or one of fifteen
/// marks.
pub proof fn law_header_names_are_tokens(text: Seq<char>)
    ensures
        is_header_name(text) <==> 1 <= text.len() <= 65535 && forall|i: int|
            #![trigger text[i]]
            0 <= i < text.len() ==> {
                ||| 'a' <= text[i] <= 'z'
                ||| 'A' <= text[i] <= 'Z'
                ||| '0' <= text[i] <= '9'
                ||| seq![
                    '!',
                    '#',
                    '$',
                    '%',
                    '&',
                    '\'',
                    '*',
                    '+',
                    '-',
                    '.',
                    '^',
                    '_',
                    '`',
                    '|',
                    '~',
                ].contains(text[i])
            },
{
    let marks = seq!['!', '#', '$', '%', '&', '\'', '*', '+', '-', '.', '^', '_', '`', '|', '~'];
    assert(marks[0] == '!' && marks[1] == '#' && marks[2] == '$' && marks[3] == '%');
    assert(marks[4] == '&' && marks[5] == '\'' && marks[6] == '*' && marks[7] == '+');
    assert(marks[8] == '-' && marks[9] == '.' && marks[10] == '^' && marks[11] == '_');
    assert(marks[12] == '`' && marks[13] == '|' && marks[14] == '~');
    assert forall|i: int| 0 <= i < text.len() implies is_name_char(#[trigger] text[i]) == ({
        ||| 'a' <= text[i] <= 'z'
        ||| 'A' <= text[i] <= 'Z'
        ||| '0' <= text[i] <= '9'
        ||| marks.contains(text[i])
    }) by {}
}

/// Lower case changes the capitals of ASCII, each to the letter thirty-two places on, and no other
/// character.
pub proof fn law_lower_case_of_names(text: Seq<char>)
    ensures
        lowercase(text).len() == text.len(),
        forall|i: int|
            #![trigger text[i]]
            #![trigger lowercase(text)[i]]
            0 <= i < text.len() ==> lowercase(text)[i] as u32 == text[i] as u32 + (if 65
                <= text[i] as u32 <= 90 {
                32int
            } else {
                0int
            }),
{
}

/// The bytes of a header value are all but the control characters, of which only the tab may stand.
pub proof fn law_header_values_hold_no_control_characters(bytes: Seq<u8>)
    ensures
        is_header_value(bytes) <==> forall|i: int|
            #![trigger bytes[i]]
            0 <= i < bytes.len() ==> bytes[i] == 9 || 32 <= bytes[i] <= 126 || 128 <= bytes[i],
{
    assert forall|i: int| 0 <= i < bytes.len() implies is_value_byte(#[trigger] bytes[i]) == (
    bytes[i] == 9 || 32 <= bytes[i] <= 126 || 128 <= bytes[i]) by {}
}

} // verus!
