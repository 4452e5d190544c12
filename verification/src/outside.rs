//! Calls into `std` and into the outside crates (md5, base64, flate2,
//! urlencoding, url, regex, uuid). Each function here is trusted: its body makes the call
//! and its contract states what the crate's source or documentation shows.
use vstd::prelude::*;
use vstd::utf8::*;
use base64::Engine;
use std::io::Read;

verus! {

// ---------------------------------------------------------------------------
// Names for results that take pages to state
// ---------------------------------------------------------------------------
/// The 16-byte MD5 digest of `data`, as `md5::compute` returns it.
pub uninterp spec fn md5_digest(data: Seq<u8>) -> Seq<u8>;

/// `base64::engine::general_purpose::STANDARD.decode`: `None` when the
/// input is not valid padded standard base64.
pub uninterp spec fn base64_standard_decode(data: Seq<u8>) -> Option<Seq<u8>>;

/// `base64::engine::general_purpose::STANDARD.encode`.
pub uninterp spec fn base64_standard_encode(data: Seq<u8>) -> Seq<char>;

/// What a `flate2::read::GzDecoder` over `data` yields through
/// `read_to_end`, or `None` when that read fails.
pub uninterp spec fn gzip_decompress(data: Seq<u8>) -> Option<Seq<u8>>;

/// The host of `url::Url::parse(text)`, or `None` when the text does not
/// parse or has no host.
pub uninterp spec fn url_host(text: Seq<char>) -> Option<Seq<char>>;

/// The decoded query pairs of `url::Url::parse(text)`, in order, or `None`
/// when the text does not parse.
pub uninterp spec fn url_query_pairs(text: Seq<char>) -> Option<Seq<(Seq<char>, Seq<char>)>>;

/// The matches of `regex::Regex::new(pattern)` over `text`, as
/// `captures_iter` yields them, each as the list of its groups (group 0 is
/// the whole match, a group that took no part is `None`); the error's text
/// when the pattern does not compile.
pub uninterp spec fn regex_captures(pattern: Seq<char>, text: Seq<char>) -> Result<
    Seq<Seq<Option<Seq<char>>>>,
    Seq<char>,
>;

// ---------------------------------------------------------------------------
// Percent encoding, as the urlencoding crate does it
// ---------------------------------------------------------------------------
/// Bytes that `urlencoding::encode` leaves as they are.
pub open spec fn is_unreserved(b: u8) -> bool {
    (48u8 <= b && b <= 57u8) || (65u8 <= b && b <= 90u8) || (97u8 <= b && b <= 122u8) || b == 45u8
        || b == 46u8 || b == 95u8 || b == 126u8
}

/// Upper-case hexadecimal digit for a value below sixteen.
pub open spec fn hex_upper(d: u8) -> char {
    if d < 10 {
        ((48u8 + d) as u8) as char
    } else {
        ((65u8 + d - 10) as u8) as char
    }
}

/// `urlencoding::encode_binary`: unreserved bytes kept, every other byte
/// written as `%` and two upper-case hexadecimal digits.
pub open spec fn percent_encode(bytes: Seq<u8>) -> Seq<char>
    decreases bytes.len(),
{
    if bytes.len() == 0 {
        Seq::empty()
    } else {
        let b = bytes[0];
        let head = if is_unreserved(b) {
            seq![b as char]
        } else {
            seq!['%', hex_upper(b / 16), hex_upper(b % 16)]
        };
        head + percent_encode(bytes.drop_first())
    }
}

pub open spec fn hex_value(b: u8) -> Option<u8> {
    if 48u8 <= b && b <= 57u8 {
        Some((b - 48u8) as u8)
    } else if 65u8 <= b && b <= 70u8 {
        Some((b - 65u8 + 10) as u8)
    } else if 97u8 <= b && b <= 102u8 {
        Some((b - 97u8 + 10) as u8)
    } else {
        None
    }
}

/// `urlencoding::decode_binary`: `%` followed by two hexadecimal digits
/// becomes one byte; every other byte, a lone `%` included, is kept.
pub open spec fn percent_decode(bytes: Seq<u8>) -> Seq<u8>
    decreases bytes.len(),
{
    if bytes.len() == 0 {
        Seq::empty()
    } else if bytes[0] == 37u8 && bytes.len() >= 3 && hex_value(bytes[1]) is Some && hex_value(
        bytes[2],
    ) is Some {
        seq![(hex_value(bytes[1])->0 * 16 + hex_value(bytes[2])->0) as u8] + percent_decode(
            bytes.subrange(3, bytes.len() as int),
        )
    } else {
        seq![bytes[0]] + percent_decode(bytes.drop_first())
    }
}

// ---------------------------------------------------------------------------
// std
// ---------------------------------------------------------------------------
/// `String: FromIterator<char>`: the string made of the given characters.
#[verifier::external_body]
pub(crate) fn string_from_chars(chars: &[char]) -> (s: String)
    ensures
        s@ == chars@,
{
    chars.iter().collect()
}

/// `String::from_utf8`: the decoded text, or `None` for invalid UTF-8.
#[verifier::external_body]
pub(crate) fn utf8_to_string(bytes: &[u8]) -> (r: Option<String>)
    ensures
        r is Some <==> valid_utf8(bytes@),
        r matches Some(s) ==> s@ == decode_utf8(bytes@),
{
    String::from_utf8(bytes.to_vec()).ok()
}

// ---------------------------------------------------------------------------
// Outside crates
// ---------------------------------------------------------------------------
/// `md5::compute`: the digest bytes of `data`.
#[verifier::external_body]
pub(crate) fn md5_compute(data: &[u8]) -> (d: Vec<u8>)
    ensures
        d@ == md5_digest(data@),
        d@.len() == 16,
{
    md5::compute(data).0.to_vec()
}

/// `STANDARD.decode` of the base64 crate.
#[verifier::external_body]
pub(crate) fn base64_decode(data: &[u8]) -> (r: Option<Vec<u8>>)
    ensures
        r is Some <==> base64_standard_decode(data@) is Some,
        r matches Some(v) ==> base64_standard_decode(data@) == Some(v@),
{
    base64::engine::general_purpose::STANDARD.decode(data).ok()
}

/// `STANDARD.encode` of the base64 crate.
#[verifier::external_body]
pub(crate) fn base64_encode(data: &[u8]) -> (s: String)
    ensures
        s@ == base64_standard_encode(data@),
{
    base64::engine::general_purpose::STANDARD.encode(data)
}

/// Reads a gzip stream to its end with `flate2::read::GzDecoder`.
#[verifier::external_body]
pub(crate) fn gunzip(data: &[u8]) -> (r: Option<Vec<u8>>)
    ensures
        r is Some <==> gzip_decompress(data@) is Some,
        r matches Some(v) ==> gzip_decompress(data@) == Some(v@),
{
    let mut decoder = flate2::read::GzDecoder::new(data);
    let mut decoded = Vec::new();
    match decoder.read_to_end(&mut decoded) {
        Ok(_) => Some(decoded),
        Err(_) => None,
    }
}

/// `urlencoding::encode`.
#[verifier::external_body]
pub(crate) fn url_encode(s: &str) -> (r: String)
    ensures
        r@ == percent_encode(encode_utf8(s@)),
{
    urlencoding::encode(s).into_owned()
}

/// `urlencoding::decode`: `None` when the decoded bytes are not UTF-8.
#[verifier::external_body]
pub(crate) fn url_decode(s: &str) -> (r: Option<String>)
    ensures
        r is Some <==> valid_utf8(percent_decode(encode_utf8(s@))),
        r matches Some(t) ==> t@ == decode_utf8(percent_decode(encode_utf8(s@))),
{
    match urlencoding::decode(s) {
        Ok(text) => Some(text.into_owned()),
        Err(_) => None,
    }
}

/// `url::Url::parse` followed by `host_str`.
#[verifier::external_body]
pub(crate) fn parse_url_host(text: &str) -> (r: Option<String>)
    ensures
        r is Some <==> url_host(text@) is Some,
        r matches Some(h) ==> url_host(text@) == Some(h@),
{
    match url::Url::parse(text) {
        Ok(parsed) => parsed.host_str().map(|host| host.to_string()),
        Err(_) => None,
    }
}

/// `url::Url::parse` followed by `query_pairs`.
#[verifier::external_body]
pub(crate) fn parse_url_query_pairs(text: &str) -> (r: Option<Vec<(String, String)>>)
    ensures
        r is Some <==> url_query_pairs(text@) is Some,
        r matches Some(v) ==> url_query_pairs(text@) == Some(
            v@.map_values(|p: (String, String)| (p.0@, p.1@)),
        ),
{
    match url::Url::parse(text) {
        Ok(parsed) => Some(
            parsed.query_pairs().map(|(key, value)| (key.to_string(), value.to_string())).collect(),
        ),
        Err(_) => None,
    }
}


/// The texts of the groups of one match.
pub open spec fn groups_view(groups: Vec<Option<String>>) -> Seq<Option<Seq<char>>> {
    groups@.map_values(
        |g: Option<String>|
            match g {
                Some(s) => Some(s@),
                None => None,
            },
    )
}

pub open spec fn capture_views(v: Seq<Vec<Option<String>>>) -> Seq<Seq<Option<Seq<char>>>> {
    v.map_values(|groups: Vec<Option<String>>| groups_view(groups))
}

/// The texts of what `regex_all_captures` returns.
pub open spec fn capture_result(r: Result<Vec<Vec<Option<String>>>, String>) -> Result<
    Seq<Seq<Option<Seq<char>>>>,
    Seq<char>,
> {
    match r {
        Ok(v) => Ok(capture_views(v@)),
        Err(e) => Err(e@),
    }
}

/// `regex::Regex::new` followed by `captures_iter`; a pattern that does not
/// compile gives the error's text.
#[verifier::external_body]
pub(crate) fn regex_all_captures(pattern: &str, text: &str) -> (r: Result<Vec<Vec<Option<String>>>, String>)
    ensures
        capture_result(r) == regex_captures(pattern@, text@),
{
    match regex::Regex::new(pattern) {
        Ok(re) => Ok(
            re.captures_iter(text).map(
                |caps| caps.iter().map(|m| m.map(|m| m.as_str().to_string())).collect(),
            ).collect(),
        ),
        Err(err) => Err(err.to_string()),
    }
}

/// A lower-case hexadecimal digit.
pub open spec fn is_lower_hex(c: char) -> bool {
    let u = c as u32;
    (48 <= u && u <= 57) || (97 <= u && u <= 102)
}

/// The hyphenated lower-case text of a version-4 UUID: 32 hexadecimal
/// digits in groups of 8, 4, 4, 4 and 12, the version digit `4` first in
/// the third group and one of `8`, `9`, `a`, `b` first in the fourth.
pub open spec fn is_uuid_v4_text(s: Seq<char>) -> bool {
    &&& s.len() == 36
    &&& forall|i: int|
        0 <= i < 36 ==> if i == 8 || i == 13 || i == 18 || i == 23 {
            s[i] == '-'
        } else {
            is_lower_hex(#[trigger] s[i])
        }
    &&& s[14] == '4'
    &&& (s[19] == '8' || s[19] == '9' || s[19] == 'a' || s[19] == 'b')
}

/// `uuid::Uuid::new_v4` written out by its `Display`: random bits with the
/// version and variant bits set, in the hyphenated lower-case form. Which
/// UUID comes out is chance; only its form is stated.
#[verifier::external_body]
pub(crate) fn new_uuid_v4() -> (s: String)
    ensures
        is_uuid_v4_text(s@),
{
    uuid::Uuid::new_v4().to_string()
}

/// `SystemTime::now().duration_since(UNIX_EPOCH)` in milliseconds; `None`
/// when the clock reads before the epoch. Nothing is said of the value: it
/// is the time.
#[verifier::external_body]
pub(crate) fn system_time_millis() -> (r: Option<u128>) {
    match std::time::SystemTime::now().duration_since(std::time::UNIX_EPOCH) {
        Ok(d) => Some(d.as_millis()),
        Err(_) => None,
    }
}

} // verus!
