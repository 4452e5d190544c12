//! Huya: room status from the profile-room answer, and the signed FLV
//! stream addresses built from a stream's anti-code.
use vstd::prelude::*;
use vstd::utf8::{encode_utf8, valid_utf8, decode_utf8};
use crate::text::{
    trim, upper, is_blank, starts_with, before_char, replace, decimal, hex_digit_lower, contains,
    chars_of, trim_str, upper_chars, is_blank_str, starts_with_str, eq_str, before_char_exec,
    extend_chars, extend_str, push_decimal, replace_exec, hex_digit_exec, contains_str,
    lemma_decimal_nonempty, sub_chars,
};
use crate::outside::{
    regex_captures, regex_all_captures, capture_views,
    string_from_chars, utf8_to_string, base64_decode, base64_standard_decode, url_decode,
    percent_decode, parse_url_query_pairs, url_query_pairs,
};
use crate::digest::{md5_hex, md5_hex_of};
use crate::platform::{split, split_exec, join, join_exec, huya_name, header_views, PLATFORM_HUYA};
use crate::state::{ExtractResult, RoomView, when_online, text_when_online};
use crate::room::{remote_image_url, normalize_remote_image_url, huya_room_prefix, build_huya_live_url};
use crate::seqs::views;

verus! {

pub struct HuyaLiveData {
    pub room_name: String,
    pub introduction: String,
    pub nick: String,
    pub avatar_180: String,
    pub screenshot: String,
    pub total_count: String,
    pub activity_count: String,
    pub profile_room: String,
}

pub struct HuyaStreamInfo {
    pub s_stream_name: String,
    pub s_flv_url: String,
    pub s_flv_url_suffix: String,
    pub s_flv_anti_code: String,
}

pub struct HuyaStreamData {
    pub base_stream_info_list: Vec<HuyaStreamInfo>,
}

pub struct HuyaProfileRoomData {
    pub live_status: String,
    pub real_live_status: String,
    pub live_data: HuyaLiveData,
    pub stream: Option<HuyaStreamData>,
}

// ---------------------------------------------------------------------------
// Room status
// ---------------------------------------------------------------------------
/// The room title: the room name when set, the introduction otherwise.
pub open spec fn title_of(d: HuyaLiveData) -> Seq<char> {
    if is_blank(d.room_name@) {
        trim(d.introduction@)
    } else {
        trim(d.room_name@)
    }
}

pub fn huya_title(data: &HuyaLiveData) -> (s: String)
    ensures
        s@ == title_of(*data),
{
    if is_blank_str(data.room_name.as_str()) {
        let t = trim_str(data.introduction.as_str());
        string_from_chars(t.as_slice())
    } else {
        let t = trim_str(data.room_name.as_str());
        string_from_chars(t.as_slice())
    }
}

/// A room is live when either status reads `ON`, ignoring case and spaces.
pub open spec fn huya_online(d: HuyaProfileRoomData) -> bool {
    upper(trim(d.live_status@)) == "ON"@ || upper(trim(d.real_live_status@)) == "ON"@
}

pub fn is_huya_room_online(data: &HuyaProfileRoomData) -> (r: bool)
    ensures
        r == huya_online(*data),
{
    let a = trim_str(data.live_status.as_str());
    let a = upper_chars(a.as_slice());
    let b = trim_str(data.real_live_status.as_str());
    let b = upper_chars(b.as_slice());
    eq_str(a.as_slice(), "ON") || eq_str(b.as_slice(), "ON")
}

/// The heat of a room: the total count when there is one, the activity
/// count otherwise.
pub open spec fn heat_of(d: HuyaLiveData) -> Seq<char> {
    if trim(d.total_count@).len() > 0 {
        trim(d.total_count@)
    } else {
        trim(d.activity_count@)
    }
}

pub fn huya_heat_text(data: &HuyaLiveData) -> (s: String)
    ensures
        s@ == heat_of(*data),
{
    let total = trim_str(data.total_count.as_str());
    if total.len() > 0 {
        return string_from_chars(total.as_slice());
    }
    let activity = trim_str(data.activity_count.as_str());
    string_from_chars(activity.as_slice())
}

/// The page that is fetched to find a room number: the entry itself when it
/// is an address, otherwise the Huya page of that name.
pub open spec fn huya_page_of(target: Seq<char>) -> Seq<char> {
    let t = trim(target);
    if starts_with(t, "http://"@) || starts_with(t, "https://"@) {
        t
    } else {
        huya_room_prefix() + t
    }
}

pub fn huya_page_url(target: &str) -> (s: String)
    ensures
        s@ == huya_page_of(target@),
{
    let t = trim_str(target);
    if starts_with_str(t.as_slice(), "http://") || starts_with_str(t.as_slice(), "https://") {
        string_from_chars(t.as_slice())
    } else {
        let mut v: Vec<char> = Vec::new();
        extend_str(&mut v, "https://www.huya.com/");
        extend_chars(&mut v, t.as_slice());
        string_from_chars(v.as_slice())
    }
}

/// The report of a Huya room from the room number it was looked up by and
/// the profile-room answer.
pub open spec fn huya_room_view(room_id: Seq<char>, d: HuyaProfileRoomData) -> RoomView {
    let online = huya_online(d);
    let live = d.live_data;
    RoomView {
        platform: huya_name(),
        room_id: if is_blank(live.profile_room@) {
            room_id
        } else {
            live.profile_room@
        },
        streamer_name: trim(live.nick@),
        room_name: title_of(live),
        avatar_url: remote_image_url(live.avatar_180@),
        is_online: online,
        screenshot_url: when_online(online, remote_image_url(live.screenshot@)),
        heat_text: when_online(online, heat_of(live)),
        page_url: huya_room_prefix() + trim(room_id),
        title: title_of(live),
        urls: Seq::empty(),
    }
}

pub fn huya_room_state(room_id: &str, data: &HuyaProfileRoomData) -> (r: ExtractResult)
    ensures
        r.view_of() == huya_room_view(room_id@, *data),
{
    let is_online = is_huya_room_online(data);
    let live = &data.live_data;
    let nick = trim_str(live.nick.as_str());
    let r = ExtractResult {
        platform: String::from_str(PLATFORM_HUYA),
        room_id: if is_blank_str(live.profile_room.as_str()) {
            String::from_str(room_id)
        } else {
            live.profile_room.clone()
        },
        streamer_name: string_from_chars(nick.as_slice()),
        room_name: huya_title(live),
        avatar_url: normalize_remote_image_url(live.avatar_180.as_str()),
        is_online,
        screenshot_url: text_when_online(
            is_online,
            normalize_remote_image_url(live.screenshot.as_str()),
        ),
        heat_text: text_when_online(is_online, huya_heat_text(live)),
        page_url: build_huya_live_url(room_id),
        title: huya_title(live),
        urls: Vec::new(),
    };
    proof {
        assert(r.view_of().urls =~= Seq::<Seq<char>>::empty());
    }
    r
}

// ---------------------------------------------------------------------------
// Number formatting and the uid rotation
// ---------------------------------------------------------------------------
/// Digits of `v` in base `radix` (2 to 16), most significant first, with
/// lower-case letters.
pub open spec fn radix_digits(v: nat, radix: nat) -> Seq<char>
    recommends
        2 <= radix <= 16,
    decreases v,
{
    if radix < 2 || v < radix {
        seq![hex_digit_lower(v % 16)]
    } else {
        proof {
            vstd::arithmetic::div_mod::lemma_div_is_strictly_smaller(v as int, radix as int);
        }
        radix_digits(v / radix, radix).push(hex_digit_lower(v % radix))
    }
}

/// Left-pads with `0` up to `width` characters.
pub open spec fn pad_zero(s: Seq<char>, width: nat) -> Seq<char> {
    if s.len() < width {
        Seq::new((width - s.len()) as nat, |i: int| '0') + s
    } else {
        s
    }
}

/// `v` written in binary (radix 2), lower-case hex (16) or decimal (any
/// other radix), padded with zeros to `width`.
pub open spec fn turn_str(v: u64, radix: u32, width: nat) -> Seq<char> {
    pad_zero(
        if radix == 2 {
            radix_digits(v as nat, 2)
        } else if radix == 16 {
            radix_digits(v as nat, 16)
        } else {
            decimal(v as nat)
        },
        width,
    )
}

fn push_radix(out: &mut Vec<char>, v: u64, radix: u64)
    requires
        2 <= radix <= 16,
    ensures
        final(out)@ == old(out)@ + radix_digits(v as nat, radix as nat),
    decreases v,
{
    if v >= radix {
        proof {
            vstd::arithmetic::div_mod::lemma_div_is_strictly_smaller(v as int, radix as int);
        }
        push_radix(out, v / radix, radix);
    }
    let d = (v % radix) as u8;
    let ghost before = out@;
    out.push(hex_digit_exec(d));
    proof {
        if v < radix {
            vstd::arithmetic::div_mod::lemma_small_mod(v as nat, radix as nat);
            vstd::arithmetic::div_mod::lemma_small_mod(v as nat, 16);
        }
        assert(before.push(hex_digit_lower(d as nat)) =~= old(out)@ + radix_digits(
            v as nat,
            radix as nat,
        ));
    }
}

proof fn lemma_decimal_is_radix_ten(n: nat)
    ensures
        decimal(n) == radix_digits(n, 10),
    decreases n,
{
    if n >= 10 {
        lemma_decimal_is_radix_ten(n / 10);
    }
}

pub fn huya_turn_str(value: u64, radix: u32, width: usize) -> (s: String)
    ensures
        s@ == turn_str(value, radix, width as nat),
{
    let mut digits: Vec<char> = Vec::new();
    if radix == 2 {
        push_radix(&mut digits, value, 2);
    } else if radix == 16 {
        push_radix(&mut digits, value, 16);
    } else {
        push_decimal(&mut digits, value);
    }
    let mut out: Vec<char> = Vec::new();
    if digits.len() < width {
        let pad = width - digits.len();
        let mut i: usize = 0;
        while i < pad
            invariant
                0 <= i <= pad,
                out@ == Seq::new(i as nat, |k: int| '0'),
            decreases pad - i,
        {
            out.push('0');
            i = i + 1;
            proof {
                assert(out@ =~= Seq::new(i as nat, |k: int| '0'));
            }
        }
    }
    extend_chars(&mut out, digits.as_slice());
    proof {
        assert(out@ =~= turn_str(value, radix, width as nat));
    }
    string_from_chars(out.as_slice())
}

/// The uid rotation: the high 32 bits stay, the low 32 bits are rotated left
/// by 8 (the 64-digit binary text with its last 32 digits rotated by 8).
pub open spec fn rot_uid(uid: u64) -> u64 {
    let hi = uid & 0xFFFF_FFFF_0000_0000u64;
    let lo = uid & 0xFFFF_FFFFu64;
    hi | (((lo << 8u64) & 0xFFFF_FFFFu64) | (lo >> 24u64))
}

/// The uid rotation turns only the low 32 bits, by eight: the high 32 bits
/// stay, the top byte of the low half comes round to the bottom, the other
/// three bytes move up by one, and four rotations give the uid back.
pub proof fn lemma_rot_uid_rotates_low_bits(uid: u64)
    ensures
        rot_uid(uid) >> 32u64 == uid >> 32u64,
        rot_uid(uid) & 0xFFu64 == (uid >> 24u64) & 0xFFu64,
        (rot_uid(uid) >> 8u64) & 0xFF_FFFFu64 == uid & 0xFF_FFFFu64,
        rot_uid(rot_uid(rot_uid(rot_uid(uid)))) == uid,
{
    let r1 = rot_uid(uid);
    let r2 = rot_uid(r1);
    let r3 = rot_uid(r2);
    let r4 = rot_uid(r3);
    assert(r1 >> 32u64 == uid >> 32u64 && r1 & 0xFFu64 == (uid >> 24u64) & 0xFFu64 && (r1 >> 8u64)
        & 0xFF_FFFFu64 == uid & 0xFF_FFFFu64) by (bit_vector)
        requires
            r1 == (uid & 0xFFFF_FFFF_0000_0000u64) | ((((uid & 0xFFFF_FFFFu64) << 8u64)
                & 0xFFFF_FFFFu64) | ((uid & 0xFFFF_FFFFu64) >> 24u64)),
    ;
    assert(r4 == uid) by (bit_vector)
        requires
            r1 == (uid & 0xFFFF_FFFF_0000_0000u64) | ((((uid & 0xFFFF_FFFFu64) << 8u64)
                & 0xFFFF_FFFFu64) | ((uid & 0xFFFF_FFFFu64) >> 24u64)),
            r2 == (r1 & 0xFFFF_FFFF_0000_0000u64) | ((((r1 & 0xFFFF_FFFFu64) << 8u64)
                & 0xFFFF_FFFFu64) | ((r1 & 0xFFFF_FFFFu64) >> 24u64)),
            r3 == (r2 & 0xFFFF_FFFF_0000_0000u64) | ((((r2 & 0xFFFF_FFFFu64) << 8u64)
                & 0xFFFF_FFFFu64) | ((r2 & 0xFFFF_FFFFu64) >> 24u64)),
            r4 == (r3 & 0xFFFF_FFFF_0000_0000u64) | ((((r3 & 0xFFFF_FFFFu64) << 8u64)
                & 0xFFFF_FFFFu64) | ((r3 & 0xFFFF_FFFFu64) >> 24u64)),
    ;
}

pub fn huya_rot_uid(uid: u64) -> (r: Option<u64>)
    ensures
        r == Some(rot_uid(uid)),
{
    let hi = uid & 0xFFFF_FFFF_0000_0000u64;
    let lo = uid & 0xFFFF_FFFFu64;
    Some(hi | (((lo << 8u64) & 0xFFFF_FFFFu64) | (lo >> 24u64)))
}

// ---------------------------------------------------------------------------
// Anti-code parameters
// ---------------------------------------------------------------------------
/// The text after the first `c`.
pub open spec fn after_first_char(s: Seq<char>, c: char) -> Seq<char> {
    s.subrange(before_char(s, c).len() as int + 1, s.len() as int)
}

/// The `key=value` pieces of an anti-code, in order; pieces without `=` are
/// dropped, and the value is everything after the first `=`.
pub open spec fn anti_code_pairs(s: Seq<char>) -> Seq<(Seq<char>, Seq<char>)> {
    split(s, '&').filter(|p: Seq<char>| p.contains('=')).map_values(
        |p: Seq<char>| (before_char(p, '='), after_first_char(p, '=')),
    )
}

/// The value of `key` among the pairs; a later pair replaces an earlier one,
/// as inserting the pairs into a map in order does.
pub open spec fn lookup(pairs: Seq<(Seq<char>, Seq<char>)>, key: Seq<char>) -> Option<Seq<char>>
    decreases pairs.len(),
{
    if pairs.len() == 0 {
        None
    } else if pairs.last().0 == key {
        Some(pairs.last().1)
    } else {
        lookup(pairs.drop_last(), key)
    }
}

proof fn lemma_before_char_len(s: Seq<char>, c: char)
    ensures
        before_char(s, c).len() <= s.len(),
        s.contains(c) ==> before_char(s, c).len() < s.len() && s[before_char(s, c).len() as int]
            == c,
        before_char(s, c) == s.subrange(0, before_char(s, c).len() as int),
    decreases s.len(),
{
    if s.len() > 0 && s[0] != c {
        lemma_before_char_len(s.drop_first(), c);
        if s.contains(c) {
            let k = choose|k: int| 0 <= k < s.len() && s[k] == c;
            assert(s.drop_first()[k - 1] == c);
        }
        assert(s.subrange(0, before_char(s, c).len() as int) =~= seq![s[0]] + s.drop_first().subrange(
            0,
            before_char(s.drop_first(), c).len() as int,
        ));
    } else if s.len() > 0 {
        assert(s.subrange(0, 0) =~= Seq::<char>::empty());
    } else {
        assert(s.subrange(0, 0) =~= s);
    }
}

fn contains_char(s: &[char], c: char) -> (r: bool)
    ensures
        r == s@.contains(c),
{
    let mut i: usize = 0;
    while i < s.len()
        invariant
            0 <= i <= s@.len(),
            forall|j: int| 0 <= j < i ==> s@[j] != c,
        decreases s.len() - i,
    {
        if s[i] == c {
            proof {
                assert(s@[i as int] == c);
            }
            return true;
        }
        i = i + 1;
    }
    false
}

/// The `key=value` pairs of an anti-code.
pub fn huya_parse_anti_code(anti_code: &str) -> (r: Vec<(String, String)>)
    ensures
        header_views(r@) == anti_code_pairs(anti_code@),
{
    let chars = chars_of(anti_code);
    let pieces = split_exec(chars.as_slice(), '&');
    let ghost pv = pieces@.map_values(|v: Vec<char>| v@);
    let ghost f = |p: Seq<char>| p.contains('=');
    let ghost g = |p: Seq<char>| (before_char(p, '='), after_first_char(p, '='));
    let mut out: Vec<(String, String)> = Vec::new();
    let mut i: usize = 0;
    while i < pieces.len()
        invariant
            0 <= i <= pieces@.len(),
            pv == pieces@.map_values(|v: Vec<char>| v@),
            pv == split(anti_code@, '&'),
            f == (|p: Seq<char>| p.contains('=')),
            g == (|p: Seq<char>| (before_char(p, '='), after_first_char(p, '='))),
            header_views(out@) == pv.take(i as int).filter(f).map_values(g),
        decreases pieces.len() - i,
    {
        proof {
            assert(pv.take(i + 1).drop_last() =~= pv.take(i as int));
            reveal_with_fuel(Seq::filter, 1);
        }
        let piece = &pieces[i];
        if contains_char(piece.as_slice(), '=') {
            let key = before_char_exec(piece.as_slice(), '=');
            proof {
                lemma_before_char_len(piece@, '=');
            }
            let pl = piece.len();
            assert(key@.len() < piece@.len());
            let value = sub_chars(piece.as_slice(), key.len() + 1, pl);
            let ghost before = out@;
            out.push((string_from_chars(key.as_slice()), string_from_chars(value.as_slice())));
            proof {
                assert(pv.take(i + 1).filter(f) =~= pv.take(i as int).filter(f).push(pv[i as int]));
                assert(header_views(out@) =~= header_views(before).push(g(pv[i as int])));
            }
        }
        i = i + 1;
    }
    proof {
        assert(pv.take(pieces@.len() as int) =~= pv);
    }
    out
}

/// The value of `key` among the pairs (the last pair with that key).
pub fn anti_code_get(pairs: &Vec<(String, String)>, key: &str) -> (r: Option<String>)
    ensures
        r is Some <==> lookup(header_views(pairs@), key@) is Some,
        r matches Some(v) ==> lookup(header_views(pairs@), key@) == Some(v@),
{
    let ghost hv = header_views(pairs@);
    let k = chars_of(key);
    let mut i = pairs.len();
    proof {
        assert(hv.take(i as int) =~= hv);
    }
    while i > 0
        invariant
            0 <= i <= pairs@.len(),
            hv == header_views(pairs@),
            k@ == key@,
            lookup(hv, key@) == lookup(hv.take(i as int), key@),
        decreases i,
    {
        proof {
            assert(hv.take(i as int).drop_last() =~= hv.take(i - 1));
            assert(hv.take(i as int).last() == hv[i - 1]);
        }
        let name = chars_of(pairs[i - 1].0.as_str());
        if crate::text::eq_chars(name.as_slice(), k.as_slice()) {
            return Some(pairs[i - 1].1.clone());
        }
        i = i - 1;
    }
    proof {
        assert(hv.take(0) =~= Seq::<(Seq<char>, Seq<char>)>::empty());
    }
    None
}

// ---------------------------------------------------------------------------
// The stream secret and the stream address
// ---------------------------------------------------------------------------
/// `urlencoding::decode` as text, `None` when the decoded bytes are not UTF-8.
pub open spec fn url_decoded(s: Seq<char>) -> Option<Seq<char>> {
    let b = percent_decode(encode_utf8(s));
    if valid_utf8(b) {
        Some(decode_utf8(b))
    } else {
        None
    }
}

/// Base64 text decoded to UTF-8 text.
pub open spec fn base64_text(s: Seq<char>) -> Option<Seq<char>> {
    match base64_standard_decode(encode_utf8(s)) {
        None => None,
        Some(b) => if valid_utf8(b) {
            Some(decode_utf8(b))
        } else {
            None
        },
    }
}

pub fn huya_decode_base64_to_string(value: &str) -> (r: Option<String>)
    ensures
        r is Some <==> base64_text(value@) is Some,
        r matches Some(s) ==> base64_text(value@) == Some(s@),
{
    let decoded = match base64_decode(value.as_bytes()) {
        Some(d) => d,
        None => return None,
    };
    utf8_to_string(decoded.as_slice())
}

/// The `wsSecret` of a stream: the MD5 of the decoded `fm` template with
/// `$0` the rotated uid, `$1` the stream name, `$2` the MD5 of
/// `seq|ctype|t` (`t` defaults to `100`) and `$3` the `wsTime`.
pub open spec fn ws_secret(
    pairs: Seq<(Seq<char>, Seq<char>)>,
    converted_uid: u64,
    seq_id: u64,
    stream_name: Seq<char>,
) -> Option<Seq<char>> {
    match (lookup(pairs, "fm"@), lookup(pairs, "wsTime"@), lookup(pairs, "ctype"@)) {
        (Some(fm), Some(ws_time), Some(ctype)) => {
            let t = match lookup(pairs, "t"@) {
                Some(t) => t,
                None => "100"@,
            };
            match url_decoded(fm) {
                None => None,
                Some(fm_text) => match base64_text(fm_text) {
                    None => None,
                    Some(template) => {
                        let suffix = md5_hex_of(
                            decimal(seq_id as nat) + "|"@ + ctype + "|"@ + t,
                        );
                        let filled = replace(
                            replace(
                                replace(
                                    replace(template, "$0"@, decimal(converted_uid as nat)),
                                    "$1"@,
                                    stream_name,
                                ),
                                "$2"@,
                                suffix,
                            ),
                            "$3"@,
                            ws_time,
                        );
                        Some(md5_hex_of(filled))
                    },
                },
            }
        },
        _ => None,
    }
}

fn decimal_string(v: u64) -> (s: String)
    ensures
        s@ == decimal(v as nat),
{
    let mut d: Vec<char> = Vec::new();
    push_decimal(&mut d, v);
    string_from_chars(d.as_slice())
}

fn replace_str(s: &[char], from: &str, to: &[char]) -> (v: Vec<char>)
    requires
        from@.len() > 0,
    ensures
        v@ == replace(s@, from@, to@),
{
    let f = chars_of(from);
    replace_exec(s, f.as_slice(), to)
}

pub fn huya_ws_secret(
    anti_codes: &Vec<(String, String)>,
    converted_uid: u64,
    seq_id: u64,
    stream_name: &str,
) -> (r: Option<String>)
    ensures
        r is Some <==> ws_secret(header_views(anti_codes@), converted_uid, seq_id, stream_name@) is Some,
        r matches Some(s) ==> ws_secret(header_views(anti_codes@), converted_uid, seq_id, stream_name@)
            == Some(s@),
{
    proof {
        reveal_strlit("$0");
        reveal_strlit("$1");
        reveal_strlit("$2");
        reveal_strlit("$3");
    }
    let fm = match anti_code_get(anti_codes, "fm") {
        Some(v) => v,
        None => return None,
    };
    let ws_time = match anti_code_get(anti_codes, "wsTime") {
        Some(v) => v,
        None => return None,
    };
    let ctype = match anti_code_get(anti_codes, "ctype") {
        Some(v) => v,
        None => return None,
    };
    let t = match anti_code_get(anti_codes, "t") {
        Some(v) => v,
        None => String::from_str("100"),
    };
    let fm_text = match url_decode(fm.as_str()) {
        Some(v) => v,
        None => return None,
    };
    let template = match huya_decode_base64_to_string(fm_text.as_str()) {
        Some(v) => v,
        None => return None,
    };
    let mut sfx: Vec<char> = Vec::new();
    push_decimal(&mut sfx, seq_id);
    extend_str(&mut sfx, "|");
    extend_str(&mut sfx, ctype.as_str());
    extend_str(&mut sfx, "|");
    extend_str(&mut sfx, t.as_str());
    let sfx_text = string_from_chars(sfx.as_slice());
    let suffix = md5_hex(sfx_text.as_str());
    let uid_text = decimal_string(converted_uid);
    let tpl = chars_of(template.as_str());
    let uid_chars = chars_of(uid_text.as_str());
    let name_chars = chars_of(stream_name);
    let suffix_chars = chars_of(suffix.as_str());
    let ws_chars = chars_of(ws_time.as_str());
    let a = replace_str(tpl.as_slice(), "$0", uid_chars.as_slice());
    let b = replace_str(a.as_slice(), "$1", name_chars.as_slice());
    let c = replace_str(b.as_slice(), "$2", suffix_chars.as_slice());
    let d = replace_str(c.as_slice(), "$3", ws_chars.as_slice());
    let filled = string_from_chars(d.as_slice());
    Some(md5_hex(filled.as_str()))
}

pub open spec fn huya_example_url() -> Seq<char> {
    HUYA_EXAMPLE_URL@
}

/// A sample Huya stream address; its query gives the parameter names and
/// their order, and the values used when the anti-code has none.
pub const HUYA_EXAMPLE_URL: &'static str = "https://tx.flv.huya.com/huyalive/1099531627955-1099531627955-85900114719145984-2199063379366-10057-A-0-1.flv?wsSecret=42a9adedc7011adc1dbc20628eaa503f&wsTime=67b6c60d&seqid=1742352165582&ctype=huya_live&ver=1&fs=bgct&ratio=2000&dMod=mseh-8&sdkPcdn=1_1&u=1451203978&t=100&sv=2407051433&sdk_sid=1740031240996&a_block=0&sf=1";

/// The query of a stream address: each parameter of the sample address, in
/// its order, with the value from the parameters when they have one.
pub open spec fn stream_query(
    example: Seq<(Seq<char>, Seq<char>)>,
    params: Seq<(Seq<char>, Seq<char>)>,
) -> Seq<Seq<char>> {
    example.map_values(|p: (Seq<char>, Seq<char>)| query_part(p, params))
}

/// One `key=value` part of the query.
pub open spec fn query_part(p: (Seq<char>, Seq<char>), params: Seq<(Seq<char>, Seq<char>)>) -> Seq<
    char,
> {
    p.0 + "="@ + match lookup(params, p.0) {
        Some(v) => v,
        None => p.1,
    }
}

pub open spec fn has_stream_fields(s: HuyaStreamInfo) -> bool {
    !is_blank(s.s_stream_name@) && !is_blank(s.s_flv_url@) && !is_blank(s.s_flv_url_suffix@)
        && !is_blank(s.s_flv_anti_code@)
}

/// The signed address of one stream, for a uid and the current time in ms;
/// none when a field is missing, the secret cannot be made, or the sample
/// address does not parse.
pub open spec fn huya_stream_url(uid: u64, now_ms: u64, s: HuyaStreamInfo) -> Option<Seq<char>> {
    if !has_stream_fields(s) {
        None
    } else {
        let seq_id = (uid + now_ms) as u64;
        let pairs = anti_code_pairs(s.s_flv_anti_code@);
        let converted = rot_uid(uid);
        match ws_secret(pairs, converted, seq_id, s.s_stream_name@) {
            None => None,
            Some(secret) => {
                let params = pairs + seq![
                    ("u"@, decimal(converted as nat)),
                    ("wsSecret"@, secret),
                    ("seqid"@, decimal(seq_id as nat)),
                    ("sdk_sid"@, decimal(now_ms as nat)),
                    ("ratio"@, "0"@),
                ];
                match url_query_pairs(huya_example_url()) {
                    None => None,
                    Some(example) => Some(
                        remote_image_url(s.s_flv_url@) + "/"@ + s.s_stream_name@ + "."@
                            + s.s_flv_url_suffix@ + "?"@ + join(stream_query(example, params), "&"@),
                    ),
                }
            },
        }
    }
}

fn push_pair(pairs: &mut Vec<(String, String)>, key: &str, value: String)
    ensures
        header_views(final(pairs)@) == header_views(old(pairs)@).push((key@, value@)),
{
    pairs.push((String::from_str(key), value));
    proof {
        assert(header_views(final(pairs)@) =~= header_views(old(pairs)@).push((key@, value@)));
    }
}

/// The query of a stream address: each parameter of the sample address
/// `example`, in its order, as `key=value` with the value from `params`
/// when they have the key and the sample's value otherwise, joined by `&`.
pub fn huya_stream_query(example: &Vec<(String, String)>, params: &Vec<(String, String)>) -> (r: String)
    ensures
        r@ == join(stream_query(header_views(example@), header_views(params@)), "&"@),
{
    let ghost ev = header_views(example@);
    let ghost pv = header_views(params@);
    let mut parts: Vec<Vec<char>> = Vec::new();
    let mut i: usize = 0;
    while i < example.len()
        invariant
            0 <= i <= example@.len(),
            ev == header_views(example@),
            pv == header_views(params@),
            parts@.map_values(|p: Vec<char>| p@) == stream_query(ev.take(i as int), pv),
        decreases example.len() - i,
    {
        let key = &example[i].0;
        let value = match anti_code_get(params, key.as_str()) {
            Some(v) => v,
            None => example[i].1.clone(),
        };
        let mut part: Vec<char> = Vec::new();
        extend_str(&mut part, key.as_str());
        extend_str(&mut part, "=");
        extend_str(&mut part, value.as_str());
        let ghost before = parts@;
        proof {
            assert(part@ == query_part(ev[i as int], pv));
        }
        parts.push(part);
        proof {
            assert(ev.take(i + 1) =~= ev.take(i as int).push(ev[i as int]));
            assert(stream_query(ev.take(i + 1), pv) =~= stream_query(ev.take(i as int), pv).push(
                query_part(ev[i as int], pv),
            ));
            assert(parts@.map_values(|p: Vec<char>| p@) =~= before.map_values(
                |p: Vec<char>| p@,
            ).push(part@));
        }
        i = i + 1;
    }
    proof {
        assert(ev.take(example@.len() as int) =~= ev);
    }
    let query = join_exec(&parts, "&");
    string_from_chars(query.as_slice())
}

pub fn huya_format_url(uid: u64, now_ms: u64, stream: &HuyaStreamInfo) -> (r: Option<String>)
    requires
        uid + now_ms <= u64::MAX,
    ensures
        r is Some <==> huya_stream_url(uid, now_ms, *stream) is Some,
        r matches Some(u) ==> huya_stream_url(uid, now_ms, *stream) == Some(u@),
{
    if is_blank_str(stream.s_stream_name.as_str()) || is_blank_str(stream.s_flv_url.as_str())
        || is_blank_str(stream.s_flv_url_suffix.as_str()) || is_blank_str(
        stream.s_flv_anti_code.as_str(),
    ) {
        return None;
    }
    let sdk_sid = now_ms;
    let seq_id = uid + now_ms;
    let mut anti_codes = huya_parse_anti_code(stream.s_flv_anti_code.as_str());
    let ghost pairs0 = header_views(anti_codes@);
    let converted_uid = match huya_rot_uid(uid) {
        Some(v) => v,
        None => return None,
    };
    let secret = match huya_ws_secret(
        &anti_codes,
        converted_uid,
        seq_id,
        stream.s_stream_name.as_str(),
    ) {
        Some(v) => v,
        None => return None,
    };
    push_pair(&mut anti_codes, "u", decimal_string(converted_uid));
    push_pair(&mut anti_codes, "wsSecret", secret);
    push_pair(&mut anti_codes, "seqid", decimal_string(seq_id));
    push_pair(&mut anti_codes, "sdk_sid", decimal_string(sdk_sid));
    push_pair(&mut anti_codes, "ratio", String::from_str("0"));
    proof {
        assert(header_views(anti_codes@) =~= pairs0 + seq![
            ("u"@, decimal(converted_uid as nat)),
            ("wsSecret"@, secret@),
            ("seqid"@, decimal(seq_id as nat)),
            ("sdk_sid"@, decimal(now_ms as nat)),
            ("ratio"@, "0"@),
        ]);
    }
    let example = match parse_url_query_pairs(HUYA_EXAMPLE_URL) {
        Some(v) => v,
        None => return None,
    };
    let ghost ev = header_views(example@);
    let ghost pv = header_views(anti_codes@);
    let query = huya_stream_query(&example, &anti_codes);
    let host = normalize_remote_image_url(stream.s_flv_url.as_str());
    let mut u: Vec<char> = Vec::new();
    extend_str(&mut u, host.as_str());
    extend_str(&mut u, "/");
    extend_str(&mut u, stream.s_stream_name.as_str());
    extend_str(&mut u, ".");
    extend_str(&mut u, stream.s_flv_url_suffix.as_str());
    extend_str(&mut u, "?");
    extend_str(&mut u, query.as_str());
    proof {
        assert(has_stream_fields(*stream));
        assert(converted_uid == rot_uid(uid));
        assert(ws_secret(pairs0, converted_uid, seq_id, stream.s_stream_name@) == Some(secret@));
        assert(url_query_pairs(huya_example_url()) == Some(ev));
        assert(query@ == join(stream_query(ev, pv), "&"@));
        assert(u@ =~= remote_image_url(stream.s_flv_url@) + "/"@ + stream.s_stream_name@ + "."@
            + stream.s_flv_url_suffix@ + "?"@ + join(stream_query(ev, pv), "&"@));
    }
    Some(string_from_chars(u.as_slice()))
}


// ---------------------------------------------------------------------------
// Stream lines of a live room
// ---------------------------------------------------------------------------
pub open spec fn is_txdirect(s: HuyaStreamInfo) -> bool {
    contains(s.s_flv_url@, "txdirect.flv.huya.com"@)
}

/// Picks the streams that are (`want`) or are not `txdirect` ones.
pub open spec fn tx_is(want: bool) -> spec_fn(HuyaStreamInfo) -> bool {
    |s: HuyaStreamInfo| is_txdirect(s) == want
}

/// Streams in the order they are tried: other CDNs first, then the
/// `txdirect` ones, each group in the order given.
pub open spec fn ordered_streams(list: Seq<HuyaStreamInfo>) -> Seq<HuyaStreamInfo> {
    list.filter(tx_is(false)) + list.filter(tx_is(true))
}

/// The addresses that can be built, in order.
pub open spec fn stream_urls(uid: u64, now_ms: u64, list: Seq<HuyaStreamInfo>) -> Seq<Seq<char>>
    decreases list.len(),
{
    if list.len() == 0 {
        Seq::empty()
    } else {
        stream_urls(uid, now_ms, list.drop_last()) + match huya_stream_url(uid, now_ms, list.last()) {
            Some(u) => seq![u],
            None => Seq::empty(),
        }
    }
}

pub open spec fn msg_no_stream_info() -> Seq<char> {
    "未获取到虎牙直播流信息"@
}

pub open spec fn msg_no_stream_lines() -> Seq<char> {
    "未获取到可用的虎牙播放线路"@
}

/// The stream addresses of a live room, for a uid and the current time in
/// ms: an error when the answer has no stream part or no address can be
/// built.
pub open spec fn huya_play_result(d: HuyaProfileRoomData, uid: u64, now_ms: u64) -> Result<
    Seq<Seq<char>>,
    Seq<char>,
> {
    match d.stream {
        None => Err(msg_no_stream_info()),
        Some(st) => {
            let urls = stream_urls(uid, now_ms, ordered_streams(st.base_stream_info_list@));
            if urls.len() == 0 {
                Err(msg_no_stream_lines())
            } else {
                Ok(urls)
            }
        },
    }
}

/// Appends the addresses of the streams that are (or are not) `txdirect`.
fn push_stream_urls(
    urls: &mut Vec<String>,
    list: &Vec<HuyaStreamInfo>,
    want_tx: bool,
    uid_seed: u64,
    now_ms: u64,
    Ghost(base): Ghost<Seq<HuyaStreamInfo>>,
)
    requires
        uid_seed + now_ms <= u64::MAX,
        views(old(urls)@) == stream_urls(uid_seed, now_ms, base),
    ensures
        views(final(urls)@) == stream_urls(uid_seed, now_ms, base + list@.filter(tx_is(want_tx))),
{
    let ghost l = list@;
    let ghost f = tx_is(want_tx);
    let mut i: usize = 0;
    proof {
        assert(l.take(0).filter(f) =~= Seq::<HuyaStreamInfo>::empty());
        assert(base + l.take(0).filter(f) =~= base);
    }
    while i < list.len()
        invariant
            0 <= i <= list@.len(),
            l == list@,
            f == tx_is(want_tx),
            uid_seed + now_ms <= u64::MAX,
            views(urls@) == stream_urls(uid_seed, now_ms, base + l.take(i as int).filter(f)),
        decreases list.len() - i,
    {
        proof {
            assert(l.take(i + 1).drop_last() =~= l.take(i as int));
            reveal_with_fuel(Seq::filter, 1);
        }
        let tx = contains_str(chars_of(list[i].s_flv_url.as_str()).as_slice(), "txdirect.flv.huya.com");
        proof {
            reveal_strlit("txdirect.flv.huya.com");
            assert(tx == is_txdirect(l[i as int]));
        }
        if tx == want_tx {
            let ghost prev = base + l.take(i as int).filter(f);
            proof {
                assert(f(l[i as int]));
                assert(l.take(i + 1).filter(f) =~= l.take(i as int).filter(f).push(l[i as int]));
                assert(base + l.take(i + 1).filter(f) =~= prev.push(l[i as int]));
                assert(prev.push(l[i as int]).drop_last() =~= prev);
            }
            match huya_format_url(uid_seed, now_ms, &list[i]) {
                Some(u) => {
                    let ghost before = urls@;
                    urls.push(u);
                    proof {
                        assert(views(urls@) =~= views(before) + seq![u@]);
                    }
                },
                None => {
                    proof {
                        assert(views(urls@) =~= views(urls@) + Seq::<Seq<char>>::empty());
                    }
                },
            }
        } else {
            proof {
                assert(!f(l[i as int]));
                assert(l.take(i + 1).filter(f) =~= l.take(i as int).filter(f));
            }
        }
        i = i + 1;
    }
    proof {
        assert(l.take(list@.len() as int) =~= l);
    }
}

pub fn huya_play_urls(data: &HuyaProfileRoomData, uid_seed: u64, now_ms: u64) -> (r: Result<
    Vec<String>,
    String,
>)
    requires
        uid_seed + now_ms <= u64::MAX,
    ensures
        match huya_play_result(*data, uid_seed, now_ms) {
            Ok(urls) => r is Ok && views(r->Ok_0@) == urls,
            Err(e) => r is Err && r->Err_0@ == e,
        },
{
    let list = match &data.stream {
        Some(st) => &st.base_stream_info_list,
        None => return Err(String::from_str("未获取到虎牙直播流信息")),
    };
    let ghost l = list@;
    let mut urls: Vec<String> = Vec::new();
    proof {
        assert(views(urls@) =~= Seq::<Seq<char>>::empty());
        assert(Seq::<HuyaStreamInfo>::empty().len() == 0);
    }
    push_stream_urls(&mut urls, list, false, uid_seed, now_ms, Ghost(Seq::empty()));
    proof {
        assert(Seq::<HuyaStreamInfo>::empty() + l.filter(tx_is(false)) =~= l.filter(tx_is(false)));
    }
    push_stream_urls(&mut urls, list, true, uid_seed, now_ms, Ghost(l.filter(tx_is(false))));
    if urls.len() == 0 {
        return Err(String::from_str("未获取到可用的虎牙播放线路"));
    }
    Ok(urls)
}

/// The patterns that find a room number in a Huya page.
pub open spec fn huya_id_pattern(i: int) -> Seq<char> {
    if i == 0 {
        HUYA_ID_PATTERN_QUOTED@
    } else {
        HUYA_ID_PATTERN_BARE@
    }
}

pub const HUYA_ID_PATTERN_QUOTED: &'static str = "\"profileRoom\"\\s*:\\s*\"?(?P<id>\\d+)\"?";

pub const HUYA_ID_PATTERN_BARE: &'static str = "profileRoom\\s*:\\s*\"?(?P<id>\\d+)\"?";

/// The first group of the first match, when there is one.
pub open spec fn first_group(caps: Seq<Seq<Option<Seq<char>>>>) -> Option<Seq<char>> {
    if caps.len() > 0 && caps[0].len() > 1 {
        caps[0][1]
    } else {
        None
    }
}

/// The room number in a Huya page: the number after the first
/// `"profileRoom":`, else after the first bare `profileRoom:`; none when a
/// pattern does not compile.
pub open spec fn html_room_id(html: Seq<char>) -> Option<Seq<char>> {
    match regex_captures(huya_id_pattern(0), html) {
        Err(_) => None,
        Ok(caps) => match first_group(caps) {
            Some(id) => Some(id),
            None => match regex_captures(huya_id_pattern(1), html) {
                Err(_) => None,
                Ok(caps2) => first_group(caps2),
            },
        },
    }
}

fn first_group_exec(caps: &Vec<Vec<Option<String>>>) -> (r: Option<String>)
    ensures
        r is Some <==> first_group(capture_views(caps@)) is Some,
        r matches Some(s) ==> first_group(capture_views(caps@)) == Some(s@),
{
    if caps.len() > 0 && caps[0].len() > 1 {
        match &caps[0][1] {
            Some(s) => Some(s.clone()),
            None => None,
        }
    } else {
        None
    }
}

pub fn extract_huya_room_id_from_html(html: &str) -> (r: Option<String>)
    ensures
        r is Some <==> html_room_id(html@) is Some,
        r matches Some(s) ==> html_room_id(html@) == Some(s@),
{
    let caps = match regex_all_captures(HUYA_ID_PATTERN_QUOTED, html) {
        Ok(c) => c,
        Err(_) => return None,
    };
    if let Some(id) = first_group_exec(&caps) {
        return Some(id);
    }
    let caps2 = match regex_all_captures(HUYA_ID_PATTERN_BARE, html) {
        Ok(c) => c,
        Err(_) => return None,
    };
    first_group_exec(&caps2)
}

pub open spec fn msg_no_huya_room() -> Seq<char> {
    "无法识别虎牙房间号"@
}

/// The room number found in a Huya page; an error when there is none.
pub fn huya_room_id_from_page(html: &str) -> (r: Result<String, String>)
    ensures
        r is Ok <==> html_room_id(html@) is Some,
        r matches Ok(id) ==> html_room_id(html@) == Some(id@),
        r matches Err(e) ==> e@ == msg_no_huya_room(),
{
    match extract_huya_room_id_from_html(html) {
        Some(id) => Ok(id),
        None => Err(String::from_str("无法识别虎牙房间号")),
    }
}

/// The profile-room answer of a room.
pub fn huya_profile_url(room_id: &str) -> (r: String)
    ensures
        r@ == "https://mp.huya.com/cache.php?m=Live&do=profileRoom&roomid="@ + room_id@,
{
    let mut v: Vec<char> = Vec::new();
    extend_str(&mut v, "https://mp.huya.com/cache.php?m=Live&do=profileRoom&roomid=");
    extend_str(&mut v, room_id);
    string_from_chars(v.as_slice())
}

/// The uid the stream addresses are signed with: the current time in ms
/// modulo 4294967295.
pub fn huya_uid_seed(now_ms: u64) -> (r: u64)
    ensures
        r == now_ms % 4294967295,
        r < 4294967295,
{
    now_ms % 4294967295
}

/// A report with the given stream lines in place of its own.
pub open spec fn with_urls(v: RoomView, urls: Seq<Seq<char>>) -> RoomView {
    RoomView {
        platform: v.platform,
        room_id: v.room_id,
        streamer_name: v.streamer_name,
        room_name: v.room_name,
        avatar_url: v.avatar_url,
        is_online: v.is_online,
        screenshot_url: v.screenshot_url,
        heat_text: v.heat_text,
        page_url: v.page_url,
        title: v.title,
        urls,
    }
}

/// A live room's report with its stream lines, or the error when the
/// answer has none.
pub fn huya_play_state(
    state: ExtractResult,
    data: &HuyaProfileRoomData,
    uid_seed: u64,
    now_ms: u64,
) -> (r: Result<ExtractResult, String>)
    requires
        uid_seed + now_ms <= u64::MAX,
    ensures
        match huya_play_result(*data, uid_seed, now_ms) {
            Ok(urls) => r matches Ok(s) && s.view_of() == with_urls(state.view_of(), urls),
            Err(e) => r matches Err(m) && m@ == e,
        },
{
    match huya_play_urls(data, uid_seed, now_ms) {
        Ok(urls) => {
            let mut state = state;
            state.urls = urls;
            proof {
                assert(state.view_of().urls =~= views(state.urls@));
            }
            Ok(state)
        },
        Err(e) => Err(e),
    }
}

} // verus!
