//! Douyu: reading a room out of its page and its JSON answers, signing the
//! play request, and assembling the stream lines.
use vstd::prelude::*;
use crate::text::{
    is_blank, decimal, decimal_int, find, replace, before_char, chars_of, find_exec, sub_chars,
    replace_exec, push_decimal, push_decimal_i64, extend_chars, extend_str, eq_str, is_blank_str,
    before_char_exec,
};
use crate::outside::{string_from_chars, new_uuid_v4, is_uuid_v4_text};
use crate::digest::{md5_hex, md5_hex_of};
use crate::platform::{split, split_exec, join, join_exec, douyu_name, PLATFORM_DOUYU};
use crate::state::{ExtractResult, RoomView, when_online, text_when_online};
use crate::room::{room_input_url, normalize_room_input};
use crate::seqs::{views, text_result};

verus! {

// ---------------------------------------------------------------------------
// JSON values as the room logic reads them
// ---------------------------------------------------------------------------
/// A JSON value as far as it is read as text: a string, an integer that
/// fits `i64`, a larger one that fits `u64`, or anything else.
pub enum JsonScalar {
    Str(String),
    Int(i64),
    UInt(u64),
    Other,
}

/// The text of a value: a string as it is, an integer in decimal, anything
/// else empty.
pub open spec fn scalar_text(v: JsonScalar) -> Seq<char> {
    match v {
        JsonScalar::Str(s) => s@,
        JsonScalar::Int(n) => decimal_int(n as int),
        JsonScalar::UInt(n) => decimal(n as nat),
        JsonScalar::Other => Seq::empty(),
    }
}

pub fn value_to_string(value: &JsonScalar) -> (s: String)
    ensures
        s@ == scalar_text(*value),
{
    match value {
        JsonScalar::Str(s) => s.clone(),
        JsonScalar::Int(n) => {
            let mut d: Vec<char> = Vec::new();
            push_decimal_i64(&mut d, *n);
            string_from_chars(d.as_slice())
        },
        JsonScalar::UInt(n) => {
            let mut d: Vec<char> = Vec::new();
            push_decimal(&mut d, *n);
            string_from_chars(d.as_slice())
        },
        JsonScalar::Other => String::new(),
    }
}

// ---------------------------------------------------------------------------
// A room
// ---------------------------------------------------------------------------
/// The parts of a Douyu room object that are read.
pub struct DouyuRoom {
    pub room_id: JsonScalar,
    pub nickname: JsonScalar,
    pub room_name: JsonScalar,
    pub avatar_big: JsonScalar,
    pub avatar_middle: JsonScalar,
    pub status: JsonScalar,
    /// `show_status` when it is an integer.
    pub show_status: Option<i64>,
    pub room_pic: JsonScalar,
    pub show_details: JsonScalar,
    /// `room_biz_all.hot`.
    pub hot: JsonScalar,
}

/// A room is live when its status reads `1` and its show status, when it is
/// an integer, is 1.
pub open spec fn room_online(room: DouyuRoom) -> bool {
    let status_live = scalar_text(room.status) == "1"@;
    match room.show_status {
        Some(n) => n == 1 && status_live,
        None => status_live,
    }
}

pub fn is_room_online(room: &DouyuRoom) -> (r: bool)
    ensures
        r == room_online(*room),
{
    let status = value_to_string(&room.status);
    let status_chars = chars_of(status.as_str());
    let status_live = eq_str(status_chars.as_slice(), "1");
    match room.show_status {
        Some(n) => n == 1 && status_live,
        None => status_live,
    }
}

/// The avatar of a room: the big one, else the middle one.
pub open spec fn avatar_of(room: DouyuRoom) -> Seq<char> {
    if scalar_text(room.avatar_big).len() == 0 {
        scalar_text(room.avatar_middle)
    } else {
        scalar_text(room.avatar_big)
    }
}

fn room_avatar(room: &DouyuRoom) -> (s: String)
    ensures
        s@ == avatar_of(*room),
{
    let big = value_to_string(&room.avatar_big);
    if big.as_str().is_empty() {
        value_to_string(&room.avatar_middle)
    } else {
        big
    }
}

/// A room as read from its page.
pub struct RoomInfo {
    pub room_id: String,
    pub is_living: bool,
    pub streamer_name: String,
    pub room_name: String,
    pub avatar_url: String,
}

/// The picture and heat of a room.
pub struct RoomMeta {
    pub screenshot_url: String,
    pub heat_text: String,
}

impl RoomMeta {
    /// No picture and no heat.
    pub fn empty() -> (m: RoomMeta)
        ensures
            m.screenshot_url@.len() == 0,
            m.heat_text@.len() == 0,
    {
        RoomMeta { screenshot_url: String::new(), heat_text: String::new() }
    }
}

/// A room as read from its JSON answer.
pub struct RoomSnapshot {
    pub room_id: String,
    pub streamer_name: String,
    pub room_name: String,
    pub avatar_url: String,
    pub is_online: bool,
    pub screenshot_url: String,
    pub heat_text: String,
}

pub open spec fn msg_no_room_info() -> Seq<char> {
    "Failed to extract roomInfo JSON"@
}

pub open spec fn msg_no_room_id() -> Seq<char> {
    "Failed to find room_id in roomInfo JSON"@
}

/// The room read from the `room` object of a page's room information; an
/// error when it has no room number.
pub fn room_info_from_room(room: &DouyuRoom) -> (r: Result<RoomInfo, String>)
    ensures
        r is Err <==> is_blank(scalar_text(room.room_id)),
        r matches Err(e) ==> e@ == msg_no_room_id(),
        r matches Ok(info) ==> {
            &&& info.room_id@ == scalar_text(room.room_id)
            &&& info.is_living == room_online(*room)
            &&& info.streamer_name@ == scalar_text(room.nickname)
            &&& info.room_name@ == scalar_text(room.room_name)
            &&& info.avatar_url@ == avatar_of(*room)
        },
{
    let room_id = value_to_string(&room.room_id);
    if is_blank_str(room_id.as_str()) {
        return Err(String::from_str("Failed to find room_id in roomInfo JSON"));
    }
    Ok(
        RoomInfo {
            room_id,
            is_living: is_room_online(room),
            streamer_name: value_to_string(&room.nickname),
            room_name: value_to_string(&room.room_name),
            avatar_url: room_avatar(room),
        },
    )
}

/// The picture of a room (its picture, else its show details) and its heat.
pub fn room_meta_of(room: &DouyuRoom) -> (m: RoomMeta)
    ensures
        m.screenshot_url@ == (if scalar_text(room.room_pic).len() == 0 {
            scalar_text(room.show_details)
        } else {
            scalar_text(room.room_pic)
        }),
        m.heat_text@ == scalar_text(room.hot),
{
    let pic = value_to_string(&room.room_pic);
    let shot = if pic.as_str().is_empty() {
        value_to_string(&room.show_details)
    } else {
        pic
    };
    RoomMeta { screenshot_url: shot, heat_text: value_to_string(&room.hot) }
}

/// A room read from its JSON answer, under the number it was asked for; a
/// room that is not live has no picture and no heat.
pub fn room_snapshot_of(room_id: &str, room: &DouyuRoom) -> (s: RoomSnapshot)
    ensures
        s.room_id@ == room_id@,
        s.streamer_name@ == scalar_text(room.nickname),
        s.room_name@ == scalar_text(room.room_name),
        s.avatar_url@ == avatar_of(*room),
        s.is_online == room_online(*room),
        s.screenshot_url@ == when_online(room_online(*room), scalar_text(room.room_pic)),
        s.heat_text@ == when_online(room_online(*room), scalar_text(room.hot)),
{
    let online = is_room_online(room);
    RoomSnapshot {
        room_id: String::from_str(room_id),
        streamer_name: value_to_string(&room.nickname),
        room_name: value_to_string(&room.room_name),
        avatar_url: room_avatar(room),
        is_online: online,
        screenshot_url: text_when_online(online, value_to_string(&room.room_pic)),
        heat_text: text_when_online(online, value_to_string(&room.hot)),
    }
}

// ---------------------------------------------------------------------------
// The room information embedded in a page
// ---------------------------------------------------------------------------
/// The marker before the room information: `\"roomInfo\"`.
pub open spec fn room_info_marker() -> Seq<char> {
    seq!['\\', '"', 'r', 'o', 'o', 'm', 'I', 'n', 'f', 'o', '\\', '"']
}

/// Where the object opened at `i` closes: scanning from `i` with `depth`
/// braces open, the first `}` that brings the depth to zero.
pub open spec fn close_index(s: Seq<char>, i: int, depth: int) -> Option<int>
    decreases s.len() - i,
{
    if i < 0 || i >= s.len() {
        None
    } else if s[i] == '{' {
        close_index(s, i + 1, depth + 1)
    } else if s[i] == '}' {
        if depth - 1 == 0 {
            Some(i)
        } else {
            close_index(s, i + 1, depth - 1)
        }
    } else {
        close_index(s, i + 1, depth)
    }
}

/// The room information of a page: the object after the marker, up to its
/// matching brace, with `\"` turned into `"`.
pub open spec fn room_info_json_of(html: Seq<char>) -> Option<Seq<char>> {
    match find(html, room_info_marker()) {
        None => None,
        Some(m) => {
            let after = m + room_info_marker().len();
            match find(html.skip(after), seq!['{']) {
                None => None,
                Some(o) => {
                    let start = after + o;
                    match close_index(html, start, 0) {
                        None => None,
                        Some(e) => Some(
                            replace(html.subrange(start, e + 1), seq!['\\', '"'], seq!['"']),
                        ),
                    }
                },
            }
        },
    }
}

fn close_brace(s: &[char], start: usize) -> (r: Option<usize>)
    requires
        start <= s@.len(),
    ensures
        r matches Some(e) ==> close_index(s@, start as int, 0) == Some(e as int) && start <= e
            < s@.len(),
        r is None ==> close_index(s@, start as int, 0) is None,
{
    let mut depth: i128 = 0;
    let mut i: usize = start;
    while i < s.len()
        invariant
            start <= i <= s@.len(),
            -(i - start) <= depth <= i - start,
            close_index(s@, i as int, depth as int) == close_index(s@, start as int, 0),
        decreases s.len() - i,
    {
        let c = s[i];
        if c == '{' {
            depth = depth + 1;
        } else if c == '}' {
            if depth - 1 == 0 {
                return Some(i);
            }
            depth = depth - 1;
        }
        i = i + 1;
    }
    None
}

/// The room information embedded in a Douyu page.
pub fn extract_room_info_json(html: &str) -> (r: Option<String>)
    ensures
        r is Some <==> room_info_json_of(html@) is Some,
        r matches Some(j) ==> room_info_json_of(html@) == Some(j@),
{
    let s = chars_of(html);
    let marker: Vec<char> = vec!['\\', '"', 'r', 'o', 'o', 'm', 'I', 'n', 'f', 'o', '\\', '"'];
    proof {
        assert(marker@ =~= room_info_marker());
    }
    let m = match find_exec(s.as_slice(), marker.as_slice()) {
        Some(m) => m,
        None => return None,
    };
    proof {
        assert(crate::text::occurs_at(s@, marker@, m as int));
        assert(m + marker.len() <= s.len());
    }
    let after = m + marker.len();
    let rest = sub_chars(s.as_slice(), after, s.len());
    let brace: Vec<char> = vec!['{'];
    proof {
        assert(rest@ =~= s@.skip(after as int));
        assert(brace@ =~= seq!['{']);
    }
    let o = match find_exec(rest.as_slice(), brace.as_slice()) {
        Some(o) => o,
        None => return None,
    };
    let start = after + o;
    let e = match close_brace(s.as_slice(), start) {
        Some(e) => e,
        None => return None,
    };
    let body = sub_chars(s.as_slice(), start, e + 1);
    let from: Vec<char> = vec!['\\', '"'];
    let to: Vec<char> = vec!['"'];
    proof {
        assert(from@ =~= seq!['\\', '"']);
        assert(to@ =~= seq!['"']);
    }
    let out = replace_exec(body.as_slice(), from.as_slice(), to.as_slice());
    Some(string_from_chars(out.as_slice()))
}

/// The room information of a page, or the error when the page has none.
pub fn room_info_json_text(html: &str) -> (r: Result<String, String>)
    ensures
        r is Ok <==> room_info_json_of(html@) is Some,
        r matches Ok(j) ==> room_info_json_of(html@) == Some(j@),
        r matches Err(e) ==> e@ == msg_no_room_info(),
{
    match extract_room_info_json(html) {
        Some(j) => Ok(j),
        None => Err(String::from_str("Failed to extract roomInfo JSON")),
    }
}

// ---------------------------------------------------------------------------
// Room reports
// ---------------------------------------------------------------------------
/// The report of a room looked up by its number.
pub open spec fn snapshot_view(target: Seq<char>, s: RoomSnapshot) -> RoomView {
    RoomView {
        platform: douyu_name(),
        room_id: s.room_id@,
        streamer_name: s.streamer_name@,
        room_name: s.room_name@,
        avatar_url: s.avatar_url@,
        is_online: s.is_online,
        screenshot_url: when_online(s.is_online, s.screenshot_url@),
        heat_text: when_online(s.is_online, s.heat_text@),
        page_url: room_input_url(target),
        title: Seq::empty(),
        urls: Seq::empty(),
    }
}

pub fn douyu_snapshot_state(target: &str, snapshot: RoomSnapshot) -> (r: ExtractResult)
    ensures
        r.view_of() == snapshot_view(target@, snapshot),
{
    let online = snapshot.is_online;
    let r = ExtractResult {
        platform: String::from_str(PLATFORM_DOUYU),
        room_id: snapshot.room_id,
        streamer_name: snapshot.streamer_name,
        room_name: snapshot.room_name,
        avatar_url: snapshot.avatar_url,
        is_online: online,
        screenshot_url: text_when_online(online, snapshot.screenshot_url),
        heat_text: text_when_online(online, snapshot.heat_text),
        page_url: normalize_room_input(target),
        title: String::new(),
        urls: Vec::new(),
    };
    proof {
        assert(r.view_of().urls =~= Seq::<Seq<char>>::empty());
    }
    r
}

/// The report of a room read from its page; the picture and heat of a live
/// room come from its JSON answer (empty when that lookup failed), its title
/// is its name.
pub open spec fn page_view(target: Seq<char>, info: RoomInfo, meta: RoomMeta) -> RoomView {
    RoomView {
        platform: douyu_name(),
        room_id: info.room_id@,
        streamer_name: info.streamer_name@,
        room_name: info.room_name@,
        avatar_url: info.avatar_url@,
        is_online: info.is_living,
        screenshot_url: when_online(info.is_living, meta.screenshot_url@),
        heat_text: when_online(info.is_living, meta.heat_text@),
        page_url: room_input_url(target),
        title: when_online(info.is_living, info.room_name@),
        urls: Seq::empty(),
    }
}

pub fn douyu_page_state(target: &str, info: RoomInfo, meta: RoomMeta) -> (r: ExtractResult)
    ensures
        r.view_of() == page_view(target@, info, meta),
{
    let online = info.is_living;
    let title = text_when_online(online, info.room_name.clone());
    let r = ExtractResult {
        platform: String::from_str(PLATFORM_DOUYU),
        room_id: info.room_id,
        streamer_name: info.streamer_name,
        room_name: info.room_name,
        avatar_url: info.avatar_url,
        is_online: online,
        screenshot_url: text_when_online(online, meta.screenshot_url),
        heat_text: text_when_online(online, meta.heat_text),
        page_url: normalize_room_input(target),
        title,
        urls: Vec::new(),
    };
    proof {
        assert(r.view_of().urls =~= Seq::<Seq<char>>::empty());
    }
    r
}

// ---------------------------------------------------------------------------
// Signing the play request
// ---------------------------------------------------------------------------
/// The parts of the encryption answer that are read.
pub struct DouyuEncryption {
    pub rand_str: JsonScalar,
    /// `enc_time` when it is an integer.
    pub enc_time: Option<i64>,
    pub key: JsonScalar,
    /// `is_special` when it is an integer.
    pub is_special: Option<i64>,
    pub enc_data: JsonScalar,
}

/// `n` rounds of hashing the value followed by the key.
pub open spec fn auth_rounds(v: Seq<char>, key: Seq<char>, n: nat) -> Seq<char>
    decreases n,
{
    if n == 0 {
        v
    } else {
        md5_hex_of(auth_rounds(v, key, (n - 1) as nat) + key)
    }
}

pub open spec fn enc_rounds(enc: DouyuEncryption) -> nat {
    match enc.enc_time {
        Some(t) => if t > 0 {
            t as nat
        } else {
            0
        },
        None => 0,
    }
}

/// The signature of a play request: the random text hashed with the key as
/// many rounds as asked, then hashed once more with the key and, unless the
/// answer is special, the room number and the time.
pub open spec fn douyu_auth(enc: DouyuEncryption, room_id: Seq<char>, timestamp: i64) -> Seq<char> {
    let key = scalar_text(enc.key);
    let v = auth_rounds(scalar_text(enc.rand_str), key, enc_rounds(enc));
    let special = match enc.is_special {
        Some(x) => x == 1,
        None => false,
    };
    let suffix = if special {
        Seq::empty()
    } else {
        room_id + decimal_int(timestamp as int)
    };
    md5_hex_of(v + key + suffix)
}

fn md5_of_chars(parts: &[char]) -> (r: String)
    ensures
        r@ == md5_hex_of(parts@),
{
    let s = string_from_chars(parts);
    md5_hex(s.as_str())
}

pub fn build_auth(enc: &DouyuEncryption, room_id: &str, timestamp: i64) -> (r: String)
    ensures
        r@ == douyu_auth(*enc, room_id@, timestamp),
{
    let mut value = value_to_string(&enc.rand_str);
    let key = value_to_string(&enc.key);
    let key_chars = chars_of(key.as_str());
    let n: i64 = match enc.enc_time {
        Some(t) => t,
        None => 0,
    };
    let mut k: i64 = 0;
    while k < n
        invariant
            0 <= k,
            n > 0 ==> k <= n,
            n <= 0 ==> k == 0,
            n == (match enc.enc_time {
                Some(t) => t,
                None => 0i64,
            }),
            key_chars@ == key@,
            key@ == scalar_text(enc.key),
            value@ == auth_rounds(scalar_text(enc.rand_str), key@, k as nat),
        decreases n - k,
    {
        let mut buf = chars_of(value.as_str());
        extend_chars(&mut buf, key_chars.as_slice());
        value = md5_of_chars(buf.as_slice());
        k = k + 1;
    }
    proof {
        assert(k as nat == enc_rounds(*enc));
    }
    let mut buf = chars_of(value.as_str());
    extend_chars(&mut buf, key_chars.as_slice());
    let special = match enc.is_special {
        Some(x) => x == 1,
        None => false,
    };
    if !special {
        extend_str(&mut buf, room_id);
        push_decimal_i64(&mut buf, timestamp);
    }
    proof {
        if special {
            assert(buf@ =~= value@ + key@ + Seq::<char>::empty());
        } else {
            assert(buf@ =~= value@ + key@ + (room_id@ + decimal_int(timestamp as int)));
        }
    }
    md5_of_chars(buf.as_slice())
}

pub open spec fn msg_encryption_error(code: int) -> Seq<char> {
    "Douyu encryption API error: "@ + decimal_int(code)
}

fn code_or_minus_one(error: Option<i64>) -> (c: i64)
    ensures
        c == (match error {
            Some(n) => n,
            None => -1i64,
        }),
{
    match error {
        Some(n) => n,
        None => -1,
    }
}

fn message_with_code(prefix: &str, code: i64) -> (s: String)
    ensures
        s@ == prefix@ + decimal_int(code as int),
{
    let mut v: Vec<char> = Vec::new();
    extend_str(&mut v, prefix);
    push_decimal_i64(&mut v, code);
    string_from_chars(v.as_slice())
}

/// Accepts the encryption answer when its `error` is the integer 0.
pub fn douyu_encryption_check(error: Option<i64>) -> (r: Result<(), String>)
    ensures
        r is Ok <==> error == Some(0i64),
        r matches Err(e) ==> e@ == msg_encryption_error(
            match error {
                Some(n) => n as int,
                None => -1,
            },
        ),
{
    let code = code_or_minus_one(error);
    if code != 0 {
        return Err(message_with_code("Douyu encryption API error: ", code));
    }
    Ok(())
}

/// The form of the play request.
pub open spec fn play_form(
    enc_data: Seq<char>,
    timestamp: i64,
    did: Seq<char>,
    auth: Seq<char>,
) -> Seq<(Seq<char>, Seq<char>)> {
    seq![
        ("enc_data"@, enc_data),
        ("tt"@, decimal_int(timestamp as int)),
        ("did"@, did),
        ("auth"@, auth),
        ("cdn"@, Seq::empty()),
        ("rate"@, "0"@),
        ("hevc"@, "1"@),
        ("fa"@, "0"@),
        ("ive"@, "0"@),
    ]
}

pub open spec fn pair_views(v: Seq<(String, String)>) -> Seq<(Seq<char>, Seq<char>)> {
    v.map_values(|p: (String, String)| (p.0@, p.1@))
}

fn pair(k: &str, v: String) -> (p: (String, String))
    ensures
        p.0@ == k@,
        p.1@ == v@,
{
    (String::from_str(k), v)
}

pub fn douyu_play_form(enc: &DouyuEncryption, timestamp: i64, did: &str, auth: &str) -> (r: Vec<
    (String, String),
>)
    ensures
        pair_views(r@) == play_form(scalar_text(enc.enc_data), timestamp, did@, auth@),
{
    let mut tt: Vec<char> = Vec::new();
    push_decimal_i64(&mut tt, timestamp);
    let r = vec![
        pair("enc_data", value_to_string(&enc.enc_data)),
        pair("tt", string_from_chars(tt.as_slice())),
        pair("did", String::from_str(did)),
        pair("auth", String::from_str(auth)),
        pair("cdn", String::new()),
        pair("rate", String::from_str("0")),
        pair("hevc", String::from_str("1")),
        pair("fa", String::from_str("0")),
        pair("ive", String::from_str("0")),
    ];
    proof {
        assert(pair_views(r@) =~= play_form(scalar_text(enc.enc_data), timestamp, did@, auth@));
    }
    r
}

/// A device id: the MD5 of a fresh random UUID.
pub fn douyu_device_id() -> (r: String)
    ensures
        exists|u: Seq<char>| is_uuid_v4_text(u) && r@ == md5_hex_of(u),
        r@.len() == 32,
{
    let u = new_uuid_v4();
    md5_hex(u.as_str())
}

// ---------------------------------------------------------------------------
// Stream lines
// ---------------------------------------------------------------------------
/// The peer-to-peer part of the play answer.
pub struct DouyuP2pMeta {
    pub xp2p_domain: JsonScalar,
    pub xp2p_tx_delay: JsonScalar,
    pub xp2p_tx_secret: JsonScalar,
    pub xp2p_tx_time: JsonScalar,
}

/// The parts of the play answer's `data` that are read.
pub struct DouyuPlayData {
    pub rtmp_url: JsonScalar,
    pub rtmp_live: JsonScalar,
    pub room_name: JsonScalar,
    /// `p2pMeta`, none when it is null.
    pub p2p_meta: Option<DouyuP2pMeta>,
}

/// The main stream address: `rtmp_url/rtmp_live`, empty when either is.
pub open spec fn primary_url(play: DouyuPlayData) -> Seq<char> {
    let u = scalar_text(play.rtmp_url);
    let l = scalar_text(play.rtmp_live);
    if u.len() == 0 || l.len() == 0 {
        Seq::empty()
    } else {
        u + "/"@ + l
    }
}

pub fn build_primary_url(play: &DouyuPlayData) -> (r: String)
    ensures
        r@ == primary_url(*play),
{
    let u = value_to_string(&play.rtmp_url);
    let l = value_to_string(&play.rtmp_live);
    if u.as_str().is_empty() || l.as_str().is_empty() {
        return String::new();
    }
    let mut v = chars_of(u.as_str());
    v.push('/');
    extend_str(&mut v, l.as_str());
    proof {
        assert(v@ =~= u@ + "/"@ + l@) by {
            reveal_strlit("/");
        }
    }
    string_from_chars(v.as_slice())
}

/// The parameters of the peer-to-peer address.
pub open spec fn xs_parts(live: Seq<char>, m: DouyuP2pMeta, uuid: Seq<char>) -> Seq<Seq<char>> {
    split(replace(live, "flv"@, "xs"@), '&') + seq![
        "delay="@ + scalar_text(m.xp2p_tx_delay),
        "txSecret="@ + scalar_text(m.xp2p_tx_secret),
        "txTime="@ + scalar_text(m.xp2p_tx_time),
        "uuid="@ + uuid,
    ]
}

/// The peer-to-peer path and the address of its CDN list, for a given UUID;
/// none without peer-to-peer data, a live name or a domain.
pub open spec fn xs_info(play: DouyuPlayData, uuid: Seq<char>) -> Option<(Seq<char>, Seq<char>)> {
    match play.p2p_meta {
        None => None,
        Some(m) => {
            let live = scalar_text(play.rtmp_live);
            let domain = scalar_text(m.xp2p_domain);
            if live.len() == 0 || domain.len() == 0 {
                None
            } else {
                Some(
                    (
                        domain + "/live/"@ + join(xs_parts(live, m, uuid), "&"@),
                        "https://"@ + domain + "/"@ + before_char(live, '.') + ".xs"@,
                    ),
                )
            }
        },
    }
}

fn text_param(name: &str, value: &JsonScalar) -> (v: Vec<char>)
    ensures
        v@ == name@ + scalar_text(*value),
{
    let mut v = chars_of(name);
    let t = value_to_string(value);
    extend_str(&mut v, t.as_str());
    v
}

pub fn build_xs_info(play: &DouyuPlayData, uuid: &str) -> (r: Option<(String, String)>)
    ensures
        r is Some <==> xs_info(*play, uuid@) is Some,
        r matches Some(p) ==> xs_info(*play, uuid@) == Some((p.0@, p.1@)),
{
    let m = match &play.p2p_meta {
        Some(m) => m,
        None => return None,
    };
    let live = value_to_string(&play.rtmp_live);
    let domain = value_to_string(&m.xp2p_domain);
    if live.as_str().is_empty() || domain.as_str().is_empty() {
        return None;
    }
    let live_chars = chars_of(live.as_str());
    let flv = chars_of("flv");
    let xs = chars_of("xs");
    proof {
        reveal_strlit("flv");
    }
    let replaced = replace_exec(live_chars.as_slice(), flv.as_slice(), xs.as_slice());
    let mut parts = split_exec(replaced.as_slice(), '&');
    let ghost base = parts@.map_values(|v: Vec<char>| v@);
    let p1 = text_param("delay=", &m.xp2p_tx_delay);
    let p2 = text_param("txSecret=", &m.xp2p_tx_secret);
    let p3 = text_param("txTime=", &m.xp2p_tx_time);
    let mut p4 = chars_of("uuid=");
    extend_str(&mut p4, uuid);
    parts.push(p1);
    parts.push(p2);
    parts.push(p3);
    parts.push(p4);
    proof {
        assert(parts@.map_values(|v: Vec<char>| v@) =~= xs_parts(live@, *m, uuid@));
    }
    let joined = join_exec(&parts, "&");
    let mut path = chars_of(domain.as_str());
    extend_str(&mut path, "/live/");
    extend_chars(&mut path, joined.as_slice());
    let prefix = before_char_exec(live_chars.as_slice(), '.');
    let mut cdn = chars_of("https://");
    extend_str(&mut cdn, domain.as_str());
    extend_str(&mut cdn, "/");
    extend_chars(&mut cdn, prefix.as_slice());
    extend_str(&mut cdn, ".xs");
    Some((string_from_chars(path.as_slice()), string_from_chars(cdn.as_slice())))
}

/// The peer-to-peer path and CDN-list address with a fresh random UUID.
pub fn douyu_xs_info(play: &DouyuPlayData) -> (r: Option<(String, String)>)
    ensures
        r is Some <==> xs_info(*play, Seq::empty()) is Some,
        r matches Some(p) ==> exists|u: Seq<char>|
            is_uuid_v4_text(u) && xs_info(*play, u) == Some((p.0@, p.1@)),
{
    let u = new_uuid_v4();
    let r = build_xs_info(play, u.as_str());
    proof {
        assert(xs_info(*play, Seq::empty()) is Some <==> xs_info(*play, u@) is Some);
    }
    r
}

/// The CDN list answer: its `sug` and `bak` arrays, none where the value is
/// not an array.
pub struct DouyuCdnList {
    pub sug: Option<Vec<JsonScalar>>,
    pub bak: Option<Vec<JsonScalar>>,
}

/// The string items of a list, in order.
pub open spec fn string_items(v: Seq<JsonScalar>) -> Seq<Seq<char>>
    decreases v.len(),
{
    if v.len() == 0 {
        Seq::empty()
    } else {
        string_items(v.drop_last()) + match v.last() {
            JsonScalar::Str(s) => seq![s@],
            _ => Seq::empty(),
        }
    }
}

pub open spec fn items_of(o: Option<Vec<JsonScalar>>) -> Seq<Seq<char>> {
    match o {
        Some(v) => string_items(v@),
        None => Seq::empty(),
    }
}

/// The backup domains: the suggested ones, then the spare ones.
pub open spec fn cdn_domains(cdn: DouyuCdnList) -> Seq<Seq<char>> {
    items_of(cdn.sug) + items_of(cdn.bak)
}

pub open spec fn backup_url(xs_path: Seq<char>) -> spec_fn(Seq<char>) -> Seq<char> {
    |domain: Seq<char>| "https://"@ + domain + "/"@ + xs_path
}

fn push_backups(out: &mut Vec<String>, items: &Option<Vec<JsonScalar>>, xs_path: &str)
    ensures
        views(final(out)@) == views(old(out)@) + items_of(*items).map_values(backup_url(xs_path@)),
{
    let v = match items {
        Some(v) => v,
        None => {
            proof {
                assert(views(out@) =~= views(out@) + Seq::<Seq<char>>::empty().map_values(
                    backup_url(xs_path@),
                ));
            }
            return ;
        },
    };
    let ghost start = views(out@);
    let ghost f = backup_url(xs_path@);
    let mut i: usize = 0;
    while i < v.len()
        invariant
            0 <= i <= v@.len(),
            f == backup_url(xs_path@),
            views(out@) == start + string_items(v@.take(i as int)).map_values(f),
        decreases v.len() - i,
    {
        proof {
            assert(v@.take(i + 1).drop_last() =~= v@.take(i as int));
            assert(v@.take(i + 1).last() == v@[i as int]);
        }
        match &v[i] {
            JsonScalar::Str(d) => {
                let mut u = chars_of("https://");
                extend_str(&mut u, d.as_str());
                extend_str(&mut u, "/");
                extend_str(&mut u, xs_path);
                let s = string_from_chars(u.as_slice());
                let ghost before = views(out@);
                out.push(s);
                proof {
                    assert(string_items(v@.take(i + 1)) =~= string_items(v@.take(i as int)) + seq![
                        d@,
                    ]);
                    assert(string_items(v@.take(i + 1)).map_values(f) =~= string_items(
                        v@.take(i as int),
                    ).map_values(f).push(f(d@)));
                    assert(views(out@) =~= before.push(s@));
                }
            },
            _ => {
                proof {
                    assert(string_items(v@.take(i + 1)) =~= string_items(v@.take(i as int)) + Seq::<
                        Seq<char>,
                    >::empty());
                }
            },
        }
        i = i + 1;
    }
    proof {
        assert(v@.take(v@.len() as int) =~= v@);
    }
}

/// The backup addresses: `https://{domain}/{path}` for each backup domain.
pub fn backup_urls(xs_path: &str, cdn: &DouyuCdnList) -> (r: Vec<String>)
    ensures
        views(r@) == cdn_domains(*cdn).map_values(backup_url(xs_path@)),
{
    let mut out: Vec<String> = Vec::new();
    push_backups(&mut out, &cdn.sug, xs_path);
    push_backups(&mut out, &cdn.bak, xs_path);
    proof {
        assert(cdn_domains(*cdn).map_values(backup_url(xs_path@)) =~= items_of(cdn.sug).map_values(
            backup_url(xs_path@),
        ) + items_of(cdn.bak).map_values(backup_url(xs_path@)));
    }
    out
}

/// The play answer: its `error` when it is an integer, and its `data`
/// (none when null).
pub struct DouyuPlayResponse {
    pub error: Option<i64>,
    pub data: Option<DouyuPlayData>,
}

pub open spec fn msg_play_error(code: int) -> Seq<char> {
    "Douyu play API error: "@ + decimal_int(code)
}

pub open spec fn msg_no_primary() -> Seq<char> {
    "Failed to build Douyu play url"@
}

/// The main address of a play answer: an error unless `error` is 0 and
/// there is data, or when the address cannot be built.
pub open spec fn play_primary(resp: DouyuPlayResponse) -> Result<Seq<char>, Seq<char>> {
    let code: int = match resp.error {
        Some(n) => n as int,
        None => -1,
    };
    if code != 0 || resp.data is None {
        Err(msg_play_error(code))
    } else if primary_url(resp.data.unwrap()).len() == 0 {
        Err(msg_no_primary())
    } else {
        Ok(primary_url(resp.data.unwrap()))
    }
}

pub fn douyu_play_primary(resp: &DouyuPlayResponse) -> (r: Result<String, String>)
    ensures
        text_result(r) == play_primary(*resp),
{
    let code = code_or_minus_one(resp.error);
    let play = match &resp.data {
        Some(p) => p,
        None => return Err(message_with_code("Douyu play API error: ", code)),
    };
    if code != 0 {
        return Err(message_with_code("Douyu play API error: ", code));
    }
    let primary = build_primary_url(play);
    if primary.as_str().is_empty() {
        return Err(String::from_str("Failed to build Douyu play url"));
    }
    Ok(primary)
}

/// A live room's report with its stream lines: the backups, then the main
/// one; the title is the play answer's room name, else the room's name.
pub open spec fn play_view(state: RoomView, play: DouyuPlayData, primary: Seq<char>, backups: Seq<
    Seq<char>,
>) -> RoomView {
    RoomView {
        platform: state.platform,
        room_id: state.room_id,
        streamer_name: state.streamer_name,
        room_name: state.room_name,
        avatar_url: state.avatar_url,
        is_online: state.is_online,
        screenshot_url: state.screenshot_url,
        heat_text: state.heat_text,
        page_url: state.page_url,
        title: if scalar_text(play.room_name).len() == 0 {
            state.room_name
        } else {
            scalar_text(play.room_name)
        },
        urls: backups.push(primary),
    }
}

/// The stream lines of a Douyu play report are the backups, in order,
/// followed by the main address: one more line than there are backups, the
/// last one the main address, so a report always has a line.
pub proof fn lemma_play_lines_end_with_main(
    state: RoomView,
    play: DouyuPlayData,
    primary: Seq<char>,
    backups: Seq<Seq<char>>,
)
    ensures
        play_view(state, play, primary, backups).urls.len() == backups.len() + 1,
        play_view(state, play, primary, backups).urls.last() == primary,
        play_view(state, play, primary, backups).urls.take(backups.len() as int) == backups,
{
    assert(play_view(state, play, primary, backups).urls.take(backups.len() as int) =~= backups);
}

pub fn douyu_play_state(
    state: ExtractResult,
    play: &DouyuPlayData,
    primary: String,
    backups: Vec<String>,
) -> (r: ExtractResult)
    ensures
        r.view_of() == play_view(state.view_of(), *play, primary@, views(backups@)),
        r.urls@.len() == backups@.len() + 1,
        r.urls@.last()@ == primary@,
{
    let mut state = state;
    let mut urls = backups;
    let ghost before = urls@;
    urls.push(primary);
    let title = value_to_string(&play.room_name);
    state.title = if title.as_str().is_empty() {
        state.room_name.clone()
    } else {
        title
    };
    state.urls = urls;
    proof {
        assert(views(state.urls@) =~= views(before).push(primary@));
        assert(state.urls@.map_values(|s: String| s@) =~= views(state.urls@));
    }
    state
}

// ---------------------------------------------------------------------------
// Addresses of the Douyu answers
// ---------------------------------------------------------------------------
fn concat2(a: &str, b: &str) -> (r: String)
    ensures
        r@ == a@ + b@,
{
    let mut v = chars_of(a);
    extend_str(&mut v, b);
    string_from_chars(v.as_slice())
}

/// The JSON answer about a room.
pub fn douyu_betard_url(room_id: &str) -> (r: String)
    ensures
        r@ == "https://www.douyu.com/betard/"@ + room_id@,
{
    concat2("https://www.douyu.com/betard/", room_id)
}

/// The encryption answer for a device id.
pub fn douyu_encryption_url(did: &str) -> (r: String)
    ensures
        r@ == "https://www.douyu.com/wgapi/livenc/liveweb/websec/getEncryption?did="@ + did@,
{
    concat2("https://www.douyu.com/wgapi/livenc/liveweb/websec/getEncryption?did=", did)
}

/// The play answer of a room.
pub fn douyu_play_url(room_id: &str) -> (r: String)
    ensures
        r@ == "https://www.douyu.com/lapi/live/getH5PlayV1/"@ + room_id@,
{
    concat2("https://www.douyu.com/lapi/live/getH5PlayV1/", room_id)
}

} // verus!
