//! Resolving what the user entered into a streamer, deciding whether a room
//! can be played, and the addresses of the local stream proxy.
use vstd::prelude::*;
use crate::text::{
    trim, is_blank, contains, before_char, decimal, chars_of, trim_str, is_blank_str,
    contains_str, before_char_exec, push_decimal, extend_str, extend_chars, sub_chars,
};
use crate::outside::string_from_chars;
use crate::platform::{
    Streamer, platform_from_name, platform_from_target, bilibili_name, huya_name, douyin_name,
    normalize_platform, infer_platform_from_target, PLATFORM_BILIBILI_LIVE, PLATFORM_HUYA,
    PLATFORM_DOUYIN_LIVE,
};
use crate::room::{
    bilibili_room_prefix, huya_room_prefix, douyin_room_prefix, build_bilibili_live_url,
    build_huya_live_url, build_douyin_live_url,
};
use crate::state::{ExtractResult, RoomView};
use crate::seqs::views;

verus! {

// ---------------------------------------------------------------------------
// Resolving a streamer
// ---------------------------------------------------------------------------
/// A streamer as resolved from what the user entered.
pub struct ResolvedStreamer {
    pub name: String,
    pub platform: String,
    pub target: String,
    pub room_id: String,
    pub room_name: String,
    pub streamer_name: String,
    pub avatar_url: String,
    pub is_online: bool,
    pub screenshot_url: String,
    pub heat_text: String,
}

/// The name shown for a resolved streamer: the first non-blank of the
/// streamer's name, the room's name, the room number and the entered text,
/// trimmed.
pub open spec fn fallback_name(target: Seq<char>, p: RoomView) -> Seq<char> {
    if !is_blank(p.streamer_name) {
        trim(p.streamer_name)
    } else if !is_blank(p.room_name) {
        trim(p.room_name)
    } else if !is_blank(p.room_id) {
        trim(p.room_id)
    } else {
        trim(target)
    }
}

/// The address saved for a resolved streamer: the room's page on Bilibili,
/// Huya and Douyin, the room number on Douyu.
pub open spec fn resolved_target(p: RoomView) -> Seq<char> {
    if p.platform == bilibili_name() {
        bilibili_room_prefix() + trim(p.room_id)
    } else if p.platform == huya_name() {
        huya_room_prefix() + trim(p.room_id)
    } else if p.platform == douyin_name() {
        douyin_room_prefix() + trim(p.room_id)
    } else {
        p.room_id
    }
}

fn first_non_blank(a: &String, b: &String, c: &String, d: &str) -> (r: String)
    ensures
        r@ == (if !is_blank(a@) {
            trim(a@)
        } else if !is_blank(b@) {
            trim(b@)
        } else if !is_blank(c@) {
            trim(c@)
        } else {
            trim(d@)
        }),
{
    let t = if !is_blank_str(a.as_str()) {
        trim_str(a.as_str())
    } else if !is_blank_str(b.as_str()) {
        trim_str(b.as_str())
    } else if !is_blank_str(c.as_str()) {
        trim_str(c.as_str())
    } else {
        trim_str(d)
    };
    string_from_chars(t.as_slice())
}

pub fn resolved_streamer(target: &str, parsed: ExtractResult) -> (r: ResolvedStreamer)
    ensures
        r.name@ == fallback_name(target@, parsed.view_of()),
        r.platform@ == parsed.platform@,
        r.target@ == resolved_target(parsed.view_of()),
        r.room_id@ == parsed.room_id@,
        r.room_name@ == parsed.room_name@,
        r.streamer_name@ == parsed.streamer_name@,
        r.avatar_url@ == parsed.avatar_url@,
        r.is_online == parsed.is_online,
        r.screenshot_url@ == parsed.screenshot_url@,
        r.heat_text@ == parsed.heat_text@,
{
    let name = first_non_blank(&parsed.streamer_name, &parsed.room_name, &parsed.room_id, target);
    let p = chars_of(parsed.platform.as_str());
    let t = if crate::text::eq_str(p.as_slice(), PLATFORM_BILIBILI_LIVE) {
        build_bilibili_live_url(parsed.room_id.as_str())
    } else if crate::text::eq_str(p.as_slice(), PLATFORM_HUYA) {
        build_huya_live_url(parsed.room_id.as_str())
    } else if crate::text::eq_str(p.as_slice(), PLATFORM_DOUYIN_LIVE) {
        build_douyin_live_url(parsed.room_id.as_str())
    } else {
        parsed.room_id.clone()
    };
    ResolvedStreamer {
        name,
        platform: parsed.platform,
        target: t,
        room_id: parsed.room_id,
        room_name: parsed.room_name,
        streamer_name: parsed.streamer_name,
        avatar_url: parsed.avatar_url,
        is_online: parsed.is_online,
        screenshot_url: parsed.screenshot_url,
        heat_text: parsed.heat_text,
    }
}

// ---------------------------------------------------------------------------
// Playback
// ---------------------------------------------------------------------------
/// The platform a saved streamer is played from: its own, normalized, or
/// the one its address points at when it has none.
pub open spec fn playback_platform(platform: Seq<char>, target: Seq<char>) -> Seq<char> {
    if is_blank(platform) {
        platform_from_target(target)
    } else {
        platform_from_name(platform)
    }
}

pub fn playback_platform_of(streamer: &Streamer) -> (r: &'static str)
    ensures
        r@ == playback_platform(streamer.platform@, streamer.target@),
{
    if is_blank_str(streamer.platform.as_str()) {
        infer_platform_from_target(streamer.target.as_str())
    } else {
        normalize_platform(streamer.platform.as_str())
    }
}

pub open spec fn msg_not_live() -> Seq<char> {
    "主播当前未开播"@
}

pub open spec fn msg_no_playable() -> Seq<char> {
    "未获取到可播放的直播地址"@
}

/// A room can be played when it is live and has a stream address.
pub fn check_playable(data: ExtractResult) -> (r: Result<ExtractResult, String>)
    ensures
        r is Ok <==> data.is_online && data.urls@.len() > 0,
        r matches Ok(d) ==> d == data,
        r matches Err(e) ==> e@ == (if !data.is_online {
            msg_not_live()
        } else {
            msg_no_playable()
        }),
{
    if !data.is_online {
        return Err(String::from_str("主播当前未开播"));
    }
    if data.urls.len() == 0 {
        return Err(String::from_str("未获取到可播放的直播地址"));
    }
    Ok(data)
}

/// What the front end gets to play a room.
pub struct FrontendPlayInfo {
    pub platform: String,
    pub room_id: String,
    pub streamer_name: String,
    pub room_name: String,
    pub avatar_url: String,
    pub is_online: bool,
    pub screenshot_url: String,
    pub heat_text: String,
    pub page_url: String,
    pub title: String,
    pub urls: Vec<String>,
    pub proxy_urls: Vec<String>,
}

pub fn frontend_play_info(data: ExtractResult, proxy_urls: Vec<String>) -> (r: FrontendPlayInfo)
    ensures
        r.platform == data.platform,
        r.room_id == data.room_id,
        r.streamer_name == data.streamer_name,
        r.room_name == data.room_name,
        r.avatar_url == data.avatar_url,
        r.is_online == data.is_online,
        r.screenshot_url == data.screenshot_url,
        r.heat_text == data.heat_text,
        r.page_url == data.page_url,
        r.title == data.title,
        r.urls == data.urls,
        r.proxy_urls == proxy_urls,
{
    FrontendPlayInfo {
        platform: data.platform,
        room_id: data.room_id,
        streamer_name: data.streamer_name,
        room_name: data.room_name,
        avatar_url: data.avatar_url,
        is_online: data.is_online,
        screenshot_url: data.screenshot_url,
        heat_text: data.heat_text,
        page_url: data.page_url,
        title: data.title,
        urls: data.urls,
        proxy_urls,
    }
}

// ---------------------------------------------------------------------------
// The local stream proxy
// ---------------------------------------------------------------------------
/// The local address of a proxied stream session.
pub open spec fn proxy_url(port: u16, session_id: Seq<char>) -> Seq<char> {
    "http://127.0.0.1:"@ + decimal(port as nat) + "/stream-proxy/"@ + session_id
}

pub fn stream_proxy_url(port: u16, session_id: &str) -> (r: String)
    ensures
        r@ == proxy_url(port, session_id@),
{
    let mut v = chars_of("http://127.0.0.1:");
    push_decimal(&mut v, port as u64);
    extend_str(&mut v, "/stream-proxy/");
    extend_str(&mut v, session_id);
    string_from_chars(v.as_slice())
}

/// The position of the last `/`.
pub open spec fn last_slash(s: Seq<char>) -> Option<int>
    decreases s.len(),
{
    if s.len() == 0 {
        None
    } else if s.last() == '/' {
        Some(s.len() - 1)
    } else {
        last_slash(s.drop_last())
    }
}

/// The directory of a stream address: without its query, up to and with the
/// last `/`; with a `/` added when it has none.
pub open spec fn base_url(url: Seq<char>) -> Seq<char> {
    let w = before_char(url, '?');
    match last_slash(w) {
        Some(i) => w.take(i + 1),
        None => w.push('/'),
    }
}

pub fn base_url_of(url: &str) -> (r: String)
    ensures
        r@ == base_url(url@),
{
    let u = chars_of(url);
    let w = before_char_exec(u.as_slice(), '?');
    let mut j: usize = w.len();
    proof {
        assert(w@.take(w@.len() as int) =~= w@);
    }
    while j > 0 && w[j - 1] != '/'
        invariant
            0 <= j <= w@.len(),
            last_slash(w@.take(j as int)) == last_slash(w@),
        decreases j,
    {
        proof {
            assert(w@.take(j as int).drop_last() =~= w@.take(j - 1));
        }
        j = j - 1;
    }
    proof {
        assert(w@.take(w@.len() as int) =~= w@);
        if j > 0 {
            assert(w@.take(j as int).last() == '/');
        }
    }
    if j > 0 {
        let v = sub_chars(w.as_slice(), 0, j);
        proof {
            assert(v@ =~= w@.take(j as int));
        }
        string_from_chars(v.as_slice())
    } else {
        let mut v = w;
        v.push('/');
        string_from_chars(v.as_slice())
    }
}

/// `s` without its leading `c`s: `s.trim_start_matches(c)`.
pub open spec fn trim_start_char(s: Seq<char>, c: char) -> Seq<char>
    decreases s.len(),
{
    if s.len() > 0 && s[0] == c {
        trim_start_char(s.drop_first(), c)
    } else {
        s
    }
}

fn trim_start_char_exec(s: &[char], c: char) -> (v: Vec<char>)
    ensures
        v@ == trim_start_char(s@, c),
{
    let mut i: usize = 0;
    proof {
        assert(s@.skip(0) =~= s@);
    }
    while i < s.len() && s[i] == c
        invariant
            0 <= i <= s@.len(),
            trim_start_char(s@.skip(i as int), c) == trim_start_char(s@, c),
        decreases s.len() - i,
    {
        proof {
            assert(s@.skip(i as int).drop_first() =~= s@.skip(i + 1));
        }
        i = i + 1;
    }
    proof {
        assert(s@.skip(i as int) =~= s@.subrange(i as int, s@.len() as int));
    }
    sub_chars(s, i, s.len())
}

/// The upstream address for a request to a proxied session: the session's
/// own address for the playlist (no path, or a path naming an `.m3u8`),
/// otherwise the path taken relative to the session address's directory.
pub open spec fn proxy_target(session_url: Seq<char>, path: Seq<char>) -> Seq<char> {
    if path.len() == 0 || contains(path, ".m3u8"@) {
        session_url
    } else {
        base_url(session_url) + trim_start_char(path, '/')
    }
}

pub fn proxy_target_url(session_url: &str, path: &str) -> (r: String)
    ensures
        r@ == proxy_target(session_url@, path@),
{
    let p = chars_of(path);
    if p.len() == 0 || contains_str(p.as_slice(), ".m3u8") {
        return String::from_str(session_url);
    }
    let base = base_url_of(session_url);
    let seg = trim_start_char_exec(p.as_slice(), '/');
    let mut v = chars_of(base.as_str());
    extend_chars(&mut v, seg.as_slice());
    string_from_chars(v.as_slice())
}

/// The directory of a stream address always ends with `/`, so a segment
/// path can be appended to it.
pub proof fn lemma_base_url_ends_with_slash(url: Seq<char>)
    ensures
        base_url(url).len() > 0,
        base_url(url).last() == '/',
{
    let w = before_char(url, '?');
    lemma_last_slash_at(w);
}

proof fn lemma_last_slash_at(s: Seq<char>)
    ensures
        last_slash(s) matches Some(i) ==> 0 <= i < s.len() && s[i] == '/',
    decreases s.len(),
{
    if s.len() > 0 && s.last() != '/' {
        lemma_last_slash_at(s.drop_last());
    }
}

} // verus!
