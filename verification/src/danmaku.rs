//! The live-comment relay: which room a client asks for, how the bridge's
//! events are passed on, and the frames sent back to Douyin.
use vstd::prelude::*;
use crate::text::{trim, is_blank, chars_of, trim_str, is_blank_str, eq_str, extend_str};
use crate::outside::{string_from_chars, system_time_millis};
use crate::platform::{platform_from_name, douyin_name, normalize_platform, PLATFORM_DOUYIN_LIVE};
use crate::proto::{DouyinDanmakuBatch, push_frame, encode_douyin_push_frame};

verus! {

/// The room a client connected for, when its request names one: the
/// normalized platform and the room number. Without one the client's first
/// message names the room.
pub fn initial_danmaku_target(platform: &str, room_id: &str) -> (r: Option<(String, String)>)
    ensures
        r is Some <==> !is_blank(room_id@),
        r matches Some(t) ==> t.0@ == platform_from_name(platform@) && t.1@ == room_id@,
{
    if is_blank_str(room_id) {
        return None;
    }
    Some((String::from_str(normalize_platform(platform)), String::from_str(room_id)))
}

/// Where the comments of a room come from.
pub enum DanmakuSource {
    /// Douyin's own WebSocket.
    Douyin,
    /// The bridge script of the other platforms.
    Bridge,
}

pub open spec fn msg_no_danmaku_room() -> Seq<char> {
    "无法确定弹幕房间号"@
}

/// The source of a room's comments; an error when no room number was found.
pub fn danmaku_source(platform: &str, room_id: &str) -> (r: Result<DanmakuSource, String>)
    ensures
        r is Err <==> room_id@.len() == 0,
        r matches Err(e) ==> e@ == msg_no_danmaku_room(),
        r matches Ok(s) ==> (s is Douyin <==> platform@ == douyin_name()),
{
    if room_id.is_empty() {
        return Err(String::from_str("无法确定弹幕房间号"));
    }
    let p = chars_of(platform);
    if eq_str(p.as_slice(), PLATFORM_DOUYIN_LIVE) {
        Ok(DanmakuSource::Douyin)
    } else {
        Ok(DanmakuSource::Bridge)
    }
}

/// What an event of the bridge becomes for the client: its kind and text;
/// an error gets a prefix; events of other kinds are dropped.
pub open spec fn bridge_outgoing(event_type: Seq<char>, text: Seq<char>) -> Option<(Seq<char>, Seq<char>)> {
    if event_type == "status"@ {
        Some(("status"@, text))
    } else if event_type == "chat"@ {
        Some(("chat"@, text))
    } else if event_type == "error"@ {
        Some(("error"@, "Stream Hub 弹幕桥接失败: "@ + text))
    } else {
        None
    }
}

pub fn bridge_event_outgoing(event_type: &str, text: &str) -> (r: Option<(String, String)>)
    ensures
        r is Some <==> bridge_outgoing(event_type@, text@) is Some,
        r matches Some(o) ==> bridge_outgoing(event_type@, text@) == Some((o.0@, o.1@)),
{
    let t = chars_of(event_type);
    if eq_str(t.as_slice(), "status") {
        Some((String::from_str("status"), String::from_str(text)))
    } else if eq_str(t.as_slice(), "chat") {
        Some((String::from_str("chat"), String::from_str(text)))
    } else if eq_str(t.as_slice(), "error") {
        let mut v = chars_of("Stream Hub 弹幕桥接失败: ");
        extend_str(&mut v, text);
        Some((String::from_str("error"), string_from_chars(v.as_slice())))
    } else {
        None
    }
}

pub open spec fn msg_empty_ws_url() -> Seq<char> {
    "抖音弹幕 WebSocket 地址为空"@
}

/// Accepts a Douyin comment session whose WebSocket address is not blank.
pub fn douyin_ws_check(ws_url: &str) -> (r: Result<(), String>)
    ensures
        r is Ok <==> !is_blank(ws_url@),
        r matches Err(e) ==> e@ == msg_empty_ws_url(),
{
    if is_blank_str(ws_url) {
        return Err(String::from_str("抖音弹幕 WebSocket 地址为空"));
    }
    Ok(())
}

/// The referer sent to Douyin's WebSocket: the session's, trimmed, or the
/// live site when it has none.
pub fn douyin_ws_referer(referer: &str) -> (r: String)
    ensures
        r@ == (if is_blank(referer@) {
            "https://live.douyin.com"@
        } else {
            trim(referer@)
        }),
{
    if is_blank_str(referer) {
        String::from_str("https://live.douyin.com")
    } else {
        string_from_chars(trim_str(referer).as_slice())
    }
}

/// The heartbeat frame sent to Douyin.
pub fn douyin_heartbeat_frame() -> (r: Vec<u8>)
    ensures
        r@ == push_frame("hb"@, 0, Seq::empty()),
{
    let empty: Vec<u8> = Vec::new();
    encode_douyin_push_frame("hb", 0, empty.as_slice())
}

/// The acknowledgement a batch asks for, when it asks for one.
pub fn douyin_ack_frame(batch: &DouyinDanmakuBatch) -> (r: Option<Vec<u8>>)
    ensures
        r is Some <==> batch.need_ack,
        r matches Some(f) ==> f@ == push_frame("ack"@, batch.log_id, batch.ack_payload@),
{
    if batch.need_ack {
        Some(encode_douyin_push_frame("ack", batch.log_id, batch.ack_payload.as_slice()))
    } else {
        None
    }
}

/// A clock reading in milliseconds as a `u64`: capped at `u64::MAX`, 0
/// when the clock could not be read.
pub open spec fn millis_u64(ms: Option<u128>) -> u64 {
    match ms {
        Some(m) => if m > u64::MAX {
            u64::MAX
        } else {
            m as u64
        },
        None => 0,
    }
}

pub fn millis_to_u64(ms: Option<u128>) -> (r: u64)
    ensures
        r == millis_u64(ms),
{
    match ms {
        Some(m) => if m > u64::MAX as u128 {
            u64::MAX
        } else {
            m as u64
        },
        None => 0,
    }
}

/// The current time in milliseconds since the epoch, as stamped on the
/// events sent to the client.
pub fn current_timestamp_ms() -> (r: u64)
    ensures
        exists|ms: Option<u128>| r == millis_u64(ms),
{
    let ms = system_time_millis();
    millis_to_u64(ms)
}

/// The error of a helper run that failed: what it wrote to its error
/// output, trimmed, or the given message when that is blank.
pub fn helper_failure_message(stderr: &str, fallback: &str) -> (r: String)
    ensures
        r@ == (if is_blank(stderr@) {
            fallback@
        } else {
            trim(stderr@)
        }),
{
    if is_blank_str(stderr) {
        String::from_str(fallback)
    } else {
        string_from_chars(trim_str(stderr).as_slice())
    }
}

} // verus!
